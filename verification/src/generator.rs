use vstd::prelude::*;
use vstd::string::*;
use crate::avp::{
    avp_data,
    convert_string_simple,
    simple_convert_spec,
    AvpData,
    AvpType,
    AvpValue,
    BuiltAvp,
};
use crate::dictionary::{dict_avps, dict_get_avp_by_name};
use crate::errors::{ConfigError, ConvertFault, ValueError};
use crate::global::{
    draws_ok,
    find_var,
    lemma_materialize_shape,
    lemma_materialize_snoc,
    materialize_with,
    same_draw_profile,
    Global,
    Variable,
};
use crate::options;
use crate::template::{build_token, capture_names, dedup_names, scan_captures, subst_chars};
use crate::text::{chars_to_string, names_view, str_to_chars};

verus! {

// ---------------------------------------------------------------------------
// The value-templating engine: a template over `${NAME}` references to the
// registry, materialized into a fresh string — and a message generator that
// assembles one request per call from such templates.
// ---------------------------------------------------------------------------

/// A parsed value template: the source text and the registry variables its
/// references capture, as indices, in order of first capture.
pub struct VariableGenerator {
    pub source: String,
    pub variables: Vec<usize>,
}

impl VariableGenerator {
    /// Whether every captured index lies within the registry.
    pub open spec fn wf(&self, vars: Seq<Variable>) -> bool {
        forall|k: int|
            0 <= k < self.variables@.len() ==> (#[trigger] self.variables@[k]) < vars.len()
    }

    /// The capture indices resolve the source's distinct captured names, in
    /// capture order.
    pub open spec fn resolves(&self, vars: Seq<Variable>) -> bool {
        let caps = capture_names(self.source@);
        &&& self.variables@.len() == caps.len()
        &&& forall|k: int|
            0 <= k < caps.len() ==> find_var(vars, caps[k]) == (#[trigger] self.variables@[k]) as int
    }

    /// Parses a template: scans for `${NAME}` references and resolves each
    /// distinct name in the registry. Fails on the first name, in capture
    /// order, that the registry does not hold.
    pub fn new(source: &str, global: &Global) -> (r: Result<VariableGenerator, ValueError>)
        ensures
            match r {
                Ok(g) => {
                    &&& g.source@ == source@
                    &&& g.resolves(global.variables@)
                    &&& g.wf(global.variables@)
                },
                Err(e) => {
                    let caps = capture_names(source@);
                    exists|k: int|
                        {
                            &&& 0 <= k < caps.len()
                            &&& find_var(global.variables@, caps[k]) < 0
                            &&& e matches ValueError::UnknownVariable { name } && name@ == caps[k]
                        }
                },
            },
    {
        let chars = str_to_chars(source);
        let caps = scan_captures(&chars);
        let names = dedup_names(&caps);
        let ghost cnames = capture_names(source@);
        proof {
            assert(names_view(names) == cnames);
        }
        let mut variables: Vec<usize> = Vec::new();
        let mut k: usize = 0;
        while k < names.len()
            invariant
                k <= names@.len(),
                cnames == capture_names(source@),
                names_view(names) == cnames,
                variables@.len() == k,
                forall|j: int|
                    0 <= j < k ==> find_var(global.variables@, cnames[j]) == (
                    #[trigger] variables@[j]) as int,
            decreases names@.len() - k,
        {
            assert(names@[k as int]@ == cnames[k as int]);
            match global.find_index_chars(&names[k]) {
                Some(i) => {
                    variables.push(i);
                },
                None => {
                    let name_str = chars_to_string(&names[k]);
                    assert((k as int) < cnames.len());
                    assert(find_var(global.variables@, cnames[k as int]) < 0);
                    assert(name_str@ == cnames[k as int]);
                    return Err(ValueError::UnknownVariable { name: name_str });
                },
            }
            k += 1;
        }
        let out = VariableGenerator { source: source.to_owned(), variables };
        assert forall|j: int|
            0 <= j < out.variables@.len() implies (#[trigger] out.variables@[j])
            < global.variables@.len() by {
            crate::global::lemma_find_var(global.variables@, cnames[j]);
        }
        Ok(out)
    }

    /// Materializes once: draws each captured variable exactly once, in
    /// capture order, and substitutes every occurrence of its reference.
    pub fn compute(&self, global: &mut Global) -> (r: String)
        requires
            old(global).wf(),
            self.wf(old(global).variables@),
        ensures
            final(global).wf(),
            exists|draws: Seq<int>|
                {
                    &&& #[trigger] draws_ok(self.variables@, old(global).variables@, draws)
                    &&& (r@, final(global).variables@) == materialize_with(
                        self.source@,
                        self.variables@,
                        old(global).variables@,
                        draws,
                    )
                },
    {
        materialize_template(&self.source, &self.variables, global)
    }
}

/// Materializes a template once: draws each captured variable exactly once,
/// in capture order, and substitutes every occurrence of its reference.
pub fn materialize_template(source: &String, variables: &Vec<usize>, global: &mut Global) -> (r:
    String)
    requires
        old(global).wf(),
        forall|k: int|
            0 <= k < variables@.len() ==> (#[trigger] variables@[k])
                < old(global).variables@.len(),
    ensures
        final(global).wf(),
        exists|draws: Seq<int>|
            {
                &&& #[trigger] draws_ok(variables@, old(global).variables@, draws)
                &&& (r@, final(global).variables@) == materialize_with(
                    source@,
                    variables@,
                    old(global).variables@,
                    draws,
                )
            },
{
    let mut work: Vec<char> = str_to_chars(source.as_str());
        let ghost g0 = global.variables@;
        let ghost mut draws: Seq<int> = Seq::empty();
        let mut k: usize = 0;
        proof {
            assert(variables@.subrange(0, 0) =~= Seq::<usize>::empty());
            assert(materialize_with(source@, variables@.subrange(0, 0), g0, draws) == (
                source@,
                g0,
            ));
        }
        while k < variables.len()
            invariant
                k <= variables@.len(),
                g0 == old(global).variables@,
                old(global).wf(),
                forall|k2: int| 0 <= k2 < variables@.len() ==> (#[trigger] variables@[k2]) < g0.len(),
                global.wf(),
                global.variables@.len() == g0.len(),
                draws.len() == k,
                draws_ok(variables@.subrange(0, k as int), g0, draws),
                (work@, global.variables@) == materialize_with(
                    source@,
                    variables@.subrange(0, k as int),
                    g0,
                    draws,
                ),
            decreases variables@.len() - k,
        {
            let ghost prefix = variables@.subrange(0, k as int);
            let idx = variables[k];
            assert(idx < g0.len());
            proof {
                lemma_materialize_shape(source@, prefix, g0, draws);
            }
            let ghost gmid = global.variables@;
            let name_chars = str_to_chars(global.variables[idx].name.as_str());
            let value = global.draw_at(idx);
            let token = build_token(&name_chars);
            let value_chars = str_to_chars(value.as_str());
            work = subst_chars(&work, &token, &value_chars);
            proof {
                let d = choose|d: int|
                    crate::global::draw_ok(gmid[idx as int].value, d) && value@
                        == crate::global::draw_output(gmid[idx as int].value, d);
                assert(same_draw_profile(g0[idx as int].value, gmid[idx as int].value));
                assert(crate::global::draw_ok(g0[idx as int].value, d));
                lemma_materialize_snoc(source@, prefix, g0, draws, idx, d);
                assert(name_chars@ == gmid[idx as int].name@);
                draws = draws.push(d);
                assert(prefix.push(idx) =~= variables@.subrange(0, k as int + 1));
                assert forall|j: int|
                    0 <= j < k + 1 implies {
                    &&& (#[trigger] variables@.subrange(0, k as int + 1)[j]) < g0.len()
                    &&& crate::global::draw_ok(
                        g0[variables@.subrange(0, k as int + 1)[j] as int].value,
                        draws[j],
                    )
                } by {
                    if j < k {
                        assert(variables@.subrange(0, k as int + 1)[j] == prefix[j]);
                        assert(crate::global::draw_ok(g0[prefix[j] as int].value, draws[j]));
                    } else {
                        assert(variables@.subrange(0, k as int + 1)[j] == idx);
                    }
                }
            }
            k += 1;
        }
        assert(variables@.subrange(0, k as int) =~= variables@);
        let result = chars_to_string(&work);
        proof {
            assert(draws_ok(variables@, g0, draws) && (result@, global.variables@)
                == materialize_with(source@, variables@, g0, draws));
        }
    result
}

impl VariableGenerator {

    /// Materializes once and converts to the target type the plain way.
    pub fn get_value(&self, avp_type: AvpType, global: &mut Global) -> (r: Result<
        AvpValue,
        ConvertFault,
    >)
        requires
            old(global).wf(),
            self.wf(old(global).variables@),
        ensures
            final(global).wf(),
            exists|draws: Seq<int>|
                {
                    &&& #[trigger] draws_ok(self.variables@, old(global).variables@, draws)
                    &&& {
                        let m = materialize_with(
                            self.source@,
                            self.variables@,
                            old(global).variables@,
                            draws,
                        );
                        &&& final(global).variables@ == m.1
                        &&& match r {
                            Ok(v) => simple_convert_spec(m.0, avp_type) == Ok::<
                                AvpData,
                                ConvertFault,
                            >(avp_data(v)),
                            Err(e) => simple_convert_spec(m.0, avp_type) == Err::<
                                AvpData,
                                ConvertFault,
                            >(e),
                        }
                    }
                },
    {
        let s = self.compute(global);
        let r = convert_string_simple(s.as_str(), avp_type);
        proof {
            let draws = choose|draws: Seq<int>|
                {
                    &&& #[trigger] draws_ok(self.variables@, old(global).variables@, draws)
                    &&& (s@, final(global).variables@) == materialize_with(
                        self.source@,
                        self.variables@,
                        old(global).variables@,
                        draws,
                    )
                };
            assert(draws_ok(self.variables@, old(global).variables@, draws));
        }
        r
    }
}

// ---------------------------------------------------------------------------
// The message generator: fixed header identifiers and one value producer per
// configured attribute.
// ---------------------------------------------------------------------------

/// What produces an attribute's value: a constant converted at build time, or
/// a template materialized per message.
pub enum ValueGenerator {
    Constant(AvpValue),
    Variable(VariableGenerator),
}

/// One attribute producer.
pub struct AvpGenerator {
    pub code: u32,
    pub vendor_id: Option<u32>,
    pub flags: u8,
    pub avp_type: AvpType,
    pub value: ValueGenerator,
}

/// A built request: header identifiers and attributes in order.
pub struct DiameterMessage {
    pub command_code: u32,
    pub application_id: u32,
    pub flags: u8,
    pub hop_by_hop: u32,
    pub end_to_end: u32,
    pub avps: Vec<BuiltAvp>,
}

/// One built attribute relates to its producer: fixed fields copied; the
/// value is the constant, or a materialization of the template, with the
/// registry advanced accordingly.
pub open spec fn avp_step_rel(
    gen: AvpGenerator,
    g1: Seq<Variable>,
    item: BuiltAvp,
    g2: Seq<Variable>,
) -> bool {
    &&& item.code == gen.code
    &&& item.vendor_id == gen.vendor_id
    &&& item.flags == gen.flags
    &&& match gen.value {
        ValueGenerator::Constant(c) => avp_data(item.value) == avp_data(c) && g2 == g1,
        ValueGenerator::Variable(vg) => exists|draws: Seq<int>|
            {
                &&& #[trigger] draws_ok(vg.variables@, g1, draws)
                &&& {
                    let m = materialize_with(vg.source@, vg.variables@, g1, draws);
                    &&& g2 == m.1
                    &&& simple_convert_spec(m.0, gen.avp_type) == Ok::<AvpData, ConvertFault>(
                        avp_data(item.value),
                    )
                }
            },
    }
}

/// The built attributes relate to the producers, the registry evolving from
/// `g0` to `g2` one producer at a time.
pub open spec fn built_avps_rel(
    gens: Seq<AvpGenerator>,
    g0: Seq<Variable>,
    items: Seq<BuiltAvp>,
    g2: Seq<Variable>,
) -> bool
    decreases gens.len(),
{
    if gens.len() == 0 {
        items.len() == 0 && g2 == g0
    } else {
        &&& items.len() == gens.len()
        &&& exists|gmid: Seq<Variable>|
            {
                &&& #[trigger] avp_step_rel(gens[0], g0, items[0], gmid)
                &&& built_avps_rel(gens.drop_first(), gmid, items.drop_first(), g2)
            }
    }
}

proof fn lemma_built_avps_snoc(
    gens: Seq<AvpGenerator>,
    g0: Seq<Variable>,
    items: Seq<BuiltAvp>,
    g2: Seq<Variable>,
    gen: AvpGenerator,
    item: BuiltAvp,
    g3: Seq<Variable>,
)
    requires
        built_avps_rel(gens, g0, items, g2),
        avp_step_rel(gen, g2, item, g3),
    ensures
        built_avps_rel(gens.push(gen), g0, items.push(item), g3),
    decreases gens.len(),
{
    if gens.len() == 0 {
        assert(gens.push(gen)[0] == gen);
        assert(items.push(item)[0] == item);
        assert(gens.push(gen).drop_first() =~= gens);
        assert(items.push(item).drop_first() =~= items);
        assert(built_avps_rel(gens, g3, items, g3));
    } else {
        let gmid = choose|gmid: Seq<Variable>|
            {
                &&& #[trigger] avp_step_rel(gens[0], g0, items[0], gmid)
                &&& built_avps_rel(gens.drop_first(), gmid, items.drop_first(), g2)
            };
        lemma_built_avps_snoc(gens.drop_first(), gmid, items.drop_first(), g2, gen, item, g3);
        assert(gens.push(gen)[0] == gens[0]);
        assert(items.push(item)[0] == items[0]);
        assert(gens.push(gen).drop_first() =~= gens.drop_first().push(gen));
        assert(items.push(item).drop_first() =~= items.drop_first().push(item));
        assert(avp_step_rel(gens.push(gen)[0], g0, items.push(item)[0], gmid));
    }
}

/// One attribute producer fails: its template materializes, under admissible
/// draws, to a string that does not convert to its declared type; the
/// registry stands as that materialization left it.
pub open spec fn avp_step_err(
    gen: AvpGenerator,
    g1: Seq<Variable>,
    e: ConvertFault,
    g2: Seq<Variable>,
) -> bool {
    match gen.value {
        ValueGenerator::Constant(_) => false,
        ValueGenerator::Variable(vg) => exists|draws: Seq<int>|
            {
                &&& #[trigger] draws_ok(vg.variables@, g1, draws)
                &&& {
                    let m = materialize_with(vg.source@, vg.variables@, g1, draws);
                    &&& g2 == m.1
                    &&& simple_convert_spec(m.0, gen.avp_type) == Err::<AvpData, ConvertFault>(e)
                }
            },
    }
}

/// Building the attributes fails: some prefix builds in order, and the next
/// producer's conversion fails with the reported fault. A message whose
/// every producer converts on every draw admits no error at all.
pub open spec fn built_avps_err(
    gens: Seq<AvpGenerator>,
    g0: Seq<Variable>,
    e: ConvertFault,
    g2: Seq<Variable>,
) -> bool
    decreases gens.len(),
{
    if gens.len() == 0 {
        false
    } else {
        ||| avp_step_err(gens[0], g0, e, g2)
        ||| exists|item: BuiltAvp, gmid: Seq<Variable>|
            {
                &&& #[trigger] avp_step_rel(gens[0], g0, item, gmid)
                &&& built_avps_err(gens.drop_first(), gmid, e, g2)
            }
    }
}

proof fn lemma_built_avps_err_embed(
    gens: Seq<AvpGenerator>,
    i: int,
    g0: Seq<Variable>,
    items: Seq<BuiltAvp>,
    gmid: Seq<Variable>,
    e: ConvertFault,
    g2: Seq<Variable>,
)
    requires
        0 <= i < gens.len(),
        built_avps_rel(gens.subrange(0, i), g0, items, gmid),
        avp_step_err(gens[i], gmid, e, g2),
    ensures
        built_avps_err(gens, g0, e, g2),
    decreases i,
{
    if i == 0 {
        assert(gens.subrange(0, 0) =~= Seq::<AvpGenerator>::empty());
        assert(gmid == g0);
        assert(avp_step_err(gens[0], g0, e, g2));
    } else {
        let pre = gens.subrange(0, i);
        let g1 = choose|g1: Seq<Variable>|
            {
                &&& #[trigger] avp_step_rel(pre[0], g0, items[0], g1)
                &&& built_avps_rel(pre.drop_first(), g1, items.drop_first(), gmid)
            };
        assert(pre[0] == gens[0]);
        assert(pre.drop_first() =~= gens.drop_first().subrange(0, i - 1));
        assert(forall|k: int|
            0 <= k < gens.drop_first().len() ==> (#[trigger] gens.drop_first()[k]) == gens[
            k + 1]);
        lemma_built_avps_err_embed(
            gens.drop_first(),
            i - 1,
            g1,
            items.drop_first(),
            gmid,
            e,
            g2,
        );
        assert(avp_step_rel(gens[0], g0, items[0], g1));
    }
}

/// Law: a message whose producers all carry pre-computed constants can
/// never fail to build — success is owed on every call.
pub proof fn lemma_constant_generators_never_fail(
    gens: Seq<AvpGenerator>,
    g0: Seq<Variable>,
    e: ConvertFault,
    g2: Seq<Variable>,
)
    requires
        forall|i: int| 0 <= i < gens.len() ==> (#[trigger] gens[i]).value is Constant,
    ensures
        !built_avps_err(gens, g0, e, g2),
    decreases gens.len(),
{
    if gens.len() > 0 {
        assert(!avp_step_err(gens[0], g0, e, g2));
        assert(forall|i: int|
            0 <= i < gens.drop_first().len() ==> (#[trigger] gens.drop_first()[i]) == gens[
            i + 1]);
        if built_avps_err(gens, g0, e, g2) {
            let (item, gmid) = choose|item: BuiltAvp, gmid: Seq<Variable>|
                {
                    &&& #[trigger] avp_step_rel(gens[0], g0, item, gmid)
                    &&& built_avps_err(gens.drop_first(), gmid, e, g2)
                };
            lemma_constant_generators_never_fail(gens.drop_first(), gmid, e, g2);
        }
    }
}

/// Whether one configured attribute can be built against the dictionary and
/// the registry.
pub open spec fn avp_build_ok(
    a: options::Avp,
    avps: Map<Seq<char>, crate::dictionary::AvpDefData>,
    vars: Seq<Variable>,
) -> bool {
    &&& avps.contains_key(a.name@)
    &&& match a.value {
        options::Value::String(s) => {
            if capture_names(s@).len() == 0 {
                simple_convert_spec(s@, avps[a.name@].avp_type) is Ok
            } else {
                forall|k: int|
                    0 <= k < capture_names(s@).len() ==> find_var(
                        vars,
                        #[trigger] capture_names(s@)[k],
                    ) >= 0
            }
        },
        options::Value::Avp(_) => false,
    }
}

/// Whether one attribute producer matches its configuration entry.
pub open spec fn avp_gen_matches(
    g: AvpGenerator,
    a: options::Avp,
    avps: Map<Seq<char>, crate::dictionary::AvpDefData>,
    vars: Seq<Variable>,
) -> bool {
    &&& avps.contains_key(a.name@)
    &&& g.code == avps[a.name@].code
    &&& g.vendor_id is None
    &&& g.flags == 0
    &&& g.avp_type == avps[a.name@].avp_type
    &&& match a.value {
        options::Value::String(s) => {
            if capture_names(s@).len() == 0 {
                g.value matches ValueGenerator::Constant(c) && simple_convert_spec(
                    s@,
                    avps[a.name@].avp_type,
                ) == Ok::<AvpData, ConvertFault>(avp_data(c))
            } else {
                g.value matches ValueGenerator::Variable(vg) && vg.source@ == s@ && vg.resolves(
                    vars,
                ) && vg.wf(vars)
            }
        },
        options::Value::Avp(_) => false,
    }
}

impl MessageGenerator {
    /// Whether every template producer's captures lie within the registry.
    pub open spec fn wf(&self, vars: Seq<Variable>) -> bool {
        forall|i: int|
            0 <= i < self.avps@.len() ==> match (#[trigger] self.avps@[i]).value {
                ValueGenerator::Constant(_) => true,
                ValueGenerator::Variable(vg) => vg.wf(vars),
            }
    }

    /// Builds the producers for the configured attributes: each name resolved
    /// in the dictionary, each value a constant or a parsed template. The
    /// command code, application id and request flag are those of the
    /// credit-control request this generation of the engine was fixed to.
    pub fn new(scenario: &options::Scenario, global: &Global, dict: &diameter::dictionary::Dictionary) -> (r: Result<
        MessageGenerator,
        ConfigError,
    >)
        ensures
            match r {
                Ok(m) => {
                    &&& m.command_code == 272
                    &&& m.application_id == 4
                    &&& m.flags == 0x80
                    &&& m.seq_num == 0
                    &&& m.avps@.len() == scenario.message.avps@.len()
                    &&& forall|i: int|
                        0 <= i < m.avps@.len() ==> avp_gen_matches(
                            #[trigger] m.avps@[i],
                            scenario.message.avps@[i],
                            dict_avps(*dict),
                            global.variables@,
                        )
                    &&& m.wf(global.variables@)
                    &&& forall|i: int|
                        0 <= i < scenario.message.avps@.len() ==> avp_build_ok(
                            #[trigger] scenario.message.avps@[i],
                            dict_avps(*dict),
                            global.variables@,
                        )
                },
                Err(_) => exists|i: int|
                    0 <= i < scenario.message.avps@.len() && !avp_build_ok(
                        #[trigger] scenario.message.avps@[i],
                        dict_avps(*dict),
                        global.variables@,
                    ),
            },
    {
        let command_code: u32 = 272;
        let application_id: u32 = 4;
        let flags: u8 = 0x80;
        let mut avps: Vec<AvpGenerator> = Vec::new();
        let mut i: usize = 0;
        while i < scenario.message.avps.len()
            invariant
                i <= scenario.message.avps@.len(),
                avps@.len() == i,
                forall|j: int|
                    0 <= j < i ==> avp_gen_matches(
                        #[trigger] avps@[j],
                        scenario.message.avps@[j],
                        dict_avps(*dict),
                        global.variables@,
                    ),
                forall|j: int|
                    0 <= j < i ==> avp_build_ok(
                        #[trigger] scenario.message.avps@[j],
                        dict_avps(*dict),
                        global.variables@,
                    ),
            decreases scenario.message.avps@.len() - i,
        {
            let a = &scenario.message.avps[i];
            let def = match dict_get_avp_by_name(dict, a.name.as_str()) {
                Some(d) => d,
                None => {
                    return Err(ConfigError::UnknownAvp { name: a.name.clone() });
                },
            };
            let value: ValueGenerator;
            match &a.value {
                options::Value::String(s) => {
                    let vg = match VariableGenerator::new(s.as_str(), global) {
                        Ok(v) => v,
                        Err(e) => {
                            proof {
                                crate::global::lemma_find_var(
                                    global.variables@,
                                    arbitrary(),
                                );
                            }
                            return Err(ConfigError::BadAvpValue { name: a.name.clone(), error: e });
                        },
                    };
                    if vg.variables.len() == 0 {
                        match convert_string_simple(s.as_str(), def.avp_type) {
                            Ok(c) => {
                                value = ValueGenerator::Constant(c);
                            },
                            Err(e) => {
                                return Err(
                                    ConfigError::BadAvpValue {
                                        name: a.name.clone(),
                                        error: ValueError::BadConstant { reason: e },
                                    },
                                );
                            },
                        }
                    } else {
                        value = ValueGenerator::Variable(vg);
                    }
                },
                options::Value::Avp(_) => {
                    return Err(
                        ConfigError::BadAvpValue {
                            name: a.name.clone(),
                            error: ValueError::TypeMismatch,
                        },
                    );
                },
            }
            let gen = AvpGenerator {
                code: def.code,
                vendor_id: None,
                flags: 0,
                avp_type: def.avp_type,
                value,
            };
            let ghost geng = gen;
            avps.push(gen);
            proof {
                let aa = scenario.message.avps@[i as int];
                assert(avps@[i as int] == geng);
                match aa.value {
                    options::Value::String(sv) => {
                        if capture_names(sv@).len() > 0 {
                            match geng.value {
                                ValueGenerator::Variable(vg) => {
                                    assert forall|k: int|
                                        0 <= k < capture_names(sv@).len() implies find_var(
                                        global.variables@,
                                        #[trigger] capture_names(sv@)[k],
                                    ) >= 0 by {
                                        assert(find_var(global.variables@, capture_names(sv@)[k])
                                            == vg.variables@[k] as int);
                                    }
                                },
                                ValueGenerator::Constant(_) => {
                                    assert(false);
                                },
                            }
                        }
                    },
                    options::Value::Avp(_) => {
                        assert(false);
                    },
                }
                assert(avp_build_ok(aa, dict_avps(*dict), global.variables@));
            }
            i += 1;
        }
        Ok(MessageGenerator { command_code, application_id, flags, seq_num: 0, avps })
    }

    /// Builds the next request: the sequence number advances by one and
    /// serves as both hop-by-hop and end-to-end identifier; each attribute is
    /// materialized and appended in declared order. A conversion failure can
    /// come only from a template-valued attribute.
    pub fn message(&mut self, global: &mut Global) -> (r: Result<DiameterMessage, ConvertFault>)
        requires
            old(self).seq_num < u32::MAX,
            old(global).wf(),
            old(self).wf(old(global).variables@),
        ensures
            final(self).seq_num == old(self).seq_num + 1,
            final(self).avps == old(self).avps,
            final(self).command_code == old(self).command_code,
            final(self).application_id == old(self).application_id,
            final(self).flags == old(self).flags,
            final(global).wf(),
            match r {
                Ok(m) => {
                    &&& m.command_code == old(self).command_code
                    &&& m.application_id == old(self).application_id
                    &&& m.flags == old(self).flags
                    &&& m.hop_by_hop == old(self).seq_num + 1
                    &&& m.end_to_end == old(self).seq_num + 1
                    &&& built_avps_rel(
                        old(self).avps@,
                        old(global).variables@,
                        m.avps@,
                        final(global).variables@,
                    )
                },
                Err(e) => built_avps_err(
                    old(self).avps@,
                    old(global).variables@,
                    e,
                    final(global).variables@,
                ),
            },
    {
        self.seq_num = self.seq_num + 1;
        let ghost g0 = global.variables@;
        let mut out: Vec<BuiltAvp> = Vec::new();
        let mut i: usize = 0;
        while i < self.avps.len()
            invariant
                i <= self.avps@.len(),
                g0 == old(global).variables@,
                old(global).wf(),
                self.avps == old(self).avps,
                self.seq_num == old(self).seq_num + 1,
                self.command_code == old(self).command_code,
                self.application_id == old(self).application_id,
                self.flags == old(self).flags,
                old(self).wf(g0),
                global.wf(),
                global.variables@.len() == g0.len(),
                forall|x: int|
                    0 <= x < g0.len() ==> same_draw_profile(
                        (#[trigger] g0[x]).value,
                        global.variables@[x].value,
                    ),
                built_avps_rel(self.avps@.subrange(0, i as int), g0, out@, global.variables@),
            decreases self.avps@.len() - i,
        {
            let ghost prefix = self.avps@.subrange(0, i as int);
            let ghost gmid = global.variables@;
            let ghost out0 = out@;
            let gen = &self.avps[i];
            let item_value: AvpValue;
            match &gen.value {
                ValueGenerator::Constant(c) => {
                    item_value = c.clone_value();
                },
                ValueGenerator::Variable(vg) => {
                    proof {
                        assert(vg.wf(g0));
                        assert forall|k: int|
                            0 <= k < vg.variables@.len() implies (#[trigger] vg.variables@[k])
                            < global.variables@.len() by {
                            assert(vg.variables@[k] < g0.len());
                        }
                    }
                    match vg.get_value(gen.avp_type, global) {
                        Ok(v) => {
                            proof {
                                let draws = choose|draws: Seq<int>|
                                    {
                                        &&& #[trigger] draws_ok(vg.variables@, gmid, draws)
                                        &&& {
                                            let m = materialize_with(
                                                vg.source@,
                                                vg.variables@,
                                                gmid,
                                                draws,
                                            );
                                            &&& global.variables@ == m.1
                                            &&& simple_convert_spec(m.0, gen.avp_type) == Ok::<
                                                AvpData,
                                                ConvertFault,
                                            >(avp_data(v))
                                        }
                                    };
                                lemma_materialize_shape(vg.source@, vg.variables@, gmid, draws);
                                assert(global.variables@.len() == g0.len());
                                assert forall|x: int|
                                    0 <= x < g0.len() implies same_draw_profile(
                                    (#[trigger] g0[x]).value,
                                    global.variables@[x].value,
                                ) by {
                                    assert(same_draw_profile(g0[x].value, gmid[x].value));
                                    assert(same_draw_profile(
                                        gmid[x].value,
                                        global.variables@[x].value,
                                    ));
                                }
                            }
                            item_value = v;
                        },
                        Err(e) => {
                            proof {
                                assert(avp_step_err(
                                    self.avps@[i as int],
                                    gmid,
                                    e,
                                    global.variables@,
                                ));
                                lemma_built_avps_err_embed(
                                    self.avps@,
                                    i as int,
                                    g0,
                                    out@,
                                    gmid,
                                    e,
                                    global.variables@,
                                );
                            }
                            return Err(e);
                        },
                    }
                },
            }
            let item = BuiltAvp {
                code: gen.code,
                vendor_id: gen.vendor_id,
                flags: gen.flags,
                value: item_value,
            };
            proof {
                assert(avp_step_rel(self.avps@[i as int], gmid, item, global.variables@));
                lemma_built_avps_snoc(
                    prefix,
                    g0,
                    out0,
                    gmid,
                    self.avps@[i as int],
                    item,
                    global.variables@,
                );
                assert(prefix.push(self.avps@[i as int]) =~= self.avps@.subrange(0, i as int + 1));
            }
            out.push(item);
            proof {
                assert(out@ =~= out0.push(item));
            }
            i += 1;
        }
        assert(self.avps@.subrange(0, i as int) =~= self.avps@);
        let seq_num = self.seq_num;
        Ok(
            DiameterMessage {
                command_code: self.command_code,
                application_id: self.application_id,
                flags: self.flags,
                hop_by_hop: seq_num,
                end_to_end: seq_num,
                avps: out,
            },
        )
    }
}

/// The producers for one scenario's message, fixed header identifiers, and a
/// sequence counter.
pub struct MessageGenerator {
    pub command_code: u32,
    pub application_id: u32,
    pub flags: u8,
    pub seq_num: u32,
    pub avps: Vec<AvpGenerator>,
}

/// The engine over the repeating scenario's message template.
pub struct Generator {
    pub message: MessageGenerator,
}

impl Generator {
    /// Builds the engine from the scenario after the initialization one.
    pub fn new(options: &options::Options, global: &Global, dict: &diameter::dictionary::Dictionary) -> (r: Result<
        Generator,
        ConfigError,
    >)
        requires
            options.scenarios@.len() >= 2,
        ensures
            match r {
                Ok(g) => {
                    &&& g.message.seq_num == 0
                    &&& g.message.wf(global.variables@)
                    &&& forall|i: int|
                        0 <= i < g.message.avps@.len() ==> avp_gen_matches(
                            #[trigger] g.message.avps@[i],
                            options.scenarios@[1].message.avps@[i],
                            dict_avps(*dict),
                            global.variables@,
                        )
                },
                Err(_) => exists|i: int|
                    0 <= i < options.scenarios@[1].message.avps@.len() && !avp_build_ok(
                        #[trigger] options.scenarios@[1].message.avps@[i],
                        dict_avps(*dict),
                        global.variables@,
                    ),
            },
    {
        let message = MessageGenerator::new(&options.scenarios[1], global, dict)?;
        Ok(Generator { message })
    }

    /// Builds the next request from the repeating scenario.
    pub fn next_message(&mut self, global: &mut Global) -> (r: Result<
        DiameterMessage,
        ConvertFault,
    >)
        requires
            old(self).message.seq_num < u32::MAX,
            old(global).wf(),
            old(self).message.wf(old(global).variables@),
        ensures
            final(self).message.seq_num == old(self).message.seq_num + 1,
            final(self).message.avps == old(self).message.avps,
            final(self).message.command_code == old(self).message.command_code,
            final(self).message.application_id == old(self).message.application_id,
            final(self).message.flags == old(self).message.flags,
            final(global).wf(),
            match r {
                Ok(m) => {
                    &&& m.hop_by_hop == old(self).message.seq_num + 1
                    &&& built_avps_rel(
                        old(self).message.avps@,
                        old(global).variables@,
                        m.avps@,
                        final(global).variables@,
                    )
                },
                Err(e) => built_avps_err(
                    old(self).message.avps@,
                    old(global).variables@,
                    e,
                    final(global).variables@,
                ),
            },
    {
        self.message.message(global)
    }
}

/// Converts a string to a typed attribute value the plain way: addresses
/// carried as the string's bytes, numeric types parsed as unsigned numbers.
/// Inputs whose numeric parse fails, and the grouped type, are excluded.
pub fn string_to_avp_value(s: &str, avp_type: AvpType) -> (r: Result<AvpValue, ConvertFault>)
    requires
        !(avp_type is Grouped),
        !(simple_convert_spec(s@, avp_type) matches Err(ConvertFault::BadInteger)),
    ensures
        match r {
            Ok(v) => simple_convert_spec(s@, avp_type) == Ok::<AvpData, ConvertFault>(avp_data(v)),
            Err(e) => simple_convert_spec(s@, avp_type) == Err::<AvpData, ConvertFault>(e),
        },
        r is Err <==> avp_type is Unknown,
{
    convert_string_simple(s, avp_type)
}

} // verus!
