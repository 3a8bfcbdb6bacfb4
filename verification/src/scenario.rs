use vstd::prelude::*;
use vstd::string::*;
use crate::avp::{
    avp_data,
    convert_spec,
    convert_string,
    item_of,
    items_data,
    AvpData,
    AvpItem,
    AvpType,
    AvpValue,
    BuiltAvp,
};
use crate::dictionary::{
    dict_applications,
    dict_avps,
    dict_commands,
    dict_get_application_id,
    dict_get_avp_by_name,
    dict_get_command_code,
};
use crate::errors::{ConfigError, ConvertFault, ValueError, ValueParseError};
use crate::generator::{materialize_template, DiameterMessage, VariableGenerator};
use crate::global::{
    draws_ok,
    find_var,
    lemma_find_var_same_names,
    materialize_with,
    same_shape,
    Global,
    Variable,
};
use crate::options;
use crate::template::capture_names;

verus! {

// ---------------------------------------------------------------------------
// The scenario engine: one request template resolved against the dictionary,
// emitting a fresh, fully populated message per call.
// ---------------------------------------------------------------------------

/// A value template for one attribute: the source text, the target type, the
/// captured registry variables, and the pre-computed constant — present
/// exactly when no variable is captured.
pub struct Value {
    pub source: String,
    pub avp_type: AvpType,
    pub variables: Vec<usize>,
    pub constant: Option<AvpValue>,
}

/// A trigger marker for the intermediate registry states a build chain
/// passes through.
pub open spec fn chain_state(g: Seq<Variable>) -> bool {
    true
}

/// A trigger marker for one completed step of a build chain.
pub open spec fn chain_step_state(it: AvpItem, g: Seq<Variable>) -> bool {
    true
}

/// The registry positions a template's captured names resolve to, in
/// capture order.
pub open spec fn resolved_idxs(g: Seq<Variable>, caps: Seq<Seq<char>>) -> Seq<usize> {
    Seq::new(caps.len(), |k: int| find_var(g, caps[k]) as usize)
}

/// How one configured value yields content at build time: a variable-free
/// scalar converts eagerly; a template resolves its captures and
/// materializes once under admissible draws; a nested list yields one member
/// per child in declared order, the registry evolving child by child.
pub open spec fn value_ok(
    v: options::Value,
    t: AvpType,
    g1: Seq<Variable>,
    data: AvpData,
    g2: Seq<Variable>,
    dict: diameter::dictionary::Dictionary,
) -> bool
    decreases v,
{
    match v {
        options::Value::String(s) => {
            let caps = capture_names(s@);
            if caps.len() == 0 {
                convert_spec(s@, t) == Ok::<AvpData, ConvertFault>(data) && g2 == g1
            } else {
                &&& forall|k: int| 0 <= k < caps.len() ==> find_var(g1, #[trigger] caps[k]) >= 0
                &&& exists|draws: Seq<int>|
                    {
                        &&& #[trigger] draws_ok(resolved_idxs(g1, capture_names(s@)), g1, draws)
                        &&& {
                            let m = materialize_with(
                                s@,
                                resolved_idxs(g1, capture_names(s@)),
                                g1,
                                draws,
                            );
                            &&& g2 == m.1
                            &&& convert_spec(m.0, t) == Ok::<AvpData, ConvertFault>(data)
                        }
                    }
            }
        },
        options::Value::Avp(list) => {
            &&& t == AvpType::Grouped
            &&& data matches AvpData::Grouped(items) && children_ok(list@, g1, items, g2, dict)
        },
    }
}

/// How one child of a grouped value builds: its name resolved in the
/// dictionary, the fixed fields from the definition, its value built at the
/// current registry state.
pub open spec fn child_ok(
    a: options::Avp,
    g1: Seq<Variable>,
    it: AvpItem,
    g2: Seq<Variable>,
    dict: diameter::dictionary::Dictionary,
) -> bool
    decreases a,
{
    &&& dict_avps(dict).contains_key(a.name@)
    &&& it.code == dict_avps(dict)[a.name@].code
    &&& it.vendor_id == dict_avps(dict)[a.name@].vendor_id
    &&& it.flags == 0
    &&& value_ok(a.value, dict_avps(dict)[a.name@].avp_type, g1, it.value, g2, dict)
}

/// The children of a grouped value build in declared order.
pub open spec fn children_ok(
    list: Seq<options::Avp>,
    g1: Seq<Variable>,
    items: Seq<AvpItem>,
    g2: Seq<Variable>,
    dict: diameter::dictionary::Dictionary,
) -> bool
    decreases list,
{
    if list.len() == 0 {
        items.len() == 0 && g2 == g1
    } else {
        &&& items.len() == list.len()
        &&& exists|gmid: Seq<Variable>|
            {
                &&& #[trigger] chain_state(gmid)
                &&& child_ok(list[0], g1, items[0], gmid, dict)
                &&& children_ok(list.drop_first(), gmid, items.drop_first(), g2, dict)
            }
    }
}

/// Why building one configured value fails at the given registry state.
pub open spec fn value_err(
    e: ValueError,
    v: options::Value,
    t: AvpType,
    g1: Seq<Variable>,
    g2: Seq<Variable>,
    dict: diameter::dictionary::Dictionary,
) -> bool
    decreases v,
{
    match v {
        options::Value::String(s) => {
            let caps = capture_names(s@);
            &&& g2 == g1
            &&& if caps.len() == 0 {
                e matches ValueError::BadConstant { reason } && convert_spec(s@, t) == Err::<
                    AvpData,
                    ConvertFault,
                >(reason)
            } else {
                exists|k: int|
                    {
                        &&& 0 <= k < caps.len()
                        &&& find_var(g1, #[trigger] caps[k]) < 0
                        &&& e matches ValueError::UnknownVariable { name } && name@ == caps[k]
                    }
            }
        },
        options::Value::Avp(list) => {
            if t != AvpType::Grouped {
                e is TypeMismatch && g2 == g1
            } else {
                children_err(e, list@, g1, g2, dict)
            }
        },
    }
}

/// Why one child of a grouped value fails: its name is absent, its template
/// cannot be built, or its build-time materialization does not convert.
pub open spec fn child_fail(
    e: ValueError,
    a: options::Avp,
    g1: Seq<Variable>,
    g2: Seq<Variable>,
    dict: diameter::dictionary::Dictionary,
) -> bool
    decreases a,
{
    ||| {
        &&& !dict_avps(dict).contains_key(a.name@)
        &&& g2 == g1
        &&& e matches ValueError::UnknownAvp { name } && name@ == a.name@
    }
    ||| {
        &&& dict_avps(dict).contains_key(a.name@)
        &&& value_err(e, a.value, dict_avps(dict)[a.name@].avp_type, g1, g2, dict)
    }
    ||| {
        &&& dict_avps(dict).contains_key(a.name@)
        &&& e matches ValueError::BadConstant { reason } && match a.value {
            options::Value::String(s) => {
                let caps = capture_names(s@);
                let t0 = dict_avps(dict)[a.name@].avp_type;
                &&& caps.len() > 0
                &&& forall|k: int| 0 <= k < caps.len() ==> find_var(g1, #[trigger] caps[k]) >= 0
                &&& exists|draws: Seq<int>|
                    {
                        &&& #[trigger] draws_ok(resolved_idxs(g1, capture_names(s@)), g1, draws)
                        &&& {
                            let m = materialize_with(
                                s@,
                                resolved_idxs(g1, capture_names(s@)),
                                g1,
                                draws,
                            );
                            &&& g2 == m.1
                            &&& convert_spec(m.0, t0) == Err::<AvpData, ConvertFault>(reason)
                        }
                    }
            },
            options::Value::Avp(_) => false,
        }
    }
}

/// Building the children fails: some prefix builds, and the next child
/// fails with the reported error.
pub open spec fn children_err(
    e: ValueError,
    list: Seq<options::Avp>,
    g1: Seq<Variable>,
    g2: Seq<Variable>,
    dict: diameter::dictionary::Dictionary,
) -> bool
    decreases list,
{
    if list.len() == 0 {
        false
    } else {
        ||| child_fail(e, list[0], g1, g2, dict)
        ||| exists|it: AvpItem, gmid: Seq<Variable>|
            {
                &&& #[trigger] chain_step_state(it, gmid)
                &&& child_ok(list[0], g1, it, gmid, dict)
                &&& children_err(e, list.drop_first(), gmid, g2, dict)
            }
    }
}

proof fn lemma_children_ok_snoc(
    pre: Seq<options::Avp>,
    g0: Seq<Variable>,
    items: Seq<AvpItem>,
    g2: Seq<Variable>,
    a: options::Avp,
    it: AvpItem,
    g3: Seq<Variable>,
    dict: diameter::dictionary::Dictionary,
)
    requires
        children_ok(pre, g0, items, g2, dict),
        child_ok(a, g2, it, g3, dict),
    ensures
        children_ok(pre.push(a), g0, items.push(it), g3, dict),
    decreases pre.len(),
{
    if pre.len() == 0 {
        assert(pre.push(a)[0] == a);
        assert(items.push(it)[0] == it);
        assert(pre.push(a).drop_first() =~= pre);
        assert(items.push(it).drop_first() =~= items);
        assert(children_ok(pre, g3, items, g3, dict));
        assert(chain_state(g3));
        assert(child_ok(pre.push(a)[0], g0, items.push(it)[0], g3, dict));
    } else {
        let gmid = choose|gmid: Seq<Variable>|
            {
                &&& #[trigger] chain_state(gmid)
                &&& child_ok(pre[0], g0, items[0], gmid, dict)
                &&& children_ok(pre.drop_first(), gmid, items.drop_first(), g2, dict)
            };
        lemma_children_ok_snoc(pre.drop_first(), gmid, items.drop_first(), g2, a, it, g3, dict);
        assert(pre.push(a)[0] == pre[0]);
        assert(items.push(it)[0] == items[0]);
        assert(pre.push(a).drop_first() =~= pre.drop_first().push(a));
        assert(items.push(it).drop_first() =~= items.drop_first().push(it));
        assert(chain_state(gmid));
        assert(child_ok(pre.push(a)[0], g0, items.push(it)[0], gmid, dict));
    }
}

proof fn lemma_children_err_embed(
    e: ValueError,
    list: Seq<options::Avp>,
    i: int,
    g0: Seq<Variable>,
    items: Seq<AvpItem>,
    gmid: Seq<Variable>,
    g2: Seq<Variable>,
    dict: diameter::dictionary::Dictionary,
)
    requires
        0 <= i < list.len(),
        children_ok(list.subrange(0, i), g0, items, gmid, dict),
        child_fail(e, list[i], gmid, g2, dict),
    ensures
        children_err(e, list, g0, g2, dict),
    decreases i,
{
    if i == 0 {
        assert(list.subrange(0, 0) =~= Seq::<options::Avp>::empty());
        assert(gmid == g0);
        assert(child_fail(e, list[0], g0, g2, dict));
    } else {
        let pre = list.subrange(0, i);
        let g1 = choose|g1: Seq<Variable>|
            {
                &&& #[trigger] chain_state(g1)
                &&& child_ok(pre[0], g0, items[0], g1, dict)
                &&& children_ok(pre.drop_first(), g1, items.drop_first(), gmid, dict)
            };
        assert(pre[0] == list[0]);
        assert(pre.drop_first() =~= list.drop_first().subrange(0, i - 1));
        assert(forall|k: int|
            0 <= k < list.drop_first().len() ==> (#[trigger] list.drop_first()[k]) == list[
            k + 1]);
        lemma_children_err_embed(
            e,
            list.drop_first(),
            i - 1,
            g1,
            items.drop_first(),
            gmid,
            g2,
            dict,
        );
        assert(chain_step_state(items[0], g1));
        assert(child_ok(list[0], g0, items[0], g1, dict));
    }
}

impl Value {
    /// Whether every captured index lies within the registry.
    pub open spec fn wf(&self, vars: Seq<Variable>) -> bool {
        forall|k: int|
            0 <= k < self.variables@.len() ==> (#[trigger] self.variables@[k]) < vars.len()
    }

    /// The invariant the template keeps: the constant is present exactly when
    /// no variable is captured.
    pub open spec fn constant_iff_no_variables(&self) -> bool {
        self.constant is Some <==> self.variables@.len() == 0
    }

    /// The capture indices resolve the source's distinct captured names, in
    /// capture order.
    pub open spec fn resolves(&self, vars: Seq<Variable>) -> bool {
        let caps = capture_names(self.source@);
        &&& self.variables@.len() == caps.len()
        &&& forall|k: int|
            0 <= k < caps.len() ==> find_var(vars, caps[k]) == (#[trigger] self.variables@[k]) as int
    }

    /// Builds a value template. A scalar string is scanned for `${NAME}`
    /// references; with none it is eagerly converted to the target type and
    /// stored as the constant. A nested attribute list requires the grouped
    /// type; its members are built and materialized once, into a grouped
    /// constant.
    pub fn new(
        source: &options::Value,
        avp_type: AvpType,
        global: &mut Global,
        dict: &diameter::dictionary::Dictionary,
    ) -> (r: Result<Value, ValueError>)
        requires
            old(global).wf(),
        ensures
            final(global).wf(),
            same_shape(old(global).variables@, final(global).variables@),
            (*source) is String ==> *final(global) == *old(global),
            match r {
                Ok(v) => {
                    &&& v.avp_type == avp_type
                    &&& v.wf(final(global).variables@)
                    &&& v.constant_iff_no_variables()
                    &&& match *source {
                        options::Value::String(s) => {
                            &&& v.source@ == s@
                            &&& v.resolves(final(global).variables@)
                            &&& if capture_names(s@).len() == 0 {
                                v.constant matches Some(c) && convert_spec(s@, avp_type) == Ok::<
                                    AvpData,
                                    ConvertFault,
                                >(avp_data(c))
                            } else {
                                v.constant is None
                            }
                        },
                        options::Value::Avp(_) => {
                            &&& avp_type == AvpType::Grouped
                            &&& v.constant matches Some(c) && value_ok(
                                *source,
                                avp_type,
                                old(global).variables@,
                                avp_data(c),
                                final(global).variables@,
                                *dict,
                            )
                        },
                    }
                },
                Err(e) => value_err(
                    e,
                    *source,
                    avp_type,
                    old(global).variables@,
                    final(global).variables@,
                    *dict,
                ),
            },
        decreases *source,
    {
        match source {
            options::Value::String(s) => {
                let vg = match VariableGenerator::new(s.as_str(), global) {
                    Ok(v) => v,
                    Err(e) => {
                        return Err(e);
                    },
                };
                if vg.variables.len() == 0 {
                    match convert_string(s.as_str(), avp_type) {
                        Ok(c) => Ok(
                            Value {
                                source: vg.source,
                                avp_type,
                                variables: vg.variables,
                                constant: Some(c),
                            },
                        ),
                        Err(reason) => Err(ValueError::BadConstant { reason }),
                    }
                } else {
                    Ok(
                        Value {
                            source: vg.source,
                            avp_type,
                            variables: vg.variables,
                            constant: None,
                        },
                    )
                }
            },
            options::Value::Avp(list) => {
                if !matches!(avp_type, AvpType::Grouped) {
                    return Err(ValueError::TypeMismatch);
                }
                let mut items: Vec<BuiltAvp> = Vec::new();
                let mut i: usize = 0;
                proof {
                    assert(list@.subrange(0, 0) =~= Seq::<options::Avp>::empty());
                    assert(items_data(items@) =~= Seq::<AvpItem>::empty());
                }
                while i < list.len()
                    invariant
                        i <= list@.len(),
                        global.wf(),
                        same_shape(old(global).variables@, global.variables@),
                        *source matches options::Value::Avp(l) && l == *list,
                        avp_type == AvpType::Grouped,
                        children_ok(
                            list@.subrange(0, i as int),
                            old(global).variables@,
                            items_data(items@),
                            global.variables@,
                            *dict,
                        ),
                        decreases_to!(*source => *list),
                    decreases list@.len() - i,
                {
                    proof {
                        assert(decreases_to!(*list => list@[i as int]));
                        assert(decreases_to!(list@[i as int] => list@[i as int].value));
                    }
                    let ghost g0 = old(global).variables@;
                    let ghost gmid = global.variables@;
                    let ghost prefix = list@.subrange(0, i as int);
                    let ghost pre_items = items_data(items@);
                    let a = &list[i];
                    let def = match dict_get_avp_by_name(dict, a.name.as_str()) {
                        Some(d) => d,
                        None => {
                            let name = a.name.clone();
                            let ghost e = (ValueError::UnknownAvp { name: name });
                            proof {
                                assert(child_fail(e, list@[i as int], gmid, gmid, *dict));
                                lemma_children_err_embed(
                                    e,
                                    list@,
                                    i as int,
                                    g0,
                                    pre_items,
                                    gmid,
                                    gmid,
                                    *dict,
                                );
                            }
                            return Err(ValueError::UnknownAvp { name });
                        },
                    };
                    let child = match Value::new(&a.value, def.avp_type, global, dict) {
                        Ok(c) => c,
                        Err(e) => {
                            proof {
                                assert(def.avp_type == dict_avps(*dict)[a.name@].avp_type);
                                assert(child_fail(e, list@[i as int], gmid, global.variables@, *dict));
                                lemma_children_err_embed(
                                    e,
                                    list@,
                                    i as int,
                                    g0,
                                    pre_items,
                                    gmid,
                                    global.variables@,
                                    *dict,
                                );
                                assert forall|x: int|
                                    0 <= x < g0.len() implies crate::global::same_draw_profile(
                                    (#[trigger] g0[x]).value,
                                    global.variables@[x].value,
                                ) && global.variables@[x].name == g0[x].name by {
                                    assert(crate::global::same_draw_profile(
                                        g0[x].value,
                                        gmid[x].value,
                                    ));
                                    assert(gmid[x].name == g0[x].name);
                                }
                            }
                            return Err(e);
                        },
                    };
                    let ghost caps = capture_names(child.source@);
                    let child_value = match child.get_value(global) {
                        Ok(v) => v,
                        Err(reason) => {
                            let ghost e = (ValueError::BadConstant { reason });
                            proof {
                                assert(child.constant is None);
                                assert(def.avp_type == dict_avps(*dict)[a.name@].avp_type);
                                assert(child.avp_type == def.avp_type);
                                match &a.value {
                                    options::Value::String(sv) => {
                                        assert(child.source@ == sv@);
                                        assert(capture_names(sv@).len() > 0);
                                        assert(child.resolves(gmid));
                                        assert forall|k: int|
                                            0 <= k < capture_names(sv@).len() implies find_var(
                                            gmid,
                                            #[trigger] capture_names(sv@)[k],
                                        ) >= 0 by {
                                            assert(find_var(gmid, capture_names(sv@)[k])
                                                == child.variables@[k] as int);
                                        }
                                        assert(child.variables@ =~= resolved_idxs(
                                            gmid,
                                            capture_names(sv@),
                                        ));
                                        let draws = choose|draws: Seq<int>|
                                            {
                                                &&& #[trigger] draws_ok(
                                                    child.variables@,
                                                    gmid,
                                                    draws,
                                                )
                                                &&& {
                                                    let m = materialize_with(
                                                        child.source@,
                                                        child.variables@,
                                                        gmid,
                                                        draws,
                                                    );
                                                    &&& global.variables@ == m.1
                                                    &&& convert_spec(m.0, child.avp_type)
                                                        == Err::<AvpData, ConvertFault>(reason)
                                                }
                                            };
                                        assert(draws_ok(
                                            resolved_idxs(gmid, capture_names(sv@)),
                                            gmid,
                                            draws,
                                        ));
                                    },
                                    options::Value::Avp(_) => {
                                        assert(false);
                                    },
                                }
                                assert(child_fail(e, list@[i as int], gmid, global.variables@, *dict));
                                lemma_children_err_embed(
                                    e,
                                    list@,
                                    i as int,
                                    g0,
                                    pre_items,
                                    gmid,
                                    global.variables@,
                                    *dict,
                                );
                                assert forall|x: int|
                                    0 <= x < g0.len() implies crate::global::same_draw_profile(
                                    (#[trigger] g0[x]).value,
                                    global.variables@[x].value,
                                ) && global.variables@[x].name == g0[x].name by {
                                    assert(crate::global::same_draw_profile(
                                        g0[x].value,
                                        gmid[x].value,
                                    ));
                                    assert(gmid[x].name == g0[x].name);
                                }
                            }
                            return Err(ValueError::BadConstant { reason });
                        },
                    };
                    let item = BuiltAvp {
                        code: def.code,
                        vendor_id: def.vendor_id,
                        flags: 0,
                        value: child_value,
                    };
                    proof {
                        assert(def.avp_type == dict_avps(*dict)[a.name@].avp_type);
                        assert(child.avp_type == def.avp_type);
                        match &a.value {
                            options::Value::String(sv) => {
                                assert(child.source@ == sv@);
                                assert(child.resolves(gmid));
                                if capture_names(sv@).len() == 0 {
                                    assert(global.variables@ == gmid);
                                    assert(child.constant matches Some(c) && avp_data(item.value)
                                        == avp_data(c) && convert_spec(sv@, def.avp_type) == Ok::<
                                        AvpData,
                                        ConvertFault,
                                    >(avp_data(c)));
                                    assert(value_ok(
                                        a.value,
                                        def.avp_type,
                                        gmid,
                                        avp_data(item.value),
                                        global.variables@,
                                        *dict,
                                    ));
                                } else {
                                    assert forall|k: int|
                                        0 <= k < capture_names(sv@).len() implies find_var(
                                        gmid,
                                        #[trigger] capture_names(sv@)[k],
                                    ) >= 0 by {
                                        assert(find_var(gmid, capture_names(sv@)[k])
                                            == child.variables@[k] as int);
                                    }
                                    assert(child.variables@ =~= resolved_idxs(
                                        gmid,
                                        capture_names(sv@),
                                    ));
                                    let draws = choose|draws: Seq<int>|
                                        {
                                            &&& #[trigger] draws_ok(
                                                child.variables@,
                                                gmid,
                                                draws,
                                            )
                                            &&& {
                                                let m = materialize_with(
                                                    child.source@,
                                                    child.variables@,
                                                    gmid,
                                                    draws,
                                                );
                                                &&& global.variables@ == m.1
                                                &&& convert_spec(m.0, child.avp_type) == Ok::<
                                                    AvpData,
                                                    ConvertFault,
                                                >(avp_data(item.value))
                                            }
                                        };
                                    assert(draws_ok(
                                        resolved_idxs(gmid, capture_names(sv@)),
                                        gmid,
                                        draws,
                                    ));
                                    assert(value_ok(
                                        a.value,
                                        def.avp_type,
                                        gmid,
                                        avp_data(item.value),
                                        global.variables@,
                                        *dict,
                                    ));
                                }
                            },
                            options::Value::Avp(_) => {
                                assert(value_ok(
                                    a.value,
                                    def.avp_type,
                                    gmid,
                                    avp_data(item.value),
                                    global.variables@,
                                    *dict,
                                ));
                            },
                        }
                        assert(child_ok(
                            list@[i as int],
                            gmid,
                            item_of(item),
                            global.variables@,
                            *dict,
                        ));
                    }
                    let ghost items0 = items@;
                    items.push(item);
                    proof {
                        assert(items@.drop_last() =~= items0);
                        assert(items@.last() == item);
                        assert(items_data(items@) == pre_items.push(item_of(item)));
                        lemma_children_ok_snoc(
                            prefix,
                            g0,
                            pre_items,
                            gmid,
                            list@[i as int],
                            item_of(item),
                            global.variables@,
                            *dict,
                        );
                        assert(prefix.push(list@[i as int]) =~= list@.subrange(0, i as int + 1));
                        assert forall|x: int|
                            0 <= x < g0.len() implies crate::global::same_draw_profile(
                            (#[trigger] g0[x]).value,
                            global.variables@[x].value,
                        ) && global.variables@[x].name == g0[x].name by {
                            assert(crate::global::same_draw_profile(g0[x].value, gmid[x].value));
                            assert(gmid[x].name == g0[x].name);
                        }
                    }
                    i += 1;
                }
                assert(list@.subrange(0, i as int) =~= list@);
                Ok(
                    Value {
                        source: String::new(),
                        avp_type,
                        variables: Vec::new(),
                        constant: Some(AvpValue::Grouped(items)),
                    },
                )
            },
        }
    }

    /// Materializes the template to a working string: each captured variable
    /// drawn once, every occurrence of its reference substituted.
    pub fn compute(&self, global: &mut Global) -> (r: String)
        requires
            old(global).wf(),
            self.wf(old(global).variables@),
        ensures
            final(global).wf(),
            exists|draws: Seq<int>|
                {
                    &&& #[trigger] draws_ok(self.variables@, old(global).variables@, draws)
                    &&& (r@, final(global).variables@) == materialize_with(
                        self.source@,
                        self.variables@,
                        old(global).variables@,
                        draws,
                    )
                },
    {
        materialize_template(&self.source, &self.variables, global)
    }

    /// Resolves the template to a typed value: the constant when one is
    /// stored — the same value on every call, the registry untouched —
    /// else a fresh materialization converted to the target type.
    pub fn get_value(&self, global: &mut Global) -> (r: Result<AvpValue, ConvertFault>)
        requires
            old(global).wf(),
            self.wf(old(global).variables@),
        ensures
            final(global).wf(),
            same_shape(old(global).variables@, final(global).variables@),
            match self.constant {
                Some(c) => {
                    &&& *final(global) == *old(global)
                    &&& r matches Ok(v) && avp_data(v) == avp_data(c)
                },
                None => exists|draws: Seq<int>|
                    {
                        &&& #[trigger] draws_ok(self.variables@, old(global).variables@, draws)
                        &&& {
                            let m = materialize_with(
                                self.source@,
                                self.variables@,
                                old(global).variables@,
                                draws,
                            );
                            &&& final(global).variables@ == m.1
                            &&& match r {
                                Ok(v) => convert_spec(m.0, self.avp_type) == Ok::<
                                    AvpData,
                                    ConvertFault,
                                >(avp_data(v)),
                                Err(e) => convert_spec(m.0, self.avp_type) == Err::<
                                    AvpData,
                                    ConvertFault,
                                >(e),
                            }
                        }
                    },
            },
    {
        match &self.constant {
            Some(v) => Ok(v.clone_value()),
            None => {
                let s = self.compute(global);
                let r = convert_string(s.as_str(), self.avp_type);
                proof {
                    let draws = choose|draws: Seq<int>|
                        {
                            &&& #[trigger] draws_ok(
                                self.variables@,
                                old(global).variables@,
                                draws,
                            )
                            &&& (s@, final(global).variables@) == materialize_with(
                                self.source@,
                                self.variables@,
                                old(global).variables@,
                                draws,
                            )
                        };
                    assert(draws_ok(self.variables@, old(global).variables@, draws));
                    crate::global::lemma_materialize_shape(
                        self.source@,
                        self.variables@,
                        old(global).variables@,
                        draws,
                    );
                }
                r
            },
        }
    }
}

/// One resolved attribute of a message template.
pub struct Avp {
    pub name: String,
    pub code: u32,
    pub vendor_id: Option<u32>,
    pub flags: u8,
    pub value: Value,
}

/// A message template: resolved header identifiers, the attribute templates
/// in declared order, and the sequence counter.
pub struct Message {
    pub command_code: u32,
    pub application_id: u32,
    pub flags: u8,
    pub seq_num: u32,
    pub avps: Vec<Avp>,
}

/// One built attribute relates to its template: fixed fields copied; the
/// value is the constant, or a materialization converted to the target type,
/// the registry advanced accordingly.
pub open spec fn value_step_rel(a: Avp, g1: Seq<Variable>, item: BuiltAvp, g2: Seq<Variable>) -> bool {
    &&& item.code == a.code
    &&& item.vendor_id == a.vendor_id
    &&& item.flags == a.flags
    &&& match a.value.constant {
        Some(c) => avp_data(item.value) == avp_data(c) && g2 == g1,
        None => exists|draws: Seq<int>|
            {
                &&& #[trigger] draws_ok(a.value.variables@, g1, draws)
                &&& {
                    let m = materialize_with(a.value.source@, a.value.variables@, g1, draws);
                    &&& g2 == m.1
                    &&& convert_spec(m.0, a.value.avp_type) == Ok::<AvpData, ConvertFault>(
                        avp_data(item.value),
                    )
                }
            },
    }
}

/// The built attributes relate to the templates, the registry evolving one
/// attribute at a time.
pub open spec fn built_message_avps_rel(
    avps: Seq<Avp>,
    g0: Seq<Variable>,
    items: Seq<BuiltAvp>,
    g2: Seq<Variable>,
) -> bool
    decreases avps.len(),
{
    if avps.len() == 0 {
        items.len() == 0 && g2 == g0
    } else {
        &&& items.len() == avps.len()
        &&& exists|gmid: Seq<Variable>|
            {
                &&& #[trigger] value_step_rel(avps[0], g0, items[0], gmid)
                &&& built_message_avps_rel(avps.drop_first(), gmid, items.drop_first(), g2)
            }
    }
}

proof fn lemma_built_message_avps_snoc(
    avps: Seq<Avp>,
    g0: Seq<Variable>,
    items: Seq<BuiltAvp>,
    g2: Seq<Variable>,
    a: Avp,
    item: BuiltAvp,
    g3: Seq<Variable>,
)
    requires
        built_message_avps_rel(avps, g0, items, g2),
        value_step_rel(a, g2, item, g3),
    ensures
        built_message_avps_rel(avps.push(a), g0, items.push(item), g3),
    decreases avps.len(),
{
    if avps.len() == 0 {
        assert(avps.push(a)[0] == a);
        assert(items.push(item)[0] == item);
        assert(avps.push(a).drop_first() =~= avps);
        assert(items.push(item).drop_first() =~= items);
        assert(built_message_avps_rel(avps, g3, items, g3));
    } else {
        let gmid = choose|gmid: Seq<Variable>|
            {
                &&& #[trigger] value_step_rel(avps[0], g0, items[0], gmid)
                &&& built_message_avps_rel(avps.drop_first(), gmid, items.drop_first(), g2)
            };
        lemma_built_message_avps_snoc(
            avps.drop_first(),
            gmid,
            items.drop_first(),
            g2,
            a,
            item,
            g3,
        );
        assert(avps.push(a)[0] == avps[0]);
        assert(items.push(item)[0] == items[0]);
        assert(avps.push(a).drop_first() =~= avps.drop_first().push(a));
        assert(items.push(item).drop_first() =~= items.drop_first().push(item));
        assert(value_step_rel(avps.push(a)[0], g0, items.push(item)[0], gmid));
    }
}

/// One built attribute fails: its template materializes, under admissible
/// draws, to a string that does not convert to its declared type. The error
/// names the attribute and carries the exact fault; the registry stands as
/// that materialization left it.
pub open spec fn value_step_err(
    a: Avp,
    g1: Seq<Variable>,
    e: ValueParseError,
    g2: Seq<Variable>,
) -> bool {
    &&& e.avp_name@ == a.name@
    &&& a.value.constant is None
    &&& exists|draws: Seq<int>|
        {
            &&& #[trigger] draws_ok(a.value.variables@, g1, draws)
            &&& {
                let m = materialize_with(a.value.source@, a.value.variables@, g1, draws);
                &&& g2 == m.1
                &&& convert_spec(m.0, a.value.avp_type) == Err::<AvpData, ConvertFault>(e.reason)
            }
        }
}

/// Building the attributes fails: some prefix builds in order, and the next
/// attribute's conversion fails with the reported error. A message whose
/// every attribute converts on every draw admits no error at all.
pub open spec fn message_avps_err(
    avps: Seq<Avp>,
    g0: Seq<Variable>,
    e: ValueParseError,
    g2: Seq<Variable>,
) -> bool
    decreases avps.len(),
{
    if avps.len() == 0 {
        false
    } else {
        ||| value_step_err(avps[0], g0, e, g2)
        ||| exists|item: BuiltAvp, gmid: Seq<Variable>|
            {
                &&& #[trigger] value_step_rel(avps[0], g0, item, gmid)
                &&& message_avps_err(avps.drop_first(), gmid, e, g2)
            }
    }
}

proof fn lemma_message_avps_err_embed(
    avps: Seq<Avp>,
    i: int,
    g0: Seq<Variable>,
    items: Seq<BuiltAvp>,
    gmid: Seq<Variable>,
    e: ValueParseError,
    g2: Seq<Variable>,
)
    requires
        0 <= i < avps.len(),
        built_message_avps_rel(avps.subrange(0, i), g0, items, gmid),
        value_step_err(avps[i], gmid, e, g2),
    ensures
        message_avps_err(avps, g0, e, g2),
    decreases i,
{
    if i == 0 {
        assert(avps.subrange(0, 0) =~= Seq::<Avp>::empty());
        assert(gmid == g0);
        assert(value_step_err(avps[0], g0, e, g2));
    } else {
        let pre = avps.subrange(0, i);
        let g1 = choose|g1: Seq<Variable>|
            {
                &&& #[trigger] value_step_rel(pre[0], g0, items[0], g1)
                &&& built_message_avps_rel(pre.drop_first(), g1, items.drop_first(), gmid)
            };
        assert(pre[0] == avps[0]);
        assert(pre.drop_first() =~= avps.drop_first().subrange(0, i - 1));
        assert(forall|k: int|
            0 <= k < avps.drop_first().len() ==> (#[trigger] avps.drop_first()[k]) == avps[
            k + 1]);
        lemma_message_avps_err_embed(
            avps.drop_first(),
            i - 1,
            g1,
            items.drop_first(),
            gmid,
            e,
            g2,
        );
        assert(value_step_rel(avps[0], g0, items[0], g1));
    }
}

/// Law: a message whose attributes all carry pre-computed constants can
/// never fail to build — success is owed on every call.
pub proof fn lemma_constant_message_never_fails(
    avps: Seq<Avp>,
    g0: Seq<Variable>,
    e: ValueParseError,
    g2: Seq<Variable>,
)
    requires
        forall|i: int| 0 <= i < avps.len() ==> (#[trigger] avps[i]).value.constant is Some,
    ensures
        !message_avps_err(avps, g0, e, g2),
    decreases avps.len(),
{
    if avps.len() > 0 {
        assert(!value_step_err(avps[0], g0, e, g2));
        assert(forall|i: int|
            0 <= i < avps.drop_first().len() ==> (#[trigger] avps.drop_first()[i]) == avps[
            i + 1]);
        if message_avps_err(avps, g0, e, g2) {
            let (item, gmid) = choose|item: BuiltAvp, gmid: Seq<Variable>|
                {
                    &&& #[trigger] value_step_rel(avps[0], g0, item, gmid)
                    &&& message_avps_err(avps.drop_first(), gmid, e, g2)
                };
            lemma_constant_message_never_fails(avps.drop_first(), gmid, e, g2);
        }
    }
}

/// Law: a message is also owed success when every template attribute
/// targets a pass-through type — strings and octets convert on every draw.
pub proof fn lemma_string_typed_message_never_fails(
    avps: Seq<Avp>,
    g0: Seq<Variable>,
    e: ValueParseError,
    g2: Seq<Variable>,
)
    requires
        forall|i: int|
            0 <= i < avps.len() ==> {
                let v = (#[trigger] avps[i]).value;
                ||| v.constant is Some
                ||| v.avp_type is UTF8String
                ||| v.avp_type is Identity
                ||| v.avp_type is DiameterURI
                ||| v.avp_type is OctetString
            },
    ensures
        !message_avps_err(avps, g0, e, g2),
    decreases avps.len(),
{
    if avps.len() > 0 {
        assert(!value_step_err(avps[0], g0, e, g2));
        assert(forall|i: int|
            0 <= i < avps.drop_first().len() ==> (#[trigger] avps.drop_first()[i]) == avps[
            i + 1]);
        if message_avps_err(avps, g0, e, g2) {
            let (item, gmid) = choose|item: BuiltAvp, gmid: Seq<Variable>|
                {
                    &&& #[trigger] value_step_rel(avps[0], g0, item, gmid)
                    &&& message_avps_err(avps.drop_first(), gmid, e, g2)
                };
            lemma_string_typed_message_never_fails(avps.drop_first(), gmid, e, g2);
        }
    }
}

/// Whether a built message template matches its configuration: the resolved
/// header identifiers, and per attribute the dictionary's code, vendor,
/// mandatory bit and declared type.
pub open spec fn message_matches(
    m: Message,
    cfg: options::Scenario,
    dict: diameter::dictionary::Dictionary,
    vars: Seq<Variable>,
) -> bool {
    &&& dict_commands(dict).contains_key(cfg.message.command@)
    &&& m.command_code == dict_commands(dict)[cfg.message.command@]
    &&& dict_applications(dict).contains_key(cfg.message.application@)
    &&& m.application_id == dict_applications(dict)[cfg.message.application@]
    &&& m.flags == 0x80
    &&& m.seq_num == 0
    &&& m.avps@.len() == cfg.message.avps@.len()
    &&& m.wf(vars)
    &&& forall|i: int|
        0 <= i < m.avps@.len() ==> {
            let name = cfg.message.avps@[i].name@;
            &&& dict_avps(dict).contains_key(name)
            &&& (#[trigger] m.avps@[i]).code == dict_avps(dict)[name].code
            &&& m.avps@[i].vendor_id == dict_avps(dict)[name].vendor_id
            &&& m.avps@[i].flags == (if dict_avps(dict)[name].m_flag {
                0x40u8
            } else {
                0u8
            })
            &&& m.avps@[i].value.avp_type == dict_avps(dict)[name].avp_type
            &&& m.avps@[i].value.constant_iff_no_variables()
            &&& match cfg.message.avps@[i].value {
                options::Value::String(s) => {
                    &&& m.avps@[i].value.source@ == s@
                    &&& m.avps@[i].value.resolves(vars)
                    &&& (capture_names(s@).len() == 0 ==> ({
                        &&& m.avps@[i].value.constant matches Some(c) && convert_spec(
                            s@,
                            dict_avps(dict)[name].avp_type,
                        ) == Ok::<AvpData, ConvertFault>(avp_data(c))
                    }))
                },
                options::Value::Avp(_) => m.avps@[i].value.constant is Some,
            }
        }
}

/// Whether a configuration error names what the dictionary or a value
/// template refused in this configuration: an unresolved command,
/// application or attribute name, or an attribute whose value template fails
/// to build at some registry of the campaign's shape.
pub open spec fn config_error_matches(
    e: ConfigError,
    cfg: options::Scenario,
    dict: diameter::dictionary::Dictionary,
    g0: Seq<Variable>,
) -> bool {
    ||| (e matches ConfigError::UnknownCommand { name } && name@ == cfg.message.command@
        && !dict_commands(dict).contains_key(cfg.message.command@))
    ||| (e matches ConfigError::UnknownApplication { name } && name@
        == cfg.message.application@ && !dict_applications(dict).contains_key(
        cfg.message.application@,
    ))
    ||| (e matches ConfigError::UnknownAvp { name } && exists|i: int|
        0 <= i < cfg.message.avps@.len() && name@ == (#[trigger] cfg.message.avps@[i].name)@
            && !dict_avps(dict).contains_key(cfg.message.avps@[i].name@))
    ||| (e matches ConfigError::BadAvpValue { name, error } && exists|i: int, g1: Seq<
        Variable,
    >, g2: Seq<Variable>|
        #![trigger cfg.message.avps@[i], chain_state(g1), chain_state(g2)]
        {
            &&& 0 <= i < cfg.message.avps@.len()
            &&& name@ == cfg.message.avps@[i].name@
            &&& dict_avps(dict).contains_key(cfg.message.avps@[i].name@)
            &&& same_shape(g0, g1)
            &&& value_err(
                error,
                cfg.message.avps@[i].value,
                dict_avps(dict)[cfg.message.avps@[i].name@].avp_type,
                g1,
                g2,
                dict,
            )
        })
}

impl Message {
    /// Whether every attribute template's captures lie within the registry.
    pub open spec fn wf(&self, vars: Seq<Variable>) -> bool {
        forall|i: int| 0 <= i < self.avps@.len() ==> (#[trigger] self.avps@[i]).value.wf(vars)
    }

    /// Builds a message template: the command name, the application name and
    /// every attribute name are resolved against the dictionary; each
    /// attribute's value template is built with its dictionary-declared type;
    /// the mandatory bit comes from the dictionary.
    pub fn new(
        scenario: &options::Scenario,
        global: &mut Global,
        dict: &diameter::dictionary::Dictionary,
    ) -> (r: Result<Message, ConfigError>)
        requires
            old(global).wf(),
        ensures
            final(global).wf(),
            same_shape(old(global).variables@, final(global).variables@),
            (forall|j: int|
                0 <= j < scenario.message.avps@.len() ==> (#[trigger] scenario.message.avps@[
                j]).value is String) ==> *final(global) == *old(global),
            match r {
                Ok(m) => message_matches(m, *scenario, *dict, final(global).variables@),
                Err(e) => config_error_matches(
                    e,
                    *scenario,
                    *dict,
                    old(global).variables@,
                ),
            },
    {
        let command_code = match dict_get_command_code(dict, scenario.message.command.as_str()) {
            Some(c) => c,
            None => {
                return Err(ConfigError::UnknownCommand { name: scenario.message.command.clone() });
            },
        };
        let application_id = match dict_get_application_id(
            dict,
            scenario.message.application.as_str(),
        ) {
            Some(a) => a,
            None => {
                return Err(
                    ConfigError::UnknownApplication { name: scenario.message.application.clone() },
                );
            },
        };
        let flags: u8 = 0x80;
        let mut avps: Vec<Avp> = Vec::new();
        let mut i: usize = 0;
        while i < scenario.message.avps.len()
            invariant
                i <= scenario.message.avps@.len(),
                old(global).wf(),
                global.wf(),
                same_shape(old(global).variables@, global.variables@),
                (forall|j: int|
                    0 <= j < scenario.message.avps@.len() ==> (
                    #[trigger] scenario.message.avps@[j]).value is String) ==> *global == *old(
                    global,
                ),
                avps@.len() == i,
                forall|j: int|
                    0 <= j < i ==> {
                        let name = scenario.message.avps@[j].name@;
                        &&& dict_avps(*dict).contains_key(name)
                        &&& (#[trigger] avps@[j]).code == dict_avps(*dict)[name].code
                        &&& avps@[j].vendor_id == dict_avps(*dict)[name].vendor_id
                        &&& avps@[j].flags == (if dict_avps(*dict)[name].m_flag {
                            0x40u8
                        } else {
                            0u8
                        })
                        &&& avps@[j].value.avp_type == dict_avps(*dict)[name].avp_type
                        &&& avps@[j].value.constant_iff_no_variables()
                        &&& avps@[j].value.wf(global.variables@)
                        &&& match scenario.message.avps@[j].value {
                            options::Value::String(sv) => {
                                &&& avps@[j].value.source@ == sv@
                                &&& avps@[j].value.resolves(global.variables@)
                                &&& (capture_names(sv@).len() == 0 ==> ({
                                    &&& avps@[j].value.constant matches Some(c) && convert_spec(
                                        sv@,
                                        dict_avps(*dict)[name].avp_type,
                                    ) == Ok::<AvpData, ConvertFault>(avp_data(c))
                                }))
                            },
                            options::Value::Avp(_) => avps@[j].value.constant is Some,
                        }
                    },
            decreases scenario.message.avps@.len() - i,
        {
            let ghost gmid = global.variables@;
            let a = &scenario.message.avps[i];
            let def = match dict_get_avp_by_name(dict, a.name.as_str()) {
                Some(d) => d,
                None => {
                    return Err(ConfigError::UnknownAvp { name: a.name.clone() });
                },
            };
            let value = match Value::new(&a.value, def.avp_type, global, dict) {
                Ok(v) => v,
                Err(e) => {
                    let name = a.name.clone();
                    let ghost ev = e;
                    let result = ConfigError::BadAvpValue { name, error: e };
                    proof {
                        assert(def.avp_type == dict_avps(*dict)[a.name@].avp_type);
                        assert(chain_state(gmid));
                        assert(chain_state(global.variables@));
                        assert(value_err(
                            ev,
                            scenario.message.avps@[i as int].value,
                            dict_avps(*dict)[scenario.message.avps@[i as int].name@].avp_type,
                            gmid,
                            global.variables@,
                            *dict,
                        ));
                        assert forall|x: int|
                            0 <= x < old(global).variables@.len() implies
                            crate::global::same_draw_profile(
                            (#[trigger] old(global).variables@[x]).value,
                            global.variables@[x].value,
                        ) && global.variables@[x].name == old(global).variables@[x].name by {
                            assert(crate::global::same_draw_profile(
                                old(global).variables@[x].value,
                                gmid[x].value,
                            ));
                            assert(gmid[x].name == old(global).variables@[x].name);
                        }
                    }
                    return Err(result);
                },
            };
            let avp_flags: u8 = if def.m_flag {
                0x40
            } else {
                0
            };
            let avp = Avp {
                name: def.name,
                code: def.code,
                vendor_id: def.vendor_id,
                flags: avp_flags,
                value,
            };
            avps.push(avp);
            proof {
                let gnow = global.variables@;
                assert(def.avp_type == dict_avps(*dict)[a.name@].avp_type);
                assert forall|x: int|
                    0 <= x < old(global).variables@.len() implies
                    crate::global::same_draw_profile(
                    (#[trigger] old(global).variables@[x]).value,
                    gnow[x].value,
                ) && gnow[x].name == old(global).variables@[x].name by {
                    assert(crate::global::same_draw_profile(
                        old(global).variables@[x].value,
                        gmid[x].value,
                    ));
                    assert(gmid[x].name == old(global).variables@[x].name);
                }
                assert forall|j: int|
                    0 <= j < avps@.len() implies (#[trigger] avps@[j]).value.wf(gnow) && match
                    scenario.message.avps@[j].value {
                    options::Value::String(sv) => avps@[j].value.resolves(gnow),
                    options::Value::Avp(_) => true,
                } by {
                    if j < i {
                        assert(avps@[j].value.wf(gmid));
                        match scenario.message.avps@[j].value {
                            options::Value::String(sv) => {
                                assert(avps@[j].value.resolves(gmid));
                                let caps = capture_names(avps@[j].value.source@);
                                assert forall|k: int|
                                    0 <= k < caps.len() implies find_var(
                                    gnow,
                                    #[trigger] caps[k],
                                ) == (avps@[j].value.variables@[k]) as int by {
                                    lemma_find_var_same_names(gmid, gnow, caps[k]);
                                }
                            },
                            options::Value::Avp(_) => {},
                        }
                    }
                }
            }
            i += 1;
        }
        Ok(Message { command_code, application_id, flags, seq_num: 0, avps })
    }

    /// Builds the next message: the sequence number advances by one and
    /// serves as both hop-by-hop and end-to-end identifier; each attribute is
    /// materialized and appended in declared order. A parse failure names the
    /// attribute and the fault.
    pub fn message(&mut self, global: &mut Global) -> (r: Result<DiameterMessage, ValueParseError>)
        requires
            old(self).seq_num < u32::MAX,
            old(global).wf(),
            old(self).wf(old(global).variables@),
        ensures
            final(self).seq_num == old(self).seq_num + 1,
            final(self).avps == old(self).avps,
            final(self).command_code == old(self).command_code,
            final(self).application_id == old(self).application_id,
            final(self).flags == old(self).flags,
            final(global).wf(),
            same_shape(old(global).variables@, final(global).variables@),
            match r {
                Ok(m) => {
                    &&& m.command_code == old(self).command_code
                    &&& m.application_id == old(self).application_id
                    &&& m.flags == old(self).flags
                    &&& m.hop_by_hop == old(self).seq_num + 1
                    &&& m.end_to_end == old(self).seq_num + 1
                    &&& built_message_avps_rel(
                        old(self).avps@,
                        old(global).variables@,
                        m.avps@,
                        final(global).variables@,
                    )
                },
                Err(e) => message_avps_err(
                    old(self).avps@,
                    old(global).variables@,
                    e,
                    final(global).variables@,
                ),
            },
    {
        self.seq_num = self.seq_num + 1;
        let ghost g0 = global.variables@;
        let mut out: Vec<BuiltAvp> = Vec::new();
        let mut i: usize = 0;
        while i < self.avps.len()
            invariant
                i <= self.avps@.len(),
                g0 == old(global).variables@,
                old(global).wf(),
                self.avps == old(self).avps,
                self.seq_num == old(self).seq_num + 1,
                self.command_code == old(self).command_code,
                self.application_id == old(self).application_id,
                self.flags == old(self).flags,
                old(self).wf(g0),
                global.wf(),
                same_shape(g0, global.variables@),
                built_message_avps_rel(self.avps@.subrange(0, i as int), g0, out@, global.variables@),
            decreases self.avps@.len() - i,
        {
            let ghost prefix = self.avps@.subrange(0, i as int);
            let ghost gmid = global.variables@;
            let ghost out0 = out@;
            let a = &self.avps[i];
            proof {
                assert(a.value.wf(g0));
                assert forall|k: int|
                    0 <= k < a.value.variables@.len() implies (#[trigger] a.value.variables@[k])
                    < global.variables@.len() by {
                    assert(a.value.variables@[k] < g0.len());
                }
            }
            let item_value = match a.value.get_value(global) {
                Ok(v) => v,
                Err(reason) => {
                    proof {
                        if old(self).avps@[i as int].value.constant is Some {
                            assert(false);
                        }
                    }
                    let avp_name = a.name.clone();
                    let ghost e = (ValueParseError { avp_name: avp_name, reason });
                    proof {
                        assert(value_step_err(
                            self.avps@[i as int],
                            gmid,
                            e,
                            global.variables@,
                        ));
                        lemma_message_avps_err_embed(
                            self.avps@,
                            i as int,
                            g0,
                            out@,
                            gmid,
                            e,
                            global.variables@,
                        );
                        assert forall|x: int|
                            0 <= x < g0.len() implies crate::global::same_draw_profile(
                            (#[trigger] g0[x]).value,
                            global.variables@[x].value,
                        ) && global.variables@[x].name == g0[x].name by {
                            assert(crate::global::same_draw_profile(g0[x].value, gmid[x].value));
                            assert(gmid[x].name == g0[x].name);
                        }
                    }
                    return Err(ValueParseError { avp_name, reason });
                },
            };
            let item = BuiltAvp {
                code: a.code,
                vendor_id: a.vendor_id,
                flags: a.flags,
                value: item_value,
            };
            proof {
                if a.value.constant is None {
                    let draws = choose|draws: Seq<int>|
                        {
                            &&& #[trigger] draws_ok(a.value.variables@, gmid, draws)
                            &&& {
                                let m = materialize_with(
                                    a.value.source@,
                                    a.value.variables@,
                                    gmid,
                                    draws,
                                );
                                &&& global.variables@ == m.1
                                &&& convert_spec(m.0, a.value.avp_type) == Ok::<
                                    AvpData,
                                    ConvertFault,
                                >(avp_data(item.value))
                            }
                        };
                    crate::global::lemma_materialize_shape(
                        a.value.source@,
                        a.value.variables@,
                        gmid,
                        draws,
                    );
                }
                assert forall|x: int|
                    0 <= x < g0.len() implies crate::global::same_draw_profile(
                    (#[trigger] g0[x]).value,
                    global.variables@[x].value,
                ) && global.variables@[x].name == g0[x].name by {
                    assert(crate::global::same_draw_profile(g0[x].value, gmid[x].value));
                    assert(gmid[x].name == g0[x].name);
                    assert(crate::global::same_draw_profile(
                        gmid[x].value,
                        global.variables@[x].value,
                    ));
                    assert(global.variables@[x].name == gmid[x].name);
                }
                assert(value_step_rel(self.avps@[i as int], gmid, item, global.variables@));
                lemma_built_message_avps_snoc(
                    prefix,
                    g0,
                    out0,
                    gmid,
                    self.avps@[i as int],
                    item,
                    global.variables@,
                );
                assert(prefix.push(self.avps@[i as int]) =~= self.avps@.subrange(0, i as int + 1));
            }
            out.push(item);
            proof {
                assert(out@ =~= out0.push(item));
            }
            i += 1;
        }
        assert(self.avps@.subrange(0, i as int) =~= self.avps@);
        let seq_num = self.seq_num;
        Ok(
            DiameterMessage {
                command_code: self.command_code,
                application_id: self.application_id,
                flags: self.flags,
                hop_by_hop: seq_num,
                end_to_end: seq_num,
                avps: out,
            },
        )
    }
}

/// One sequence template: a name and the message it emits.
pub struct Scenario {
    pub name: String,
    pub message: Message,
}

impl Scenario {
    /// Builds a scenario: resolves its message template.
    pub fn new(
        options: &options::Scenario,
        global: &mut Global,
        dict: &diameter::dictionary::Dictionary,
    ) -> (r: Result<Scenario, ConfigError>)
        requires
            old(global).wf(),
        ensures
            final(global).wf(),
            same_shape(old(global).variables@, final(global).variables@),
            match r {
                Ok(s) => {
                    &&& s.name@ == options.name@
                    &&& message_matches(s.message, *options, *dict, final(global).variables@)
                },
                Err(e) => config_error_matches(e, *options, *dict, old(global).variables@),
            },
    {
        let message = Message::new(options, global, dict)?;
        Ok(Scenario { name: options.name.clone(), message })
    }

    /// Emits the next message: the per-scenario sequence number strictly
    /// increases with every call.
    pub fn next_message(&mut self, global: &mut Global) -> (r: Result<
        DiameterMessage,
        ValueParseError,
    >)
        requires
            old(self).message.seq_num < u32::MAX,
            old(global).wf(),
            old(self).message.wf(old(global).variables@),
        ensures
            final(self).message.seq_num == old(self).message.seq_num + 1,
            final(self).message.seq_num > old(self).message.seq_num,
            final(self).message.avps == old(self).message.avps,
            final(self).message.command_code == old(self).message.command_code,
            final(self).message.application_id == old(self).message.application_id,
            final(self).message.flags == old(self).message.flags,
            final(self).name == old(self).name,
            final(global).wf(),
            same_shape(old(global).variables@, final(global).variables@),
            match r {
                Ok(m) => {
                    &&& m.hop_by_hop == old(self).message.seq_num + 1
                    &&& m.end_to_end == old(self).message.seq_num + 1
                    &&& built_message_avps_rel(
                        old(self).message.avps@,
                        old(global).variables@,
                        m.avps@,
                        final(global).variables@,
                    )
                },
                Err(e) => message_avps_err(
                    old(self).message.avps@,
                    old(global).variables@,
                    e,
                    final(global).variables@,
                ),
            },
    {
        self.message.message(global)
    }

    pub fn get_name(&self) -> (r: &str)
        ensures
            r@ == self.name@,
    {
        self.name.as_str()
    }
}

/// Converts a materialized string to the target type: integers parsed
/// exactly, addresses parsed as IP literals and routed by family, parse
/// failures reported.
pub fn string_to_avp_value(s: &str, avp_type: AvpType) -> (r: Result<AvpValue, ConvertFault>)
    ensures
        match r {
            Ok(v) => convert_spec(s@, avp_type) == Ok::<AvpData, ConvertFault>(avp_data(v)),
            Err(e) => convert_spec(s@, avp_type) == Err::<AvpData, ConvertFault>(e),
        },
{
    convert_string(s, avp_type)
}

} // verus!
