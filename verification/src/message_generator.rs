use vstd::prelude::*;
use vstd::string::*;
use crate::avp::{
    avp_data,
    convert_string_simple,
    simple_convert_spec,
    AvpData,
    AvpType,
    AvpValue,
    BuiltAvp,
};
use crate::dictionary::{dict_avps, dict_get_avp_by_name};
use crate::errors::{ConfigError, ConvertFault, ValueError};
use crate::generator::DiameterMessage;
use crate::options;
use crate::template::{build_token, captures, scan_captures, subst, subst_chars, var_token};
use crate::text::{
    chars_to_string,
    dec_int,
    i32_to_string,
    names_view,
    str_eq_chars,
    str_to_chars,
};

verus! {

// ---------------------------------------------------------------------------
// The first generation of the engine: one hard-wired counter variable named
// COUNTER, advanced and substituted per materialization.
// ---------------------------------------------------------------------------

/// A per-template counter: emits 1, 2, 3, … — the state after the increment.
pub struct CounterFunction {
    pub name: String,
    pub counter: i32,
}

impl CounterFunction {
    pub fn new() -> (r: CounterFunction)
        ensures
            r.name@ == "COUNTER"@,
            r.counter == 0,
    {
        CounterFunction { name: String::from_str("COUNTER"), counter: 0 }
    }

    /// Increments, then emits the new state.
    pub fn execute(&mut self) -> (r: String)
        requires
            old(self).counter < i32::MAX,
        ensures
            final(self).counter == old(self).counter + 1,
            final(self).name == old(self).name,
            r@ == dec_int(old(self).counter + 1),
    {
        self.counter = self.counter + 1;
        i32_to_string(self.counter)
    }

    pub fn name(&self) -> (r: String)
        ensures
            r@ == self.name@,
    {
        self.name.clone()
    }
}

/// How many elements of `s` equal `x`.
pub open spec fn count_matches(s: Seq<Seq<char>>, x: Seq<char>) -> nat
    decreases s.len(),
{
    if s.len() == 0 {
        0
    } else {
        count_matches(s.drop_last(), x) + if s.last() == x {
            1nat
        } else {
            0nat
        }
    }
}

/// The string this template will produce next: the counter's next value
/// substituted for every `${COUNTER}` reference.
pub open spec fn next_output(v: AvpVariableValue) -> Seq<char> {
    subst(
        v.source@,
        var_token(v.functions@[0].name@),
        dec_int(v.functions@[0].counter + 1),
    )
}

/// A value template over the one hard-wired counter.
pub struct AvpVariableValue {
    pub source: String,
    pub functions: Vec<CounterFunction>,
}

impl AvpVariableValue {
    /// One live counter per `${COUNTER}` capture, references to other names
    /// left unresolved.
    pub fn new(source: &str) -> (r: AvpVariableValue)
        ensures
            r.source@ == source@,
            r.functions@.len() == count_matches(captures(source@), "COUNTER"@),
            forall|i: int|
                0 <= i < r.functions@.len() ==> (#[trigger] r.functions@[i]).counter == 0
                    && r.functions@[i].name@ == "COUNTER"@,
    {
        let chars = str_to_chars(source);
        let caps = scan_captures(&chars);
        let mut functions: Vec<CounterFunction> = Vec::new();
        let mut k: usize = 0;
        proof {
            assert(captures(source@).subrange(0, 0) =~= Seq::<Seq<char>>::empty());
        }
        while k < caps.len()
            invariant
                k <= caps@.len(),
                names_view(caps) == captures(source@),
                functions@.len() == count_matches(
                    captures(source@).subrange(0, k as int),
                    "COUNTER"@,
                ),
                forall|i: int|
                    0 <= i < functions@.len() ==> (#[trigger] functions@[i]).counter == 0
                        && functions@[i].name@ == "COUNTER"@,
            decreases caps@.len() - k,
        {
            let ghost pre = captures(source@).subrange(0, k as int);
            let ghost cur = captures(source@).subrange(0, k as int + 1);
            proof {
                assert(cur.drop_last() =~= pre);
                assert(cur.last() == captures(source@)[k as int]);
                assert(caps@[k as int]@ == captures(source@)[k as int]);
            }
            if str_eq_chars("COUNTER", &caps[k]) {
                functions.push(CounterFunction::new());
            }
            k += 1;
        }
        assert(captures(source@).subrange(0, k as int) =~= captures(source@));
        AvpVariableValue { source: source.to_owned(), functions }
    }

    /// Materializes once: the first counter advances, and every occurrence of
    /// its reference is replaced by the new value.
    pub fn execute(&mut self) -> (r: String)
        requires
            old(self).functions@.len() > 0,
            old(self).functions@[0].counter < i32::MAX,
        ensures
            final(self).source == old(self).source,
            final(self).functions@ == old(self).functions@.update(
                0,
                final(self).functions@[0],
            ),
            final(self).functions@.len() == old(self).functions@.len(),
            final(self).functions@[0].counter == old(self).functions@[0].counter + 1,
            final(self).functions@[0].name == old(self).functions@[0].name,
            r@ == next_output(*old(self)),
    {
        let f = &mut self.functions[0];
        let counter = f.execute();
        let name = f.name();
        let src_chars = str_to_chars(self.source.as_str());
        let name_chars = str_to_chars(name.as_str());
        let token = build_token(&name_chars);
        let val_chars = str_to_chars(counter.as_str());
        let out = subst_chars(&src_chars, &token, &val_chars);
        chars_to_string(&out)
    }

    /// Materializes once and converts to the target type the plain way.
    /// Inputs whose conversion would fail are excluded.
    pub fn get_value(&mut self, avp_type: AvpType) -> (r: AvpValue)
        requires
            old(self).functions@.len() > 0,
            old(self).functions@[0].counter < i32::MAX,
            simple_convert_spec(next_output(*old(self)), avp_type) is Ok,
        ensures
            final(self).source == old(self).source,
            final(self).functions@.len() == old(self).functions@.len(),
            final(self).functions@[0].counter == old(self).functions@[0].counter + 1,
            final(self).functions@[0].name == old(self).functions@[0].name,
            simple_convert_spec(next_output(*old(self)), avp_type) == Ok::<
                AvpData,
                ConvertFault,
            >(avp_data(r)),
    {
        let value = self.execute();
        match convert_string_simple(value.as_str(), avp_type) {
            Ok(v) => v,
            Err(_) => {
                proof {
                    assert(false);
                }
                AvpValue::Unsigned32(0)
            },
        }
    }
}

/// What produces one attribute's value.
pub enum AvpValueContainer {
    Constant(AvpValue),
    Variable(AvpVariableValue),
}

/// One attribute producer.
pub struct AvpContainer {
    pub code: u32,
    pub vendor_id: Option<u32>,
    pub flags: u8,
    pub avp_type: AvpType,
    pub value: AvpValueContainer,
}

/// The producers for one scenario's message, with fixed header identifiers.
pub struct MessageGenerator {
    pub command_code: u32,
    pub application_id: u32,
    pub flags: u8,
    pub seq_num: u32,
    pub avps: Vec<AvpContainer>,
}

/// Whether one configured attribute can be built by this engine: its name in
/// the dictionary, its value a scalar whose captures are all `COUNTER` — or,
/// with no captures, a constant that converts.
pub open spec fn counter_avp_build_ok(
    a: options::Avp,
    avps: Map<Seq<char>, crate::dictionary::AvpDefData>,
) -> bool {
    &&& avps.contains_key(a.name@)
    &&& match a.value {
        options::Value::String(s) => {
            if captures(s@).len() == 0 {
                simple_convert_spec(s@, avps[a.name@].avp_type) is Ok
            } else {
                count_matches(captures(s@), "COUNTER"@) == captures(s@).len()
            }
        },
        options::Value::Avp(_) => false,
    }
}

impl MessageGenerator {
    pub open spec fn wf(&self) -> bool {
        forall|i: int|
            0 <= i < self.avps@.len() ==> match (#[trigger] self.avps@[i]).value {
                AvpValueContainer::Constant(_) => true,
                AvpValueContainer::Variable(v) => v.functions@.len() > 0 && v.functions@[0].counter
                    < i32::MAX && v.functions@[0].name@ == "COUNTER"@,
            }
    }

    /// Builds the producers: each attribute name resolved in the dictionary,
    /// each value a constant or a counter template. The header identifiers
    /// are those of the credit-control request this engine was fixed to.
    pub fn new(scenario: &options::Scenario, dict: &diameter::dictionary::Dictionary) -> (r:
        Result<MessageGenerator, ConfigError>)
        ensures
            match r {
                Ok(m) => {
                    &&& m.command_code == 272
                    &&& m.application_id == 4
                    &&& m.flags == 0x80
                    &&& m.seq_num == 0
                    &&& m.avps@.len() == scenario.message.avps@.len()
                    &&& m.wf()
                    &&& forall|i: int|
                        0 <= i < scenario.message.avps@.len() ==> counter_avp_build_ok(
                            #[trigger] scenario.message.avps@[i],
                            dict_avps(*dict),
                        )
                },
                Err(_) => exists|i: int|
                    0 <= i < scenario.message.avps@.len() && !counter_avp_build_ok(
                        #[trigger] scenario.message.avps@[i],
                        dict_avps(*dict),
                    ),
            },
    {
        let mut avps: Vec<AvpContainer> = Vec::new();
        let mut i: usize = 0;
        while i < scenario.message.avps.len()
            invariant
                i <= scenario.message.avps@.len(),
                avps@.len() == i,
                forall|j: int|
                    0 <= j < i ==> counter_avp_build_ok(
                        #[trigger] scenario.message.avps@[j],
                        dict_avps(*dict),
                    ),
                forall|j: int|
                    0 <= j < avps@.len() ==> match (#[trigger] avps@[j]).value {
                        AvpValueContainer::Constant(_) => true,
                        AvpValueContainer::Variable(v) => v.functions@.len() > 0
                            && v.functions@[0].counter < i32::MAX && v.functions@[0].name@
                            == "COUNTER"@,
                    },
            decreases scenario.message.avps@.len() - i,
        {
            let a = &scenario.message.avps[i];
            let def = match dict_get_avp_by_name(dict, a.name.as_str()) {
                Some(d) => d,
                None => {
                    return Err(ConfigError::UnknownAvp { name: a.name.clone() });
                },
            };
            let value: AvpValueContainer;
            match &a.value {
                options::Value::String(s) => {
                    let avv = AvpVariableValue::new(s.as_str());
                    let caps_total = {
                        let chars = str_to_chars(s.as_str());
                        let all = scan_captures(&chars);
                        all.len()
                    };
                    if caps_total == 0 {
                        match convert_string_simple(s.as_str(), def.avp_type) {
                            Ok(c) => {
                                value = AvpValueContainer::Constant(c);
                            },
                            Err(e) => {
                                return Err(
                                    ConfigError::BadAvpValue {
                                        name: a.name.clone(),
                                        error: ValueError::BadConstant { reason: e },
                                    },
                                );
                            },
                        }
                    } else if avv.functions.len() == caps_total {
                        value = AvpValueContainer::Variable(avv);
                    } else {
                        proof {
                            lemma_count_matches_le(captures(s@), "COUNTER"@);
                        }
                        return Err(
                            ConfigError::BadAvpValue {
                                name: a.name.clone(),
                                error: ValueError::TypeMismatch,
                            },
                        );
                    }
                },
                options::Value::Avp(_) => {
                    return Err(
                        ConfigError::BadAvpValue {
                            name: a.name.clone(),
                            error: ValueError::TypeMismatch,
                        },
                    );
                },
            }
            avps.push(
                AvpContainer {
                    code: def.code,
                    vendor_id: None,
                    flags: 0,
                    avp_type: def.avp_type,
                    value,
                },
            );
            i += 1;
        }
        Ok(MessageGenerator { command_code: 272, application_id: 4, flags: 0x80, seq_num: 0, avps })
    }

    /// Builds the next request: the sequence number advances by one and
    /// serves as both identifiers; each attribute is materialized in order.
    /// Inputs whose conversion would fail are excluded.
    pub fn message(&mut self) -> (r: DiameterMessage)
        requires
            old(self).seq_num < u32::MAX,
            old(self).wf(),
            forall|i: int|
                0 <= i < old(self).avps@.len() ==> match (#[trigger] old(self).avps@[i]).value {
                    AvpValueContainer::Constant(_) => true,
                    AvpValueContainer::Variable(v) => simple_convert_spec(
                        next_output(v),
                        old(self).avps@[i].avp_type,
                    ) is Ok,
                },
        ensures
            final(self).seq_num == old(self).seq_num + 1,
            final(self).avps@.len() == old(self).avps@.len(),
            r.command_code == old(self).command_code,
            r.application_id == old(self).application_id,
            r.flags == old(self).flags,
            r.hop_by_hop == old(self).seq_num + 1,
            r.end_to_end == old(self).seq_num + 1,
            r.avps@.len() == old(self).avps@.len(),
            forall|i: int|
                0 <= i < old(self).avps@.len() ==> {
                    let c0 = old(self).avps@[i];
                    let item = (#[trigger] r.avps@[i]);
                    &&& item.code == c0.code
                    &&& item.vendor_id == c0.vendor_id
                    &&& item.flags == c0.flags
                    &&& match c0.value {
                        AvpValueContainer::Constant(c) => avp_data(item.value) == avp_data(c)
                            && final(self).avps@[i] == c0,
                        AvpValueContainer::Variable(v) => {
                            &&& simple_convert_spec(next_output(v), c0.avp_type) == Ok::<
                                AvpData,
                                ConvertFault,
                            >(avp_data(item.value))
                            &&& final(self).avps@[i].value matches AvpValueContainer::Variable(v1)
                                && v1.functions@[0].counter == v.functions@[0].counter + 1
                                && v1.functions@[0].name == v.functions@[0].name
                                && v1.source == v.source && v1.functions@.len()
                                == v.functions@.len()
                        },
                    }
                },
    {
        self.seq_num = self.seq_num + 1;
        let mut out: Vec<BuiltAvp> = Vec::new();
        let mut i: usize = 0;
        while i < self.avps.len()
            invariant
                i <= self.avps@.len(),
                self.seq_num == old(self).seq_num + 1,
                self.command_code == old(self).command_code,
                self.application_id == old(self).application_id,
                self.flags == old(self).flags,
                self.avps@.len() == old(self).avps@.len(),
                out@.len() == i,
                old(self).wf(),
                forall|j: int|
                    0 <= j < old(self).avps@.len() ==> match (#[trigger] old(
                        self,
                    ).avps@[j]).value {
                        AvpValueContainer::Constant(_) => true,
                        AvpValueContainer::Variable(v) => simple_convert_spec(
                            next_output(v),
                            old(self).avps@[j].avp_type,
                        ) is Ok,
                    },
                forall|j: int|
                    i <= j < self.avps@.len() ==> (#[trigger] self.avps@[j]) == old(
                        self,
                    ).avps@[j],
                forall|j: int|
                    0 <= j < i ==> {
                        let c0 = old(self).avps@[j];
                        let item = (#[trigger] out@[j]);
                        &&& item.code == c0.code
                        &&& item.vendor_id == c0.vendor_id
                        &&& item.flags == c0.flags
                        &&& match c0.value {
                            AvpValueContainer::Constant(c) => avp_data(item.value) == avp_data(c)
                                && self.avps@[j] == c0,
                            AvpValueContainer::Variable(v) => {
                                &&& simple_convert_spec(next_output(v), c0.avp_type) == Ok::<
                                    AvpData,
                                    ConvertFault,
                                >(avp_data(item.value))
                                &&& self.avps@[j].value matches AvpValueContainer::Variable(v1)
                                    && v1.functions@[0].counter == v.functions@[0].counter + 1
                                    && v1.functions@[0].name == v.functions@[0].name
                                    && v1.source == v.source && v1.functions@.len()
                                    == v.functions@.len()
                            },
                        }
                    },
            decreases self.avps@.len() - i,
        {
            let ghost avps0 = self.avps@;
            let cont = &mut self.avps[i];
            let item_value: AvpValue;
            match &mut cont.value {
                AvpValueContainer::Constant(c) => {
                    item_value = c.clone_value();
                },
                AvpValueContainer::Variable(v) => {
                    item_value = v.get_value(cont.avp_type);
                },
            }
            let item = BuiltAvp {
                code: cont.code,
                vendor_id: cont.vendor_id,
                flags: cont.flags,
                value: item_value,
            };
            proof {
                assert(self.avps@ =~= avps0.update(i as int, self.avps@[i as int]));
            }
            out.push(item);
            i += 1;
        }
        let seq_num = self.seq_num;
        DiameterMessage {
            command_code: self.command_code,
            application_id: self.application_id,
            flags: self.flags,
            hop_by_hop: seq_num,
            end_to_end: seq_num,
            avps: out,
        }
    }
}

/// A count of matching elements never exceeds the length.
proof fn lemma_count_matches_le(s: Seq<Seq<char>>, x: Seq<char>)
    ensures
        count_matches(s, x) <= s.len(),
    decreases s.len(),
{
    if s.len() > 0 {
        lemma_count_matches_le(s.drop_last(), x);
    }
}

/// Converts a string to a typed attribute value the plain way. Inputs whose
/// conversion fails are excluded.
pub fn string_to_avp_value(s: &str, avp_type: AvpType) -> (r: AvpValue)
    requires
        simple_convert_spec(s@, avp_type) is Ok,
    ensures
        simple_convert_spec(s@, avp_type) == Ok::<AvpData, ConvertFault>(avp_data(r)),
{
    match convert_string_simple(s, avp_type) {
        Ok(v) => v,
        Err(_) => {
            proof {
                assert(false);
            }
            AvpValue::Unsigned32(0)
        },
    }
}

} // verus!
