use vstd::prelude::*;
use vstd::string::*;
use vstd::utf8::encode_utf8;
use crate::errors::ConvertFault;
use crate::net::{ipv4_spec, ipv6_spec, parse_ipv4_chars, parse_ipv6_chars};
use crate::text::{
    parse_i32_chars,
    parse_i32_spec,
    parse_u32_chars,
    parse_u32_spec,
    parse_u64_chars,
    parse_u64_spec,
    str_to_chars,
};

verus! {

// ---------------------------------------------------------------------------
// Typed attribute values: what a template ultimately produces and what the
// message builder appends.
// ---------------------------------------------------------------------------

/// The declared type of an attribute, as the dictionary gives it.
#[derive(Clone, Copy, PartialEq, Eq, Structural, Debug)]
pub enum AvpType {
    Unknown,
    Address,
    AddressIPv4,
    AddressIPv6,
    Identity,
    DiameterURI,
    Enumerated,
    Float32,
    Float64,
    Grouped,
    Integer32,
    Integer64,
    OctetString,
    Time,
    Unsigned32,
    Unsigned64,
    UTF8String,
}

/// An address value: routed to a concrete family, or carried as raw bytes.
#[derive(Debug)]
pub enum AddressForm {
    V4((u8, u8, u8, u8)),
    V6(Vec<u16>),
    Raw(Vec<u8>),
}

/// A typed attribute value.
#[derive(Debug)]
pub enum AvpValue {
    Address(AddressForm),
    AddressIPv4((u8, u8, u8, u8)),
    AddressIPv6(Vec<u16>),
    Identity(String),
    UTF8String(String),
    OctetString(Vec<u8>),
    Enumerated(i32),
    Unsigned32(u32),
    Unsigned64(u64),
    Time(u32),
    Grouped(Vec<BuiltAvp>),
}

/// One fully built attribute: code, vendor, flags and its typed value.
#[derive(Debug)]
pub struct BuiltAvp {
    pub code: u32,
    pub vendor_id: Option<u32>,
    pub flags: u8,
    pub value: AvpValue,
}

/// The mathematical content of a typed attribute value.
pub enum AvpData {
    Address4((u8, u8, u8, u8)),
    Address6(Seq<u16>),
    AddressRaw(Seq<u8>),
    Ipv4((u8, u8, u8, u8)),
    Ipv6(Seq<u16>),
    Identity(Seq<char>),
    Utf8(Seq<char>),
    Octets(Seq<u8>),
    Enumerated(i32),
    Unsigned32(u32),
    Unsigned64(u64),
    Time(u32),
    Grouped(Seq<AvpItem>),
}

/// The mathematical content of one built attribute.
pub struct AvpItem {
    pub code: u32,
    pub vendor_id: Option<u32>,
    pub flags: u8,
    pub value: AvpData,
}

/// The content of a typed attribute value.
pub open spec fn avp_data(v: AvpValue) -> AvpData
    decreases v,
{
    match v {
        AvpValue::Address(f) => match f {
            AddressForm::V4(o) => AvpData::Address4(o),
            AddressForm::V6(g) => AvpData::Address6(g@),
            AddressForm::Raw(b) => AvpData::AddressRaw(b@),
        },
        AvpValue::AddressIPv4(o) => AvpData::Ipv4(o),
        AvpValue::AddressIPv6(g) => AvpData::Ipv6(g@),
        AvpValue::Identity(s) => AvpData::Identity(s@),
        AvpValue::UTF8String(s) => AvpData::Utf8(s@),
        AvpValue::OctetString(b) => AvpData::Octets(b@),
        AvpValue::Enumerated(n) => AvpData::Enumerated(n),
        AvpValue::Unsigned32(n) => AvpData::Unsigned32(n),
        AvpValue::Unsigned64(n) => AvpData::Unsigned64(n),
        AvpValue::Time(n) => AvpData::Time(n),
        AvpValue::Grouped(items) => AvpData::Grouped(items_data(items@)),
    }
}

/// The content of a list of built attributes, in order.
pub open spec fn items_data(s: Seq<BuiltAvp>) -> Seq<AvpItem>
    decreases s,
{
    if s.len() == 0 {
        Seq::empty()
    } else {
        items_data(s.drop_last()).push(item_of(s.last()))
    }
}

/// The content of one built attribute.
pub open spec fn item_of(b: BuiltAvp) -> AvpItem
    decreases b,
{
    AvpItem { code: b.code, vendor_id: b.vendor_id, flags: b.flags, value: avp_data(b.value) }
}

fn copy_u8s(v: &Vec<u8>) -> (r: Vec<u8>)
    ensures
        r@ == v@,
{
    let mut out: Vec<u8> = Vec::new();
    let mut i: usize = 0;
    while i < v.len()
        invariant
            i <= v@.len(),
            out@ == v@.subrange(0, i as int),
        decreases v@.len() - i,
    {
        out.push(v[i]);
        assert(out@ =~= v@.subrange(0, i as int + 1));
        i += 1;
    }
    assert(out@ =~= v@);
    out
}

fn copy_u16s(v: &Vec<u16>) -> (r: Vec<u16>)
    ensures
        r@ == v@,
{
    let mut out: Vec<u16> = Vec::new();
    let mut i: usize = 0;
    while i < v.len()
        invariant
            i <= v@.len(),
            out@ == v@.subrange(0, i as int),
        decreases v@.len() - i,
    {
        out.push(v[i]);
        assert(out@ =~= v@.subrange(0, i as int + 1));
        i += 1;
    }
    assert(out@ =~= v@);
    out
}

impl AvpValue {
    /// A copy with the same content as `self`, grouped members included.
    pub fn clone_value(&self) -> (r: AvpValue)
        ensures
            avp_data(r) == avp_data(*self),
        decreases *self,
    {
        match self {
            AvpValue::Address(f) => AvpValue::Address(
                match f {
                    AddressForm::V4(o) => AddressForm::V4(*o),
                    AddressForm::V6(g) => AddressForm::V6(copy_u16s(g)),
                    AddressForm::Raw(b) => AddressForm::Raw(copy_u8s(b)),
                },
            ),
            AvpValue::AddressIPv4(o) => AvpValue::AddressIPv4(*o),
            AvpValue::AddressIPv6(g) => AvpValue::AddressIPv6(copy_u16s(g)),
            AvpValue::Identity(s) => AvpValue::Identity(s.clone()),
            AvpValue::UTF8String(s) => AvpValue::UTF8String(s.clone()),
            AvpValue::OctetString(b) => AvpValue::OctetString(copy_u8s(b)),
            AvpValue::Enumerated(n) => AvpValue::Enumerated(*n),
            AvpValue::Unsigned32(n) => AvpValue::Unsigned32(*n),
            AvpValue::Unsigned64(n) => AvpValue::Unsigned64(*n),
            AvpValue::Time(n) => AvpValue::Time(*n),
            AvpValue::Grouped(items) => {
                let mut out: Vec<BuiltAvp> = Vec::new();
                let mut i: usize = 0;
                while i < items.len()
                    invariant
                        i <= items@.len(),
                        items_data(out@) == items_data(items@.subrange(0, i as int)),
                        decreases_to!(*self => *items),
                    decreases items@.len() - i,
                {
                    proof {
                        assert(decreases_to!(*items => items@[i as int]));
                        assert(decreases_to!(items@[i as int] => items@[i as int].value));
                    }
                    let item = &items[i];
                    let v2 = item.value.clone_value();
                    let ghost out0 = out@;
                    out.push(
                        BuiltAvp {
                            code: item.code,
                            vendor_id: item.vendor_id,
                            flags: item.flags,
                            value: v2,
                        },
                    );
                    proof {
                        let pre = items@.subrange(0, i as int);
                        let cur = items@.subrange(0, i as int + 1);
                        assert(cur.drop_last() =~= pre);
                        assert(cur.last() == items@[i as int]);
                        assert(out@.drop_last() =~= out0);
                        assert(item_of(out@.last()) == item_of(items@[i as int]));
                        assert(items_data(out@) == items_data(cur));
                    }
                    i += 1;
                }
                assert(items@.subrange(0, i as int) =~= items@);
                AvpValue::Grouped(out)
            },
        }
    }
}

// ---------------------------------------------------------------------------
// String-to-typed-value conversion, dictionary-typed form: integers parsed
// exactly, addresses routed by family, parse failures reported.
// ---------------------------------------------------------------------------

/// What converting a string to the target type yields.
pub open spec fn convert_spec(s: Seq<char>, t: AvpType) -> Result<AvpData, ConvertFault> {
    match t {
        AvpType::Address => match ipv4_spec(s) {
            Some(o) => Ok(AvpData::Address4(o)),
            None => match ipv6_spec(s) {
                Some(g) => Ok(AvpData::Address6(g)),
                None => Err(ConvertFault::BadAddress),
            },
        },
        AvpType::AddressIPv4 => match ipv4_spec(s) {
            Some(o) => Ok(AvpData::Ipv4(o)),
            None => Err(ConvertFault::BadIpv4),
        },
        AvpType::AddressIPv6 => match ipv6_spec(s) {
            Some(g) => Ok(AvpData::Ipv6(g)),
            None => Err(ConvertFault::BadIpv6),
        },
        AvpType::Identity => Ok(AvpData::Identity(s)),
        AvpType::DiameterURI => Ok(AvpData::Utf8(s)),
        AvpType::UTF8String => Ok(AvpData::Utf8(s)),
        AvpType::OctetString => Ok(AvpData::Octets(encode_utf8(s))),
        AvpType::Enumerated => match parse_i32_spec(s) {
            Some(n) => Ok(AvpData::Enumerated(n)),
            None => Err(ConvertFault::BadInteger),
        },
        AvpType::Float32 => match parse_u32_spec(s) {
            Some(n) => Ok(AvpData::Unsigned32(n)),
            None => Err(ConvertFault::BadInteger),
        },
        AvpType::Integer32 => match parse_u32_spec(s) {
            Some(n) => Ok(AvpData::Unsigned32(n)),
            None => Err(ConvertFault::BadInteger),
        },
        AvpType::Unsigned32 => match parse_u32_spec(s) {
            Some(n) => Ok(AvpData::Unsigned32(n)),
            None => Err(ConvertFault::BadInteger),
        },
        AvpType::Time => match parse_u32_spec(s) {
            Some(n) => Ok(AvpData::Time(n)),
            None => Err(ConvertFault::BadInteger),
        },
        AvpType::Float64 => match parse_u64_spec(s) {
            Some(n) => Ok(AvpData::Unsigned64(n)),
            None => Err(ConvertFault::BadInteger),
        },
        AvpType::Integer64 => match parse_u64_spec(s) {
            Some(n) => Ok(AvpData::Unsigned64(n)),
            None => Err(ConvertFault::BadInteger),
        },
        AvpType::Unsigned64 => match parse_u64_spec(s) {
            Some(n) => Ok(AvpData::Unsigned64(n)),
            None => Err(ConvertFault::BadInteger),
        },
        AvpType::Grouped => Err(ConvertFault::GroupedScalar),
        AvpType::Unknown => Err(ConvertFault::UnknownType),
    }
}

/// Converts a materialized string to the target type.
pub fn convert_string(s: &str, t: AvpType) -> (r: Result<AvpValue, ConvertFault>)
    ensures
        match r {
            Ok(v) => convert_spec(s@, t) == Ok::<AvpData, ConvertFault>(avp_data(v)),
            Err(e) => convert_spec(s@, t) == Err::<AvpData, ConvertFault>(e),
        },
{
    match t {
        AvpType::Address => {
            let chars = str_to_chars(s);
            match parse_ipv4_chars(&chars) {
                Some(o) => Ok(AvpValue::Address(AddressForm::V4(o))),
                None => match parse_ipv6_chars(&chars) {
                    Some(g) => Ok(AvpValue::Address(AddressForm::V6(g))),
                    None => Err(ConvertFault::BadAddress),
                },
            }
        },
        AvpType::AddressIPv4 => {
            let chars = str_to_chars(s);
            match parse_ipv4_chars(&chars) {
                Some(o) => Ok(AvpValue::AddressIPv4(o)),
                None => Err(ConvertFault::BadIpv4),
            }
        },
        AvpType::AddressIPv6 => {
            let chars = str_to_chars(s);
            match parse_ipv6_chars(&chars) {
                Some(g) => Ok(AvpValue::AddressIPv6(g)),
                None => Err(ConvertFault::BadIpv6),
            }
        },
        AvpType::Identity => Ok(AvpValue::Identity(s.to_owned())),
        AvpType::DiameterURI => Ok(AvpValue::UTF8String(s.to_owned())),
        AvpType::UTF8String => Ok(AvpValue::UTF8String(s.to_owned())),
        AvpType::OctetString => Ok(AvpValue::OctetString(s.as_bytes_vec())),
        AvpType::Enumerated => {
            let chars = str_to_chars(s);
            match parse_i32_chars(&chars) {
                Some(n) => Ok(AvpValue::Enumerated(n)),
                None => Err(ConvertFault::BadInteger),
            }
        },
        AvpType::Float32 | AvpType::Integer32 | AvpType::Unsigned32 => {
            let chars = str_to_chars(s);
            match parse_u32_chars(&chars) {
                Some(n) => Ok(AvpValue::Unsigned32(n)),
                None => Err(ConvertFault::BadInteger),
            }
        },
        AvpType::Time => {
            let chars = str_to_chars(s);
            match parse_u32_chars(&chars) {
                Some(n) => Ok(AvpValue::Time(n)),
                None => Err(ConvertFault::BadInteger),
            }
        },
        AvpType::Float64 | AvpType::Integer64 | AvpType::Unsigned64 => {
            let chars = str_to_chars(s);
            match parse_u64_chars(&chars) {
                Some(n) => Ok(AvpValue::Unsigned64(n)),
                None => Err(ConvertFault::BadInteger),
            }
        },
        AvpType::Grouped => Err(ConvertFault::GroupedScalar),
        AvpType::Unknown => Err(ConvertFault::UnknownType),
    }
}

// ---------------------------------------------------------------------------
// The earlier, plainer conversion: addresses carried as the string's raw
// bytes, every 32-bit numeric type parsed as an unsigned number.
// ---------------------------------------------------------------------------

/// What the plain conversion yields.
pub open spec fn simple_convert_spec(s: Seq<char>, t: AvpType) -> Result<AvpData, ConvertFault> {
    match t {
        AvpType::Address | AvpType::AddressIPv4 | AvpType::AddressIPv6 => Ok(
            AvpData::AddressRaw(encode_utf8(s)),
        ),
        AvpType::Identity => Ok(AvpData::Identity(s)),
        AvpType::DiameterURI => Ok(AvpData::Utf8(s)),
        AvpType::UTF8String => Ok(AvpData::Utf8(s)),
        AvpType::OctetString => Ok(AvpData::Octets(encode_utf8(s))),
        AvpType::Enumerated => match parse_i32_spec(s) {
            Some(n) => Ok(AvpData::Enumerated(n)),
            None => Err(ConvertFault::BadInteger),
        },
        AvpType::Float32 | AvpType::Integer32 | AvpType::Unsigned32 | AvpType::Time => match
            parse_u32_spec(s) {
            Some(n) => Ok(AvpData::Unsigned32(n)),
            None => Err(ConvertFault::BadInteger),
        },
        AvpType::Float64 | AvpType::Integer64 | AvpType::Unsigned64 => match parse_u64_spec(s) {
            Some(n) => Ok(AvpData::Unsigned64(n)),
            None => Err(ConvertFault::BadInteger),
        },
        AvpType::Grouped => Err(ConvertFault::GroupedScalar),
        AvpType::Unknown => Err(ConvertFault::UnknownType),
    }
}

/// Converts a string to the target type the plain way.
pub fn convert_string_simple(s: &str, t: AvpType) -> (r: Result<AvpValue, ConvertFault>)
    ensures
        match r {
            Ok(v) => simple_convert_spec(s@, t) == Ok::<AvpData, ConvertFault>(avp_data(v)),
            Err(e) => simple_convert_spec(s@, t) == Err::<AvpData, ConvertFault>(e),
        },
{
    match t {
        AvpType::Address | AvpType::AddressIPv4 | AvpType::AddressIPv6 => Ok(
            AvpValue::Address(AddressForm::Raw(s.as_bytes_vec())),
        ),
        AvpType::Identity => Ok(AvpValue::Identity(s.to_owned())),
        AvpType::DiameterURI => Ok(AvpValue::UTF8String(s.to_owned())),
        AvpType::UTF8String => Ok(AvpValue::UTF8String(s.to_owned())),
        AvpType::OctetString => Ok(AvpValue::OctetString(s.as_bytes_vec())),
        AvpType::Enumerated => {
            let chars = str_to_chars(s);
            match parse_i32_chars(&chars) {
                Some(n) => Ok(AvpValue::Enumerated(n)),
                None => Err(ConvertFault::BadInteger),
            }
        },
        AvpType::Float32 | AvpType::Integer32 | AvpType::Unsigned32 | AvpType::Time => {
            let chars = str_to_chars(s);
            match parse_u32_chars(&chars) {
                Some(n) => Ok(AvpValue::Unsigned32(n)),
                None => Err(ConvertFault::BadInteger),
            }
        },
        AvpType::Float64 | AvpType::Integer64 | AvpType::Unsigned64 => {
            let chars = str_to_chars(s);
            match parse_u64_chars(&chars) {
                Some(n) => Ok(AvpValue::Unsigned64(n)),
                None => Err(ConvertFault::BadInteger),
            }
        },
        AvpType::Grouped => Err(ConvertFault::GroupedScalar),
        AvpType::Unknown => Err(ConvertFault::UnknownType),
    }
}

} // verus!
