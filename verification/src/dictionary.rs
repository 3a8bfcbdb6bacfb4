use vstd::prelude::*;
use crate::avp::AvpType;
use diameter::avp::AvpType as DictAvpType;

verus! {

// ---------------------------------------------------------------------------
// The read-only dictionary: symbolic names resolved to numeric identifiers
// and declared attribute types. The diameter crate owns the dictionary and
// its XML loading; the library reads it through the items below.
// ---------------------------------------------------------------------------

#[verifier::external_type_specification]
#[verifier::external_body]
pub struct ExDictionary(diameter::dictionary::Dictionary);

#[verifier::external_type_specification]
#[verifier::external_body]
pub struct ExDictAvpType(DictAvpType);

/// An attribute definition, as the dictionary resolves a name.
pub struct AvpDefinition {
    pub name: String,
    pub code: u32,
    pub vendor_id: Option<u32>,
    pub avp_type: AvpType,
    pub m_flag: bool,
}

/// The content of an attribute definition.
pub struct AvpDefData {
    pub name: Seq<char>,
    pub code: u32,
    pub vendor_id: Option<u32>,
    pub avp_type: AvpType,
    pub m_flag: bool,
}

/// The content of an exec attribute definition.
pub open spec fn def_data(d: AvpDefinition) -> AvpDefData {
    AvpDefData {
        name: d.name@,
        code: d.code,
        vendor_id: d.vendor_id,
        avp_type: d.avp_type,
        m_flag: d.m_flag,
    }
}

/// What a dictionary's attribute table holds, by attribute name.
pub uninterp spec fn dict_avps(d: diameter::dictionary::Dictionary) -> Map<Seq<char>, AvpDefData>;

/// What a dictionary's command table holds, by command name.
pub uninterp spec fn dict_commands(d: diameter::dictionary::Dictionary) -> Map<Seq<char>, u32>;

/// What a dictionary's application table holds, by application name.
pub uninterp spec fn dict_applications(d: diameter::dictionary::Dictionary) -> Map<
    Seq<char>,
    u32,
>;

/// Relies on the diameter crate's `AvpType` variants: each is carried over to
/// the library's own type tag of the same name, one arm each.
#[verifier::external_body]
fn carry_avp_type(t: &DictAvpType) -> AvpType {
    match *t {
        DictAvpType::Unknown => AvpType::Unknown, DictAvpType::Address => AvpType::Address,
        DictAvpType::AddressIPv4 => AvpType::AddressIPv4, DictAvpType::AddressIPv6 => AvpType::AddressIPv6,
        DictAvpType::Identity => AvpType::Identity, DictAvpType::DiameterURI => AvpType::DiameterURI,
        DictAvpType::Enumerated => AvpType::Enumerated, DictAvpType::Float32 => AvpType::Float32,
        DictAvpType::Float64 => AvpType::Float64, DictAvpType::Grouped => AvpType::Grouped,
        DictAvpType::Integer32 => AvpType::Integer32, DictAvpType::Integer64 => AvpType::Integer64,
        DictAvpType::OctetString => AvpType::OctetString, DictAvpType::Time => AvpType::Time,
        DictAvpType::Unsigned32 => AvpType::Unsigned32, DictAvpType::Unsigned64 => AvpType::Unsigned64,
        DictAvpType::UTF8String => AvpType::UTF8String,
    }
}

/// Relies on diameter's `Dictionary::get_avp_by_name`: the definition the
/// dictionary holds under the given attribute name, or nothing.
#[verifier::external_body]
pub fn dict_get_avp_by_name(d: &diameter::dictionary::Dictionary, name: &str) -> (r: Option<
    AvpDefinition,
>)
    ensures
        match r {
            Some(def) => dict_avps(*d).contains_key(name@) && def_data(def) == dict_avps(*d)[name@],
            None => !dict_avps(*d).contains_key(name@),
        },
{
    d.get_avp_by_name(name).map(
        |def| AvpDefinition {
            name: def.name.clone(),
            code: def.code,
            vendor_id: def.vendor_id,
            avp_type: carry_avp_type(&def.avp_type),
            m_flag: def.m_flag,
        },
    )
}

/// Relies on diameter's `Dictionary::get_command_code_by_name`: the numeric
/// command code the dictionary holds under the given name, or nothing.
#[verifier::external_body]
pub fn dict_get_command_code(d: &diameter::dictionary::Dictionary, name: &str) -> (r: Option<u32>)
    ensures
        match r {
            Some(c) => dict_commands(*d).contains_key(name@) && c == dict_commands(*d)[name@],
            None => !dict_commands(*d).contains_key(name@),
        },
{
    d.get_command_code_by_name(name).map(|c| c as u32)
}

/// Relies on diameter's `Dictionary::get_application_id_by_name`: the numeric
/// application id the dictionary holds under the given name, or nothing.
#[verifier::external_body]
pub fn dict_get_application_id(d: &diameter::dictionary::Dictionary, name: &str) -> (r: Option<
    u32,
>)
    ensures
        match r {
            Some(a) => dict_applications(*d).contains_key(name@) && a == dict_applications(*d)[name@],
            None => !dict_applications(*d).contains_key(name@),
        },
{
    d.get_application_id_by_name(name).map(|a| a as u32)
}

} // verus!
