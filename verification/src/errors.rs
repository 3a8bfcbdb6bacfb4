use vstd::prelude::*;

verus! {

/// Why a value template could not be built.
#[derive(Debug)]
pub enum ValueError {
    /// A `${...}` reference to a variable the registry does not hold.
    UnknownVariable { name: String },
    /// A nested attribute list for a scalar type, or a scalar value for the
    /// grouped type.
    TypeMismatch,
    /// A constant (or a nested grouped member) that does not convert to its
    /// target type.
    BadConstant { reason: ConvertFault },
    /// A nested attribute name the dictionary does not hold.
    UnknownAvp { name: String },
}

/// A malformed or semantically invalid configuration: a variable entry with a
/// bad range, a duplicated name, an unsupported generator kind, or a name
/// that the dictionary or the registry does not know.
#[derive(Debug)]
pub enum ConfigError {
    /// Two registry entries share this name.
    DuplicateVariable { name: String },
    /// An incremental counter with `min > max`, `step <= 0`, or a `max` within
    /// `step` of the integer range limit; or a random draw with `min > max`.
    InvalidRange { name: String },
    /// A generator kind the registry does not implement.
    UnsupportedKind { name: String },
    /// An attribute name the dictionary does not hold.
    UnknownAvp { name: String },
    /// A command name the dictionary does not hold.
    UnknownCommand { name: String },
    /// An application name the dictionary does not hold.
    UnknownApplication { name: String },
    /// An attribute whose value template could not be built.
    BadAvpValue { name: String, error: ValueError },
}

/// Why a materialized string could not be converted to its target type.
#[derive(Clone, Copy, PartialEq, Eq, Structural, Debug)]
pub enum ConvertFault {
    /// The string is not a decimal number of the required width.
    BadInteger,
    /// The string is not an IPv4 or IPv6 literal.
    BadAddress,
    /// The string is not an IPv4 literal.
    BadIpv4,
    /// The string is not an IPv6 literal.
    BadIpv6,
    /// A scalar string was handed to the grouped type.
    GroupedScalar,
    /// The unknown type converts nothing.
    UnknownType,
}

/// A template materialization produced a string that cannot be parsed to the
/// target attribute type.
#[derive(Debug)]
pub struct ValueParseError {
    pub avp_name: String,
    pub reason: ConvertFault,
}

} // verus!
