use vstd::prelude::*;

verus! {

// ---------------------------------------------------------------------------
// The already-parsed, validated campaign configuration the scheduler receives.
// Loading it from the embedded scripting language happens outside the library.
// ---------------------------------------------------------------------------

#[derive(Clone, Copy, PartialEq, Eq, Structural, Debug)]
pub enum Protocol {
    Diameter,
    HTTP2,
}

#[derive(Clone, Copy, PartialEq, Eq, Structural, Debug)]
pub enum ScenarioType {
    Init,
    Repeating,
}

/// The kind of a named, stateful value generator.
#[derive(Clone, Copy, PartialEq, Eq, Structural, Debug)]
pub enum Function {
    IncrementalCounter,
    RandomNumber,
    CustomScript,
}

/// Configuration of one value generator.
#[derive(Clone, Copy, PartialEq, Eq, Structural, Debug)]
pub struct Variable {
    pub func: Function,
    pub min: i32,
    pub max: i32,
    pub step: i32,
}

/// The registry bootstrap: a list of name-to-generator maps.
pub struct Global {
    pub variables: Vec<Vec<(String, Variable)>>,
}

/// One configured attribute: a dictionary name and a value template source.
pub struct Avp {
    pub name: String,
    pub value: Value,
}

/// A configured attribute value: a scalar template string, or a nested
/// attribute list for grouped attributes.
pub enum Value {
    String(String),
    Avp(Vec<Avp>),
}

/// One request template: command and application names and the attribute list.
pub struct Message {
    pub command: String,
    pub application: String,
    pub avps: Vec<Avp>,
}

/// One scenario: a name, whether it runs once or repeats, and its message.
pub struct Scenario {
    pub name: String,
    pub scenario_type: ScenarioType,
    pub message: Message,
}

/// The campaign configuration. Durations are in milliseconds.
pub struct Options {
    pub parallel: u32,
    pub call_rate: u32,
    pub call_timeout: u64,
    pub duration: u64,
    pub log_requests: bool,
    pub log_responses: bool,
    pub globals: Global,
    pub protocol: Protocol,
    pub dictionaries: Vec<String>,
    pub scenarios: Vec<Scenario>,
}

} // verus!
