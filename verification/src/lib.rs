pub mod avp;
pub mod dictionary;
pub mod errors;
pub mod generator;
pub mod global;
pub mod message_generator;
pub mod net;
pub mod options;
pub mod runner;
pub mod scenario;
pub mod template;
pub mod text;
