pub mod ast;
pub mod environment;
pub mod error;
pub mod intrepreter;
pub mod token;
pub mod value;
