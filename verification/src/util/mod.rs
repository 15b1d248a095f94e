pub mod parser;
pub mod tags;
pub mod clock;
pub mod decimal;
