//! What holds of the library as a whole.

pub mod addresses;
pub mod attribution;
pub mod command_line;
pub mod layout;
pub mod messages;
pub mod numbers;
pub mod records;
pub mod runs;
pub mod script;
pub mod texts;
