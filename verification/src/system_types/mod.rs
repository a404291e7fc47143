//! Names that the operating system knows, each with the rules that it must
//! obey.

pub mod group_name;
pub mod user_name;
