pub mod command;
pub mod dispatch;
pub mod laws;
pub mod number;
pub mod parse;
pub mod search;
pub mod token;

pub use command::{Command, ParseError};
pub use dispatch::{run_command, Action};
pub use parse::{parse_echo, parse_input};
pub use search::{get_bin_path, Entry, SearchDir};
pub use token::parse_args;
