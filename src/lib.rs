//! Renders the lines of a text template, in which `{...}` placeholders stand
//! for environment variables, system facts, terminal styles and the output
//! of shell commands.

pub mod error;
pub mod facts;
pub mod resolve;
pub mod template;
pub mod text;

pub use error::RenderError;
pub use resolve::{env_value, parse_color_number, parse_var, replace_var, shell_output, Fact, Lookup};
pub use template::{assemble_line, parse_line, ScannedLine};
