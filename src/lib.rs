//! Scaffolding and navigation of projects laid out as one bare repository
//! beside one working tree per branch.
pub mod cli;
pub mod command;
pub mod error;
pub mod import;
pub mod navigate;
pub mod plan;
pub mod remote;
pub mod scaffold;

pub use cli::{Cli, SubCommand};
pub use error::ShakeError;
pub use import::clone;
pub use navigate::{checkout, nearest_root, project_root};
pub use plan::{Operation, Plan, Step};
pub use remote::project_name;
pub use scaffold::{init, new, Bootstrap};
