//! The parts of the prompt.

pub mod dollar;
pub mod exitcode;
pub mod git;
pub mod workdir;

pub use crate::parts::dollar::dollar;
pub use crate::parts::exitcode::exit_code;
pub use crate::parts::git::git;
pub use crate::parts::workdir::work_dir;
