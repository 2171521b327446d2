//! The rules of the first-party tools.

pub mod artifacts;
pub mod call_laws;
pub mod commit;
pub mod commit_laws;
pub mod cow;
pub mod declaration_laws;
pub mod descriptor;
pub mod edits;
pub mod environment;
pub mod extensions;
pub mod foreground;
pub mod fs;
pub mod fs_laws;
pub mod guards;
pub mod launch;
pub mod launch_laws;
pub mod matrix;
pub mod matrix_delivery;
pub mod patch;
pub mod patch_error;
pub mod patch_laws;
pub mod patch_plan;
pub mod path_order;
pub mod permissions;
pub mod process;
pub mod process_laws;
pub mod repo;
pub mod repo_path;
pub mod shell;
pub mod shell_launch;
pub mod state_laws;
pub mod store;
pub mod terminal;
