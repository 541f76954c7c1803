//! Long-term memory for coding agents: the rules of the system as verified
//! code.

pub mod active_project;
pub mod active_project_course;
pub mod active_project_laws;
pub mod bootstrap;
pub mod bootstrap_laws;
pub mod bootstrap_run;
pub mod clock;
pub mod consolidator;
pub mod consolidator_laws;
pub mod git;
pub mod git_laws;
pub mod hook;
pub mod hook_laws;
pub mod host;
pub mod ids;
pub mod install_hooks;
pub mod install_hooks_laws;
pub mod json;
pub mod lock;
pub mod page;
pub mod paths;
pub mod paths_laws;
pub mod prompt_laws;
pub mod serve;
pub mod serve_laws;
pub mod settings_laws;
pub mod shared;
pub mod stopwatch;
pub mod text;
pub mod text_laws;
pub mod watcher;
pub mod watcher_laws;
