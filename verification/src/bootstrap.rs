//! Starting the server from the extension when its pipe is missing: which executable
//! to run, with which arguments, and whether this attempt should run it at all.
use vstd::prelude::*;
use crate::text::owned;

verus! {

/// The executable's file name beside Textractor.
pub open spec fn server_exe_name() -> Seq<char> {
    "textractor_bridge_server.exe"@
}

/// Where the server executable is looked for.
#[derive(Debug, Clone, PartialEq, Eq)]
pub enum ServerExe {
    /// The path as given; a bare name is looked up on `PATH`.
    AsGiven(String),
    /// The path relative to Textractor's directory.
    InTextractorDir(String),
}

/// The executable to start: an override (from the environment) as given where it is
/// absolute or Textractor's directory is unknown, else under Textractor's directory.
/// Without an override, the default name under Textractor's directory where that file
/// exists (`beside_textractor`), else the bare name, which is looked up on `PATH`.
pub fn server_exe(
    override_path: Option<String>,
    override_is_absolute: bool,
    textractor_dir_known: bool,
    beside_textractor: bool,
) -> (r: ServerExe)
    ensures
        match override_path {
            Some(p) => if override_is_absolute || !textractor_dir_known {
                r == ServerExe::AsGiven(p)
            } else {
                r == ServerExe::InTextractorDir(p)
            },
            None => if textractor_dir_known && beside_textractor {
                r matches ServerExe::InTextractorDir(n) && n@ == server_exe_name()
            } else {
                r matches ServerExe::AsGiven(n) && n@ == server_exe_name()
            },
        },
{
    match override_path {
        Some(p) => {
            if override_is_absolute || !textractor_dir_known {
                ServerExe::AsGiven(p)
            } else {
                ServerExe::InTextractorDir(p)
            }
        },
        None => {
            if textractor_dir_known && beside_textractor {
                ServerExe::InTextractorDir(owned("textractor_bridge_server.exe"))
            } else {
                ServerExe::AsGiven(owned("textractor_bridge_server.exe"))
            }
        },
    }
}

/// The arguments the server is started with: its configuration file, where one exists.
pub fn server_args(config_path: Option<String>) -> (r: Vec<String>)
    ensures
        match config_path {
            Some(c) => r@.len() == 2 && r@[0]@ == "--config"@ && r@[1] == c,
            None => r@.len() == 0,
        },
{
    let mut r: Vec<String> = Vec::new();
    match config_path {
        Some(c) => {
            r.push(owned("--config"));
            r.push(c);
        },
        None => {},
    }
    r
}

/// What asking for the system-wide bootstrap mutex gave.
#[derive(Debug, Clone, Copy, PartialEq, Eq, Structural)]
pub enum BootstrapMutex {
    Failed,
    AlreadyExists,
    Created,
}

/// Whether this attempt starts the server: only the one that created the mutex does.
pub fn should_spawn_server(mutex: BootstrapMutex) -> (r: bool)
    ensures
        r == (mutex == BootstrapMutex::Created),
{
    mutex == BootstrapMutex::Created
}

} // verus!
