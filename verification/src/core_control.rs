use vstd::prelude::*;

use crate::event_bus::StateChange;
use crate::text::{trim, trim_str, views};

verus! {

/// The greeting of `name`.
pub fn greet(name: &str) -> (r: String)
    ensures
        r@ == "Hello, "@ + name@ + "! You've been greeted from Rust!"@,
{
    let mut r = "Hello, ".to_owned();
    r.append(name);
    r.append("! You've been greeted from Rust!");
    r
}

/// The file name of the core's executable: with `.exe` where executables carry an
/// extension.
pub fn core_binary_name(has_exe_extension: bool) -> (r: &'static str)
    ensures
        has_exe_extension ==> r@ == "sing-box.exe"@,
        !has_exe_extension ==> r@ == "sing-box"@,
{
    if has_exe_extension {
        "sing-box.exe"
    } else {
        "sing-box"
    }
}

/// Which executable runs the core.
#[derive(Debug, Clone, Copy, PartialEq, Eq, Structural)]
pub enum CoreBinary {
    /// The version the user switched to, kept in the app's data.
    Custom,
    /// The version bundled with the app.
    Sidecar,
}

/// The custom executable runs the core when there is one; else the bundled one.
pub fn choose_core_binary(custom_exists: bool) -> (r: CoreBinary)
    ensures
        r == (if custom_exists {
            CoreBinary::Custom
        } else {
            CoreBinary::Sidecar
        }),
{
    if custom_exists {
        CoreBinary::Custom
    } else {
        CoreBinary::Sidecar
    }
}

/// Whether a start may go on: an error when the core already runs, or when the
/// options give no configuration path; else that path.
pub fn start_check(already_running: bool, config_path: Option<String>) -> (r: Result<String, String>)
    ensures
        already_running ==> (r matches Err(e) && e@ == "SingBox core is already running"@),
        !already_running && config_path.is_none() ==> (r matches Err(e) && e@ == "Missing configPath"@),
        !already_running && config_path.is_some() ==> r == Ok::<String, String>(config_path.unwrap()),
{
    if already_running {
        return Err("SingBox core is already running".to_owned());
    }
    match config_path {
        Some(p) => Ok(p),
        None => Err("Missing configPath".to_owned()),
    }
}

/// The arguments that run the core with configuration `config_path`.
pub fn run_args(config_path: &str) -> (r: Vec<String>)
    ensures
        views(r@) == seq!["run"@, "-c"@, config_path@],
{
    let mut r: Vec<String> = Vec::new();
    r.push("run".to_owned());
    r.push("-c".to_owned());
    r.push(config_path.to_owned());
    assert(views(r@) =~= seq!["run"@, "-c"@, config_path@]);
    r
}

/// The arguments that check the configuration `config_path`.
pub fn check_args(config_path: &str) -> (r: Vec<String>)
    ensures
        views(r@) == seq!["check"@, "-c"@, config_path@],
{
    let mut r: Vec<String> = Vec::new();
    r.push("check".to_owned());
    r.push("-c".to_owned());
    r.push(config_path.to_owned());
    assert(views(r@) =~= seq!["check"@, "-c"@, config_path@]);
    r
}

/// The arguments that format the configuration `config_path` in place.
pub fn format_args(config_path: &str) -> (r: Vec<String>)
    ensures
        views(r@) == seq!["format"@, "-c"@, config_path@, "-w"@],
{
    let mut r: Vec<String> = Vec::new();
    r.push("format".to_owned());
    r.push("-c".to_owned());
    r.push(config_path.to_owned());
    r.push("-w".to_owned());
    assert(views(r@) =~= seq!["format"@, "-c"@, config_path@, "-w"@]);
    r
}

/// The outcome of starting the core with `binary`: the message of a start, or the
/// error of the spawn (named for a custom executable).
pub fn start_outcome(binary: CoreBinary, spawned: Result<(), String>) -> (r: Result<String, String>)
    ensures
        match (binary, spawned) {
            (CoreBinary::Custom, Ok(())) => r matches Ok(m) && m@ == "SingBox started (Custom)"@,
            (CoreBinary::Sidecar, Ok(())) => r matches Ok(m) && m@ == "SingBox started (Sidecar)"@,
            (CoreBinary::Custom, Err(e)) => r matches Err(m) && m@
                == "Failed to spawn custom binary: "@ + e@,
            (CoreBinary::Sidecar, Err(e)) => r == Err::<String, String>(e),
        },
{
    match (binary, spawned) {
        (CoreBinary::Custom, Ok(())) => Ok("SingBox started (Custom)".to_owned()),
        (CoreBinary::Sidecar, Ok(())) => Ok("SingBox started (Sidecar)".to_owned()),
        (CoreBinary::Custom, Err(e)) => {
            let mut m = "Failed to spawn custom binary: ".to_owned();
            m.append(e.as_str());
            Err(m)
        },
        (CoreBinary::Sidecar, Err(e)) => Err(e),
    }
}

/// The outcome of a stop: nothing to stop, or the result of killing the core.
pub fn stop_outcome(had_process: bool, killed: Result<(), String>) -> (r: Result<String, String>)
    ensures
        !had_process ==> (r matches Ok(m) && m@ == "SingBox was not running"@),
        had_process && killed.is_ok() ==> (r matches Ok(m) && m@ == "SingBox stopped"@),
        had_process && killed.is_err() ==> r == Err::<String, String>(killed->Err_0),
{
    if !had_process {
        return Ok("SingBox was not running".to_owned());
    }
    match killed {
        Ok(()) => Ok("SingBox stopped".to_owned()),
        Err(e) => Err(e),
    }
}

/// The outcome of checking a configuration: valid when the custom executable or,
/// failing that, the bundled one accepts it; else the bundled one's error output.
pub fn check_outcome(custom_accepts: bool, bundled: Result<(), String>) -> (r: Result<String, String>)
    ensures
        custom_accepts || bundled.is_ok() ==> (r matches Ok(m) && m@ == "Config is valid"@),
        !custom_accepts && bundled.is_err() ==> r == Err::<String, String>(bundled->Err_0),
{
    if custom_accepts {
        return Ok("Config is valid".to_owned());
    }
    match bundled {
        Ok(()) => Ok("Config is valid".to_owned()),
        Err(e) => Err(e),
    }
}


/// The change of state that a start's outcome makes: started at `now`, or failed
/// with the error.
pub fn state_after_start(outcome: &Result<String, String>, now: i64) -> (r: StateChange)
    ensures
        match outcome {
            Ok(_) => r == StateChange::Started(now),
            Err(e) => r == StateChange::StartFailed(*e),
        },
{
    match outcome {
        Ok(_) => StateChange::Started(now),
        Err(e) => StateChange::StartFailed(e.clone()),
    }
}

/// The report of a `version` run of the core: on success, the output trimmed; else
/// a failure with the error output trimmed.
pub fn version_report(success: bool, stdout: &str, stderr: &str) -> (r: (bool, String))
    ensures
        success ==> r.0 && r.1@ == trim(stdout@),
        !success ==> !r.0 && r.1@ == trim(stderr@),
{
    if success {
        (true, trim_str(stdout).to_owned())
    } else {
        (false, trim_str(stderr).to_owned())
    }
}

} // verus!
