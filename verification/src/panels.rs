//! What the panels decide: the requests they hand to the application, the
//! controls they offer, and what their buttons do to the settings.
use vstd::prelude::*;
use crate::engine::ServerState;
use crate::platform::Platform;
use crate::settings::{is_rpc_binary_name, is_server_binary_name, server_binary_name};
use crate::text::{
    chars_of, contains, join, join_exec, lines, lines_exec, names_of, str_contains, string_from,
    string_of, trim, trim_vec, views,
};

verus! {

/// The icons of the side bar.
#[derive(Debug, Clone, Copy, PartialEq, Eq, Structural)]
pub enum NavIcon {
    Server,
    Rpc,
    Model,
    Params,
    Mcp,
    Log,
    RpcLog,
    Commands,
    Presets,
    Settings,
}

/// What the presets panel asks the application to do (the panel only asks).
#[derive(Debug, Clone, Copy, PartialEq, Eq, Structural)]
pub enum PresetPanelRequest {
    /// Nothing.
    NoAction,
    /// Apply the preset and start llama-server.
    StartServer,
    /// Apply the preset and start the local ggml RPC server.
    StartRpc,
    /// Open the configuration window for the preset at this index.
    OpenConfig(usize),
}

/// The request after a frame of the presets panel: starting the server wins
/// over starting the RPC server; no click asks for nothing.
pub fn panel_request(start_server: bool, start_rpc: bool) -> (res: PresetPanelRequest)
    ensures
        res == if start_server {
            PresetPanelRequest::StartServer
        } else if start_rpc {
            PresetPanelRequest::StartRpc
        } else {
            PresetPanelRequest::NoAction
        },
{
    if start_server {
        PresetPanelRequest::StartServer
    } else if start_rpc {
        PresetPanelRequest::StartRpc
    } else {
        PresetPanelRequest::NoAction
    }
}

/// What the controls of a server process offer.
#[derive(Debug, Clone, Copy, PartialEq, Eq, Structural)]
pub enum ServerControl {
    /// A start button, enabled or greyed out.
    Start(bool),
    /// A stop button.
    Stop,
    /// A note that the process is starting or stopping.
    Busy,
}

/// The control for a state, with `can_start` deciding whether start is enabled.
pub open spec fn control_for(state: ServerState, can_start: bool) -> ServerControl {
    match state {
        ServerState::Idle | ServerState::Error(_) => ServerControl::Start(can_start),
        ServerState::Running => ServerControl::Stop,
        ServerState::Starting | ServerState::Stopping => ServerControl::Busy,
    }
}

fn control(state: &ServerState, can_start: bool) -> (res: ServerControl)
    ensures
        res == control_for(*state, can_start),
{
    match state {
        ServerState::Idle | ServerState::Error(_) => ServerControl::Start(can_start),
        ServerState::Running => ServerControl::Stop,
        ServerState::Starting | ServerState::Stopping => ServerControl::Busy,
    }
}

/// The llama-server control: start is enabled when the configured server
/// file is named as the platform's llama-server and a model is chosen.
pub fn server_control(
    state: &ServerState,
    server_file_name: Option<&str>,
    model_chosen: bool,
    platform: Platform,
) -> (res: ServerControl)
    ensures
        res == control_for(
            *state,
            model_chosen && match server_file_name {
                Some(n) => n@ == server_binary_name(platform),
                None => false,
            },
        ),
{
    let named = match server_file_name {
        Some(n) => is_server_binary_name(n, platform),
        None => false,
    };
    control(state, named && model_chosen)
}

/// The RPC server control: start is enabled when the configured file is named
/// as one of the platform's RPC server programs.
pub fn rpc_control(
    state: &ServerState,
    rpc_file_name: Option<&str>,
    platform: Platform,
) -> (res: ServerControl)
    ensures
        res == control_for(
            *state,
            match rpc_file_name {
                Some(n) => if platform.spec_is_windows() {
                    n@ == "ggml-rpc-server.exe"@ || n@ == "rpc-server.exe"@
                } else {
                    n@ == "ggml-rpc-server"@ || n@ == "rpc-server"@
                },
                None => false,
            },
        ),
{
    let named = match rpc_file_name {
        Some(n) => is_rpc_binary_name(n, platform),
        None => false,
    };
    control(state, named)
}

/// The index of the first name equal to `name`.
pub open spec fn first_named(names: Seq<Seq<char>>, name: Seq<char>) -> Option<int> {
    if exists|i: int| 0 <= i < names.len() && names[i] == name {
        Some(
            choose|i: int|
                0 <= i < names.len() && names[i] == name && forall|j: int|
                    0 <= j < i ==> names[j] != name,
        )
    } else {
        None
    }
}

fn find_named(names: &[String], name: &String) -> (res: Option<usize>)
    ensures
        match res {
            Some(i) => first_named(names_of(names@), name@) == Some(i as int),
            None => first_named(names_of(names@), name@) is None,
        },
{
    let ghost nv = names_of(names@);
    let mut i: usize = 0;
    while i < names.len()
        invariant
            i <= names@.len(),
            nv == names_of(names@),
            forall|j: int| 0 <= j < i ==> nv[j] != name@,
        decreases names@.len() - i,
    {
        if names[i] == *name {
            proof {
                assert(nv[i as int] == name@);
            }
            return Some(i);
        }
        i = i + 1;
    }
    None
}

/// At start: the stored preset to apply, the first one named as the
/// auto-start preset, and whether llama-server starts on the first frame,
/// which it does whenever an auto-start preset is named, found or not.
pub fn startup_preset(
    auto_start: Option<&str>,
    preset_names: &[String],
) -> (res: (Option<usize>, bool))
    ensures
        res.1 == auto_start is Some,
        match auto_start {
            None => res.0 is None,
            Some(n) => match res.0 {
                Some(i) => first_named(names_of(preset_names@), n@) == Some(i as int),
                None => first_named(names_of(preset_names@), n@) is None,
            },
        },
{
    match auto_start {
        None => (None, false),
        Some(n) => (find_named(preset_names, &string_from(n)), true),
    }
}

/// Where "save preset" puts the current settings.
#[derive(Debug, Clone, Copy, PartialEq, Eq, Structural)]
pub enum PresetSave {
    /// Nothing: the name is blank.
    Ignore,
    /// Over the stored preset at this index, which has the name.
    Replace(usize),
    /// As a new preset at the end.
    Append,
}

/// Saving the settings as a preset named `new_name`: the name without white
/// space around it; nothing when that is empty; over the first preset of
/// that name; else as a new preset.
pub fn preset_save_target(new_name: &str, preset_names: &[String]) -> (res: (PresetSave, String))
    ensures
        res.1@ == trim(new_name@),
        trim(new_name@).len() == 0 ==> res.0 == PresetSave::Ignore,
        trim(new_name@).len() > 0 ==> match first_named(names_of(preset_names@), trim(new_name@)) {
            Some(i) => res.0 == PresetSave::Replace(i as usize),
            None => res.0 == PresetSave::Append,
        },
{
    let cs = chars_of(new_name);
    let t = trim_vec(cs.as_slice());
    let name = string_of(t.as_slice());
    if t.len() == 0 {
        return (PresetSave::Ignore, name);
    }
    match find_named(preset_names, &name) {
        Some(i) => (PresetSave::Replace(i), name),
        None => (PresetSave::Append, name),
    }
}

/// The new name of a renamed preset: the entry without white space around
/// it, or none (the old name stays) when that is empty.
pub fn preset_rename(entry: &str) -> (res: Option<String>)
    ensures
        match res {
            Some(n) => trim(entry@).len() > 0 && n@ == trim(entry@),
            None => trim(entry@).len() == 0,
        },
{
    let cs = chars_of(entry);
    let t = trim_vec(cs.as_slice());
    if t.len() == 0 {
        None
    } else {
        Some(string_of(t.as_slice()))
    }
}

/// The lines of a device listing that name a device, without white space
/// around them.
pub open spec fn device_lines(ls: Seq<Seq<char>>) -> Seq<Seq<char>>
    decreases ls.len(),
{
    if ls.len() == 0 {
        Seq::empty()
    } else {
        let rest = device_lines(ls.drop_last());
        if contains(ls.last(), "Device"@) {
            rest.push(trim(ls.last()))
        } else {
            rest
        }
    }
}

/// What the RPC server's `-d` printed, as shown: its output (the
/// error output when the output is empty), only the lines that hold
/// `Device`, one per line; none when no line does.
pub open spec fn device_report(stdout: Seq<char>, stderr: Seq<char>) -> Option<Seq<char>> {
    let raw = if stdout.len() > 0 {
        stdout
    } else {
        stderr
    };
    let d = device_lines(lines(raw));
    if d.len() == 0 {
        None
    } else {
        Some(join(d, "\n"@))
    }
}

/// The device listing to show (see `device_report`).
pub fn device_list(stdout: &str, stderr: &str) -> (res: Option<String>)
    ensures
        match res {
            Some(t) => device_report(stdout@, stderr@) == Some(t@),
            None => device_report(stdout@, stderr@) is None,
        },
{
    let out = chars_of(stdout);
    let raw = if out.len() > 0 {
        out
    } else {
        chars_of(stderr)
    };
    let ls = lines_exec(raw.as_slice());
    let ghost lv = views(ls@);
    let mut picked: Vec<Vec<char>> = Vec::new();
    let mut i: usize = 0;
    proof {
        assert(lv.take(0) =~= Seq::<Seq<char>>::empty());
    }
    while i < ls.len()
        invariant
            i <= ls@.len(),
            lv == views(ls@),
            views(picked@) == device_lines(lv.take(i as int)),
        decreases ls@.len() - i,
    {
        proof {
            assert(lv.take(i + 1).drop_last() =~= lv.take(i as int));
            assert(lv.take(i + 1).last() == ls@[i as int]@);
        }
        if str_contains(ls[i].as_slice(), "Device") {
            let ghost before = views(picked@);
            picked.push(trim_vec(ls[i].as_slice()));
            proof {
                assert(views(picked@) =~= before.push(trim(ls@[i as int]@)));
            }
        }
        i = i + 1;
    }
    proof {
        assert(lv.take(ls@.len() as int) =~= lv);
    }
    if picked.len() == 0 {
        None
    } else {
        Some(join_exec(&picked, "\n"))
    }
}

} // verus!
