//! Starting the launcher with the system, and the address of the web client.
use vstd::prelude::*;
use crate::text::{dec, fmt_u64, push_str, string_from};

verus! {

/// The registry key under which Windows starts programs at logon.
pub const RUN_KEY: &'static str = "HKEY_CURRENT_USER\\Software\\Microsoft\\Windows\\CurrentVersion\\Run";

/// The name of the launcher's value under `RUN_KEY`.
pub const RUN_VALUE_NAME: &'static str = "llama.cpp launcher";

/// The file name of the launcher's XDG autostart entry.
pub const DESKTOP_FILE_NAME: &'static str = "llama-cpp-launcher.desktop";

/// The argument that starts the launcher minimised.
pub const MINIMIZED_ARG: &'static str = "--minimized";

/// The program repository.
pub const REPO_URL: &'static str = "https://github.com/yihuishou/llama.cpp-launcher";

/// The command stored in the Windows run key: the quoted program path, with
/// `--minimized` after it for a silent start.
pub open spec fn run_value(exe: Seq<char>, silent: bool) -> Seq<char> {
    "\""@ + exe + "\""@ + if silent {
        " --minimized"@
    } else {
        Seq::empty()
    }
}

/// The command stored in the Windows run key (see `run_value`).
pub fn run_entry_value(exe: &str, silent: bool) -> (res: String)
    ensures
        res@ == run_value(exe@, silent),
{
    let mut s = string_from("\"");
    push_str(&mut s, exe);
    push_str(&mut s, "\"");
    if silent {
        push_str(&mut s, " --minimized");
    }
    proof {
        assert(s@ =~= run_value(exe@, silent));
    }
    s
}

/// The XDG autostart entry that runs the program (with `--minimized` for a
/// silent start).
pub open spec fn desktop_text(exe: Seq<char>, silent: bool) -> Seq<char> {
    "[Desktop Entry]\nType=Application\nName=LLama Launcher\nExec="@ + exe + (if silent {
        " --minimized"@
    } else {
        Seq::empty()
    }) + "\nHidden=false\nNoDisplay=false\nX-GNOME-Autostart-enabled=true\n"@
}

/// The XDG autostart entry (see `desktop_text`).
pub fn desktop_entry(exe: &str, silent: bool) -> (res: String)
    ensures
        res@ == desktop_text(exe@, silent),
{
    let mut s = string_from("[Desktop Entry]\nType=Application\nName=LLama Launcher\nExec=");
    push_str(&mut s, exe);
    if silent {
        push_str(&mut s, " --minimized");
    }
    push_str(&mut s, "\nHidden=false\nNoDisplay=false\nX-GNOME-Autostart-enabled=true\n");
    proof {
        assert(s@ =~= desktop_text(exe@, silent));
    }
    s
}

/// The address of the server's web client on this machine.
pub fn web_client_url(port: u16) -> (res: String)
    ensures
        res@ == "http://127.0.0.1:"@ + dec(port as nat),
{
    let mut s = string_from("http://127.0.0.1:");
    let d = fmt_u64(port as u64);
    push_str(&mut s, d.as_str());
    s
}

} // verus!
