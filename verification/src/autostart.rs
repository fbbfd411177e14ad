//! Linux autostart through `~/.config/autostart/omniroute-desktop.desktop`:
//! where the entry lives and what it says. `fallback` holds the answers on
//! other platforms.
use vstd::prelude::*;
use crate::paths::{is_path_under, join, parts_view, path_under, PathBase, PlannedPath};

pub mod fallback;

verus! {

/// `~/.config/autostart`, when the home directory is known.
pub fn autostart_dir(home_known: bool) -> (r: Option<PlannedPath>)
    ensures
        home_known ==> (r matches Some(p) && is_path_under(p, PathBase::Home, seq![".config"@, "autostart"@])),
        !home_known ==> r is None,
{
    if !home_known {
        return None;
    }
    let p = join(path_under(PathBase::Home, ".config"), "autostart");
    assert(parts_view(p) =~= seq![".config"@, "autostart"@]);
    Some(p)
}

/// `~/.config/autostart/omniroute-desktop.desktop`, when the home directory
/// is known.
pub fn desktop_path(home_known: bool) -> (r: Option<PlannedPath>)
    ensures
        home_known ==> (r matches Some(p) && is_path_under(
            p,
            PathBase::Home,
            seq![".config"@, "autostart"@, "omniroute-desktop.desktop"@],
        )),
        !home_known ==> r is None,
{
    match autostart_dir(home_known) {
        Some(d) => {
            let p = join(d, "omniroute-desktop.desktop");
            assert(parts_view(p) =~= seq![".config"@, "autostart"@, "omniroute-desktop.desktop"@]);
            Some(p)
        },
        None => None,
    }
}

/// The desktop entry that starts `exe` hidden in the tray at login.
pub open spec fn desktop_entry_spec(exe: Seq<char>) -> Seq<char> {
    "[Desktop Entry]\nType=Application\nName=OmniRoute\nComment=OmniRoute Desktop Client\nExec=\""@
        + exe + "\" --hidden\nTerminal=false\nHidden=false\nX-GNOME-Autostart-enabled=true\n"@
}

/// The content of the desktop entry for the executable `exe`.
pub fn desktop_entry_content(exe: &str) -> (r: String)
    ensures
        r@ == desktop_entry_spec(exe@),
{
    let mut s = "[Desktop Entry]\nType=Application\nName=OmniRoute\nComment=OmniRoute Desktop Client\nExec=\"".to_owned();
    s.append(exe);
    s.append("\" --hidden\nTerminal=false\nHidden=false\nX-GNOME-Autostart-enabled=true\n");
    s
}

/// Linux autostart is enabled when the desktop entry exists
/// (`desktop_entry_exists` is `None` when the home directory is unknown).
pub fn is_linux_desktop_autostart_enabled(desktop_entry_exists: Option<bool>) -> (r: bool)
    ensures
        r == (desktop_entry_exists == Some(true)),
{
    match desktop_entry_exists {
        Some(b) => b,
        None => false,
    }
}

} // verus!
