//! Starting with the user's session.
//!
//! On Linux an entry in the XDG autostart directory, on Windows a value under
//! the user's `Run` key. Both point at where the program is now, so the entry is
//! written anew each time it is switched on.

use crate::launcher::sober::{below, join_path};
use crate::text::{cat3, is_listed, lists, opt_text};
use vstd::prelude::*;

verus! {

/// The key under which Windows starts programs with the session.
pub const RUN_KEY: &'static str = "HKCU\\Software\\Microsoft\\Windows\\CurrentVersion\\Run";

/// Where the program really is. Inside an AppImage the running file is on a
/// mount that is gone by the next boot, so the image itself counts where it
/// exists.
pub fn exe_path(appimage: Option<String>, is_file: bool, running: Option<String>) -> (r: Option<
    String,
>)
    ensures
        r == (if appimage is Some && is_file { appimage } else { running }),
{
    match appimage {
        Some(p) => if is_file {
            Some(p)
        } else {
            running
        },
        None => running,
    }
}

/// The autostart entry below a configuration directory.
pub fn desktop_file_in(config_home: &str) -> (r: String)
    ensures
        r@ == below(below(config_home@, "autostart"@), "rojoin-v4.desktop"@),
{
    join_path(join_path(config_home, "autostart").as_str(), "rojoin-v4.desktop")
}

/// The autostart entry: below the XDG configuration directory where that is set,
/// else below the one in the user's home.
pub fn desktop_file(config_home: Option<String>, home: Option<String>) -> (r: Option<String>)
    ensures
        opt_text(r) == (match (config_home, home) {
            (Some(c), _) => Some(below(below(c@, "autostart"@), "rojoin-v4.desktop"@)),
            (None, Some(h)) => Some(
                below(below(below(h@, ".config"@), "autostart"@), "rojoin-v4.desktop"@),
            ),
            (None, None) => None,
        }),
{
    match config_home {
        Some(c) => Some(desktop_file_in(c.as_str())),
        None => match home {
            Some(h) => Some(desktop_file_in(join_path(h.as_str(), ".config").as_str())),
            None => None,
        },
    }
}

/// Whether the program starts with the session: its entry is there.
pub fn is_enabled(entry: Option<bool>) -> (r: bool)
    ensures
        r == (entry == Some(true)),
{
    match entry {
        Some(exists) => exists,
        None => false,
    }
}

/// What is to be done to the autostart entry.
#[derive(Debug)]
pub enum Change {
    /// Remove this file; it may be gone already.
    Remove(String),
    /// Write this file with these contents.
    Write { path: String, contents: String },
}

/// The entry for a program. It is started hidden: the point is to keep tracking,
/// not to be looked at.
pub open spec fn entry_text(exe: Seq<char>) -> Seq<char> {
    "[Desktop Entry]\nType=Application\nName=RoJoin\nComment=Native Roblox client\nExec="@ + exe
        + " --hidden\nIcon=rojoin-v4\nTerminal=false\nCategories=Game;\nX-GNOME-Autostart-enabled=true\n"@
}

/// Switch starting with the session on or off. `path` is the entry, `exe` the
/// program.
pub fn set(enabled: bool, path: Option<String>, exe: Option<String>) -> (r: std::result::Result<
    Change,
    String,
>)
    ensures
        match path {
            None => r matches Err(e) && e@
                == "no config directory to write an autostart entry into"@,
            Some(p) => if !enabled {
                r matches Ok(Change::Remove(q)) && q@ == p@
            } else {
                match exe {
                    None => r matches Err(e) && e@
                        == "could not work out where RoJoin is installed"@,
                    Some(x) => r matches Ok(Change::Write { path: q, contents }) && q@ == p@
                        && contents@ == entry_text(x@),
                }
            },
        },
{
    match path {
        None => Err("no config directory to write an autostart entry into".to_owned()),
        Some(p) => {
            if !enabled {
                return Ok(Change::Remove(p));
            }
            match exe {
                None => Err("could not work out where RoJoin is installed".to_owned()),
                Some(x) => Ok(
                    Change::Write {
                        path: p,
                        contents: cat3(
                            "[Desktop Entry]\nType=Application\nName=RoJoin\nComment=Native Roblox client\nExec=",
                            x.as_str(),
                            " --hidden\nIcon=rojoin-v4\nTerminal=false\nCategories=Game;\nX-GNOME-Autostart-enabled=true\n",
                        ),
                    },
                ),
            }
        },
    }
}

/// The value on Windows. The path is quoted: it may hold a space.
pub fn run_value(exe: &str) -> (r: String)
    ensures
        r@ == "\""@ + exe@ + "\" --hidden"@,
{
    cat3("\"", exe, "\" --hidden")
}

/// Whether this start is one by the session. It is read from the arguments, so a
/// start by hand always shows the window.
pub fn started_hidden(args: &Vec<String>) -> (r: bool)
    ensures
        r == lists(args@, "--hidden"@),
{
    is_listed(args, "--hidden")
}

/// The entry that starts the program with the session, without its window.
pub proof fn law_what_the_entry_says(exe: Seq<char>)
    ensures
        entry_text(exe)
            == "[Desktop Entry]\nType=Application\nName=RoJoin\nComment=Native Roblox client\nExec="@
            + exe
            + " --hidden\nIcon=rojoin-v4\nTerminal=false\nCategories=Game;\nX-GNOME-Autostart-enabled=true\n"@,
        RUN_KEY@ == "HKCU\\Software\\Microsoft\\Windows\\CurrentVersion\\Run"@,
{
}

} // verus!
