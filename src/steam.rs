//! Where the game client is installed, and the user's choices about it.

use vstd::prelude::*;

verus! {

/// The operating system the tool runs on, which decides the client's usual
/// install directory.
#[derive(Debug, Clone, Copy, PartialEq, Eq, Structural)]
pub enum HostOs {
    Windows,
    MacOs,
    Linux,
    Other,
}

/// The client's install directory, the appid typed for mod installs, the
/// plugin configuration directory, and whether the mod loader is wanted.
#[derive(Debug, Clone, PartialEq, Eq)]
pub struct Steam {
    pub path: String,
    pub mod_id: String,
    pub cfg: String,
    pub melon_loader: bool,
}

/// The usual install directory of the client on `os`; none is known for
/// other systems.
pub open spec fn default_steam_path(os: HostOs) -> Seq<char> {
    match os {
        HostOs::Windows => "C:\\Program Files (x86)\\Steam"@,
        HostOs::MacOs => "~/Library/Application Support/Steam"@,
        HostOs::Linux => "~/.local/share/Steam"@,
        HostOs::Other => Seq::empty(),
    }
}

fn default_path_for(os: HostOs) -> (r: String)
    ensures
        r@ == default_steam_path(os),
{
    match os {
        HostOs::Windows => {
            proof {
                reveal_strlit("C:\\Program Files (x86)\\Steam");
            }
            "C:\\Program Files (x86)\\Steam".to_owned()
        },
        HostOs::MacOs => {
            proof {
                reveal_strlit("~/Library/Application Support/Steam");
            }
            "~/Library/Application Support/Steam".to_owned()
        },
        HostOs::Linux => {
            proof {
                reveal_strlit("~/.local/share/Steam");
            }
            "~/.local/share/Steam".to_owned()
        },
        HostOs::Other => String::new(),
    }
}

impl Steam {
    /// Settings for the client at `path`, or at the usual place on `os`
    /// where no path is given; nothing else is set yet.
    pub fn new(path: Option<String>, os: HostOs) -> (r: Steam)
        ensures
            path matches Some(p) ==> r.path@ == p@,
            path is None ==> r.path@ == default_steam_path(os),
            r.mod_id@ == Seq::<char>::empty(),
            r.cfg@ == Seq::<char>::empty(),
            !r.melon_loader,
    {
        let p = match path {
            Some(p) => p,
            None => default_path_for(os),
        };
        Steam { path: p, mod_id: String::new(), cfg: String::new(), melon_loader: false }
    }
}

} // verus!
