//! Where the emulator's configuration and the tool's state live.
use vstd::prelude::*;
use crate::text::{char_vec, find_last_sep, last_sep, lemma_last_sep_bounds, string_of_range};

verus! {

/// Relies on `whoami::username`: the account name of the current user.
#[verifier::external_body]
fn current_username() -> (r: String) {
    whoami::username()
}

/// The default configuration directory of `app` for `user`.
pub open spec fn default_dir(user: Seq<char>, app: Seq<char>, windows: bool) -> Seq<char> {
    if windows {
        "C:/Users/"@ + user + "/AppData/Roaming/"@ + app
    } else {
        "/home/"@ + user + "/.config/"@ + app
    }
}

/// The directory of the emulator's configuration: the override where one is
/// given, else the emulator's default directory.
pub open spec fn target_dir(dir: Option<Seq<char>>, user: Seq<char>, windows: bool) -> Seq<char> {
    match dir {
        Some(d) => d,
        None => default_dir(user, "alacritty"@, windows),
    }
}

/// The directory of the tool's state: the override where one is given (both
/// files then share it), else the tool's own default directory.
pub open spec fn state_dir(dir: Option<Seq<char>>, user: Seq<char>, windows: bool) -> Seq<char> {
    match dir {
        Some(d) => d,
        None => default_dir(user, "altp"@, windows),
    }
}

pub open spec fn opt_view(dir: Option<String>) -> Option<Seq<char>> {
    match dir {
        Some(d) => Some(d@),
        None => None,
    }
}

/// The default configuration directory of `app` for `user`.
pub fn default_config_dir(user: &str, app: &str, windows: bool) -> (r: String)
    ensures
        r@ == default_dir(user@, app@, windows),
{
    let mut r = if windows {
        String::from_str("C:/Users/")
    } else {
        String::from_str("/home/")
    };
    r.append(user);
    if windows {
        r.append("/AppData/Roaming/");
    } else {
        r.append("/.config/");
    }
    r.append(app);
    r
}

/// The directory that holds the emulator's configuration for `user`.
pub fn target_config_dir(dir: &Option<String>, user: &str, windows: bool) -> (r: String)
    ensures
        r@ == target_dir(opt_view(*dir), user@, windows),
{
    match dir {
        Some(d) => d.clone(),
        None => default_config_dir(user, "alacritty", windows),
    }
}

/// The emulator's configuration file for `user`.
pub fn alacritty_config_path_for(dir: &Option<String>, user: &str, windows: bool) -> (r: String)
    ensures
        r@ == target_dir(opt_view(*dir), user@, windows) + "/alacritty.toml"@,
{
    let mut r = target_config_dir(dir, user, windows);
    r.append("/alacritty.toml");
    r
}

/// The tool's state file for `user`: in the override directory where one is
/// given, else in the tool's own configuration directory.
pub fn altp_config_path_for(dir: &Option<String>, user: &str, windows: bool) -> (r: String)
    ensures
        r@ == state_dir(opt_view(*dir), user@, windows) + "/altp.toml"@,
{
    let mut r = match dir {
        Some(d) => d.clone(),
        None => default_config_dir(user, "altp", windows),
    };
    r.append("/altp.toml");
    r
}

/// The emulator's configuration file, for the current user where no
/// override directory is given.
pub fn resolve_alacritty_config_path(dir: &Option<String>, windows: bool) -> (r: String)
    ensures
        exists|u: Seq<char>| r@ == target_dir(opt_view(*dir), u, windows) + "/alacritty.toml"@,
        dir matches Some(d) ==> r@ == d@ + "/alacritty.toml"@,
{
    let user = match dir {
        Some(_) => String::new(),
        None => current_username(),
    };
    alacritty_config_path_for(dir, user.as_str(), windows)
}

/// The tool's state file, for the current user where no override directory
/// is given.
pub fn resolve_altp_config_path(dir: &Option<String>, windows: bool) -> (r: String)
    ensures
        exists|u: Seq<char>| r@ == state_dir(opt_view(*dir), u, windows) + "/altp.toml"@,
        dir matches Some(d) ==> r@ == d@ + "/altp.toml"@,
{
    let user = match dir {
        Some(_) => String::new(),
        None => current_username(),
    };
    altp_config_path_for(dir, user.as_str(), windows)
}

/// The tool's own configuration directory for the current user.
pub fn resolve_altp_config_dir(windows: bool) -> (r: String)
    ensures
        exists|u: Seq<char>| r@ == default_dir(u, "altp"@, windows),
{
    let user = current_username();
    default_config_dir(user.as_str(), "altp", windows)
}

/// The directory of theme files under a configuration directory.
pub fn themes_dir_in(config_dir: &str) -> (r: String)
    ensures
        r@ == config_dir@ + "/themes"@,
{
    let mut r = String::from_str(config_dir);
    r.append("/themes");
    r
}

/// What comes before the last separator of a path; empty where there is none.
pub open spec fn parent_of(path: Seq<char>) -> Seq<char> {
    if last_sep(path) < 0 {
        Seq::empty()
    } else {
        path.subrange(0, last_sep(path))
    }
}

/// The directory that a file path lies in, to be created before the file.
pub fn parent_dir(path: &str) -> (r: String)
    ensures
        r@ == parent_of(path@),
{
    let cs = char_vec(path);
    let k = find_last_sep(&cs);
    proof {
        lemma_last_sep_bounds(cs@);
    }
    if k == cs.len() {
        String::new()
    } else {
        string_of_range(&cs, 0, k)
    }
}

} // verus!
