//! Where the admin configuration lives, and how a file is named when it is
//! backed up before being overwritten.
use vstd::prelude::*;

use crate::text::{decimal, decimal_chars, join, join_path, push_chars, push_str, string_from_chars};

verus! {

/// The config root: `$XDG_CONFIG_HOME/ai-bridge`, else
/// `$HOME/.config/ai-bridge`, else `%APPDATA%\ai-bridge` joined the same
/// way, else `./ai-bridge-config` (the caller reads the environment; a set
/// variable counts even when empty).
pub open spec fn config_root_spec(
    xdg: Option<Seq<char>>,
    home: Option<Seq<char>>,
    appdata: Option<Seq<char>>,
) -> Seq<char> {
    match xdg {
        Some(x) => join_path(x, "ai-bridge"@),
        None => match home {
            Some(h) => join_path(join_path(h, ".config"@), "ai-bridge"@),
            None => match appdata {
                Some(a) => join_path(a, "ai-bridge"@),
                None => join_path("."@, "ai-bridge-config"@),
            },
        },
    }
}

pub open spec fn opt_view(o: Option<&str>) -> Option<Seq<char>> {
    match o {
        Some(v) => Some(v@),
        None => None,
    }
}

pub fn config_dir(xdg: Option<&str>, home: Option<&str>, appdata: Option<&str>) -> (p: String)
    ensures
        p@ == config_root_spec(opt_view(xdg), opt_view(home), opt_view(appdata)),
{
    match xdg {
        Some(x) => join(x, "ai-bridge"),
        None => match home {
            Some(h) => {
                let c = join(h, ".config");
                join(c.as_str(), "ai-bridge")
            },
            None => match appdata {
                Some(a) => join(a, "ai-bridge"),
                None => join(".", "ai-bridge-config"),
            },
        },
    }
}

/// The backup name of a file: its stem, its extension (with its dot) when
/// it has one, `.bak.` and the time in seconds.
pub open spec fn backup_name_spec(stem: Seq<char>, ext: Option<Seq<char>>, secs: nat) -> Seq<char> {
    stem + (match ext {
        Some(e) => seq!['.'] + e,
        None => Seq::empty(),
    }) + ".bak."@ + decimal(secs)
}

pub fn backup_name(stem: &str, ext: Option<&str>, secs: u64) -> (s: String)
    ensures
        s@ == backup_name_spec(stem@, opt_view(ext), secs as nat),
{
    let mut out: Vec<char> = Vec::new();
    push_str(&mut out, stem);
    if let Some(e) = ext {
        out.push('.');
        push_str(&mut out, e);
    }
    push_str(&mut out, ".bak.");
    let d = decimal_chars(secs);
    push_chars(&mut out, &d);
    assert(out@ =~= backup_name_spec(stem@, opt_view(ext), secs as nat));
    string_from_chars(&out)
}

} // verus!
