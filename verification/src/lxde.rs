//! The LXDE-family adapter's decision logic.
//!
//! On this desktop environment the wallpaper is read from a per-session
//! `pcmanfm` configuration file and written through the `pcmanfm` command
//! line.  This module resolves the configuration file's location below the
//! user's configuration directory, reads the `wallpaper` key out of the
//! file's wildcard (`*`) section, and builds the command lines that set a
//! wallpaper or its display mode.

use vstd::prelude::*;

use crate::ini;
use crate::CliInvocation;
use crate::Error;
use crate::Mode;

verus! {

/// The keyword `pcmanfm --wallpaper-mode` accepts for `mode`.  Note the
/// deliberate naming mismatch: [`Mode::Span`] maps to `"screen"`, not to a
/// keyword of its own name.
pub open spec fn spec_mode_keyword(mode: Mode) -> Seq<char> {
    match mode {
        Mode::Center => "center"@,
        Mode::Crop => "crop"@,
        Mode::Fit => "fit"@,
        Mode::Span => "screen"@,
        Mode::Stretch => "stretch"@,
        Mode::Tile => "tile"@,
    }
}

/// The CLI keyword for `mode`, per the fixed table.
pub fn mode_keyword(mode: Mode) -> (r: &'static str)
    ensures
        r@ == spec_mode_keyword(mode),
{
    match mode {
        Mode::Center => "center",
        Mode::Crop => "crop",
        Mode::Fit => "fit",
        Mode::Span => "screen",
        Mode::Stretch => "stretch",
        Mode::Tile => "tile",
    }
}

/// Law: the keyword handed to the CLI is always one of the six words of the
/// tool's vocabulary, it is `"screen"` exactly for [`Mode::Span`], and it is
/// never the word `"span"`.
pub proof fn lemma_mode_keyword_vocabulary(mode: Mode)
    ensures
        spec_mode_keyword(mode) == "center"@ || spec_mode_keyword(mode) == "crop"@
            || spec_mode_keyword(mode) == "fit"@ || spec_mode_keyword(mode) == "screen"@
            || spec_mode_keyword(mode) == "stretch"@ || spec_mode_keyword(mode) == "tile"@,
        spec_mode_keyword(mode) == "screen"@ <==> mode == Mode::Span,
        spec_mode_keyword(mode) != "span"@,
{
    reveal_strlit("center");
    reveal_strlit("crop");
    reveal_strlit("fit");
    reveal_strlit("screen");
    reveal_strlit("stretch");
    reveal_strlit("tile");
    reveal_strlit("span");
    assert("center"@[1] != "screen"@[1]);
    assert("crop"@[0] != "tile"@[0]);
    assert("span"@[1] != "screen"@[1]);
    assert("span"@.len() != "center"@.len() && "span"@.len() != "fit"@.len() && "span"@.len()
        != "stretch"@.len());
    assert("span"@[0] != "crop"@[0] && "span"@[0] != "tile"@[0]);
}

/// The command line that sets the wallpaper to `path`:
/// `pcmanfm -w <path>`.
pub fn set(path: &str) -> (r: CliInvocation)
    ensures
        r.program@ == "pcmanfm"@,
        r.args@.len() == 2,
        r.args@[0]@ == "-w"@,
        r.args@[1]@ == path@,
{
    let mut args: Vec<String> = Vec::new();
    args.push("-w".to_owned());
    args.push(path.to_owned());
    CliInvocation { program: "pcmanfm".to_owned(), args }
}

/// The command line that sets the wallpaper display mode:
/// `pcmanfm --wallpaper-mode <keyword>`, with the keyword taken from the
/// fixed table of [`spec_mode_keyword`].
pub fn set_mode(mode: Mode) -> (r: CliInvocation)
    ensures
        r.program@ == "pcmanfm"@,
        r.args@.len() == 2,
        r.args@[0]@ == "--wallpaper-mode"@,
        r.args@[1]@ == spec_mode_keyword(mode),
{
    let mut args: Vec<String> = Vec::new();
    args.push("--wallpaper-mode".to_owned());
    args.push(mode_keyword(mode).to_owned());
    CliInvocation { program: "pcmanfm".to_owned(), args }
}

/// The session name used to locate the configuration file: the value of the
/// session environment variable where one is set, and the fixed fallback
/// `"LXDE"` where it is not.
pub open spec fn spec_session_name(session: Option<Seq<char>>) -> Seq<char> {
    match session {
        Some(s) => s,
        None => "LXDE"@,
    }
}

/// The configuration file's path relative to the user's configuration
/// directory: `pcmanfm/<session>/desktop-items-0.conf`.
pub open spec fn spec_config_relative_path(session: Option<Seq<char>>) -> Seq<char> {
    "pcmanfm/"@ + spec_session_name(session) + "/desktop-items-0.conf"@
}

/// The view of an optional session name.
pub open spec fn session_view(session: Option<&str>) -> Option<Seq<char>> {
    match session {
        Some(s) => Some(s@),
        None => None,
    }
}

/// Resolves the per-session configuration file path, relative to the user's
/// configuration directory.  `session` is the desktop session environment
/// variable's value, or `None` where that variable is unset; an unset
/// variable falls back to the session name `"LXDE"`.
pub fn config_relative_path(session: Option<&str>) -> (r: String)
    ensures
        r@ == spec_config_relative_path(session_view(session)),
{
    let mut p = "pcmanfm/".to_owned();
    match session {
        Some(s) => p.append(s),
        None => p.append("LXDE"),
    }
    p.append("/desktop-items-0.conf");
    p
}

/// Reads the wallpaper path out of the configuration file's text: the value
/// of the `wallpaper` key in the wildcard (`*`) section.  Fails with
/// [`Error::ConfigParse`] when the document is malformed, when it has no
/// `*` section, or when that section never holds the key.
pub fn wallpaper_from_config(content: &str) -> (r: Result<String, Error>)
    ensures
        ({
            match r {
                Ok(v) => !ini::ini_has_malformed(content@) && ini::ini_lookup(
                    content@,
                    "*"@,
                    "wallpaper"@,
                ) == Some(v@),
                Err(e) => if ini::ini_has_malformed(content@) {
                    e == Error::ConfigParse(crate::ParseFailure::MalformedLine)
                } else if ini::ini_lookup(content@, "*"@, "wallpaper"@) is Some {
                    false
                } else if ini::ini_has_section(content@, "*"@) {
                    e == Error::ConfigParse(crate::ParseFailure::MissingKey)
                } else {
                    e == Error::ConfigParse(crate::ParseFailure::MissingSection)
                },
            }
        }),
{
    ini::lookup(content, "*", "wallpaper")
}

} // verus!
