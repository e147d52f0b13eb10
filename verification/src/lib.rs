//! Reading and setting the desktop background image ("wallpaper").
//!
//! The library holds the decision logic of the adapters: the fixed tables
//! that translate a [`Mode`] to each platform's native vocabulary, the
//! parsing of the desktop environment's configuration, and the construction
//! of the paths and command lines that the native facilities are driven
//! with.  The native calls themselves (registry writes, process invocation,
//! file and network access) are performed by an unverified shell around the
//! library, which hands plain values in and takes plain values back.

use vstd::prelude::*;

pub mod from_url;
pub mod ini;
pub mod lxde;
pub mod win;

verus! {

/// Wallpaper scaling/positioning policy, applied when the image does not
/// exactly match the screen resolution.
#[derive(Clone, Copy, PartialEq, Eq, Structural, Debug)]
pub enum Mode {
    Center,
    Crop,
    Fit,
    Span,
    Stretch,
    Tile,
}

/// Why reading the desktop environment's configuration failed.
#[derive(Clone, Copy, PartialEq, Eq, Structural, Debug)]
pub enum ParseFailure {
    /// The configuration file does not exist or could not be read.
    MissingFile,
    /// A line is neither blank, a comment, a section header nor a
    /// `key=value` pair.
    MalformedLine,
    /// The requested section does not occur in the document.
    MissingSection,
    /// The requested section occurs, but never holds the requested key.
    MissingKey,
}

/// The single error value every fallible operation surfaces.
#[derive(Clone, Copy, PartialEq, Eq, Structural, Debug)]
pub enum Error {
    /// A required directory (configuration or cache) could not be located.
    EnvironmentResolution,
    /// The desktop environment's configuration is missing, malformed, or
    /// lacks the expected section or key.
    ConfigParse(ParseFailure),
    /// A native OS call reported failure; carries the platform's
    /// last-error code.
    OsCall(i32),
    /// An external command-line tool failed to launch or exited non-zero.
    ProcessInvocation,
    /// An HTTP request failed or its response could not be written out.
    Network,
    /// A returned native string could not be converted to valid text.
    Encoding,
}

/// A command line to be run: the program and its arguments, in order.
///
/// Adapters that drive a window manager's CLI return one of these; the
/// caller is expected to spawn the program, wait for it, and treat a launch
/// failure or a non-zero exit as [`Error::ProcessInvocation`].
pub struct CliInvocation {
    pub program: String,
    pub args: Vec<String>,
}

} // verus!
