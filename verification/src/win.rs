//! The Windows adapter's decision logic.
//!
//! Setting the wallpaper style on this platform means writing two legacy
//! registry string values, `TileWallpaper` and `WallpaperStyle`, under the
//! desktop key, then re-applying the current wallpaper path so the change
//! becomes visible.  This module computes exactly what is written; it also
//! recovers the path from the fixed-size text buffer the "get desktop
//! wallpaper" call fills, which pads the path with trailing NUL characters.

use vstd::prelude::*;

use crate::Mode;

verus! {

/// The text written to the `TileWallpaper` registry value: `"1"` for
/// [`Mode::Tile`], `"0"` for every other mode.
pub open spec fn spec_tile_wallpaper_value(mode: Mode) -> Seq<char> {
    if mode == Mode::Tile {
        "1"@
    } else {
        "0"@
    }
}

/// The text written to the `WallpaperStyle` registry value, per the fixed
/// table: Center and Tile map to `"0"`, Stretch to `"2"`, Fit to `"6"`,
/// Crop to `"10"`, Span to `"22"`.
pub open spec fn spec_wallpaper_style_value(mode: Mode) -> Seq<char> {
    match mode {
        Mode::Center => "0"@,
        Mode::Tile => "0"@,
        Mode::Stretch => "2"@,
        Mode::Fit => "6"@,
        Mode::Crop => "10"@,
        Mode::Span => "22"@,
    }
}

/// The `TileWallpaper` value that `set_mode` writes for `mode`.
pub fn tile_wallpaper_value(mode: Mode) -> (r: &'static str)
    ensures
        r@ == spec_tile_wallpaper_value(mode),
{
    match mode {
        Mode::Tile => "1",
        _ => "0",
    }
}

/// The `WallpaperStyle` value that `set_mode` writes for `mode`.
pub fn wallpaper_style_value(mode: Mode) -> (r: &'static str)
    ensures
        r@ == spec_wallpaper_style_value(mode),
{
    match mode {
        Mode::Center => "0",
        Mode::Tile => "0",
        Mode::Stretch => "2",
        Mode::Fit => "6",
        Mode::Crop => "10",
        Mode::Span => "22",
    }
}

/// Law: `TileWallpaper` is `"1"` exactly for [`Mode::Tile`], and `"0"` for
/// each of the other modes.
pub proof fn lemma_tile_value_characterisation(mode: Mode)
    ensures
        spec_tile_wallpaper_value(mode) == "1"@ <==> mode == Mode::Tile,
        spec_tile_wallpaper_value(mode) == "0"@ <==> mode != Mode::Tile,
{
    reveal_strlit("0");
    reveal_strlit("1");
    assert("0"@[0] != "1"@[0]);
}

/// Law: `WallpaperStyle` is always one of the five fixed strings, and each
/// mode hits the documented entry of the table.
pub proof fn lemma_style_value_table(mode: Mode)
    ensures
        spec_wallpaper_style_value(mode) == "0"@ || spec_wallpaper_style_value(mode) == "2"@
            || spec_wallpaper_style_value(mode) == "6"@ || spec_wallpaper_style_value(mode)
            == "10"@ || spec_wallpaper_style_value(mode) == "22"@,
        spec_wallpaper_style_value(mode) == "0"@ <==> (mode == Mode::Center || mode == Mode::Tile),
        spec_wallpaper_style_value(mode) == "2"@ <==> mode == Mode::Stretch,
        spec_wallpaper_style_value(mode) == "6"@ <==> mode == Mode::Fit,
        spec_wallpaper_style_value(mode) == "10"@ <==> mode == Mode::Crop,
        spec_wallpaper_style_value(mode) == "22"@ <==> mode == Mode::Span,
{
    reveal_strlit("0");
    reveal_strlit("2");
    reveal_strlit("6");
    reveal_strlit("10");
    reveal_strlit("22");
    assert("0"@.len() != "10"@.len() && "0"@.len() != "22"@.len());
    assert("2"@.len() != "10"@.len() && "2"@.len() != "22"@.len());
    assert("6"@.len() != "10"@.len() && "6"@.len() != "22"@.len());
    assert("0"@[0] != "2"@[0] && "0"@[0] != "6"@[0] && "2"@[0] != "6"@[0]);
    assert("10"@[0] != "22"@[0]);
}

/// Appends the terminating NUL unit the OS's wide-character "set desktop
/// wallpaper" call expects at the end of a path.
pub fn null_terminated(units: Vec<u16>) -> (r: Vec<u16>)
    ensures
        r@ == units@ + seq![0u16],
{
    let ghost u = units@;
    let mut r = units;
    r.push(0);
    proof {
        assert(r@ =~= u + seq![0u16]);
    }
    r
}

/// The index just past the last character that is not NUL: everything from
/// here to the end of `s` is trailing `'\0'` padding.
pub open spec fn nul_back(s: Seq<char>) -> int
    decreases s.len(),
{
    if s.len() == 0 {
        0
    } else if s.last() == '\0' {
        nul_back(s.drop_last())
    } else {
        s.len() as int
    }
}

/// `s` with all trailing NUL characters stripped.
pub open spec fn spec_trim_trailing_nuls(s: Seq<char>) -> Seq<char> {
    s.subrange(0, nul_back(s))
}

proof fn lemma_nul_back(s: Seq<char>)
    ensures
        0 <= nul_back(s) <= s.len(),
        forall|k: int| nul_back(s) <= k < s.len() ==> s[k] == '\0',
        nul_back(s) > 0 ==> s[nul_back(s) - 1] != '\0',
    decreases s.len(),
{
    if s.len() > 0 && s.last() == '\0' {
        lemma_nul_back(s.drop_last());
        assert(forall|k: int| 0 <= k < s.len() - 1 ==> s.drop_last()[k] == s[k]);
    }
}

proof fn lemma_nul_back_is(s: Seq<char>, j: int)
    requires
        0 <= j <= s.len(),
        forall|k: int| j <= k < s.len() ==> s[k] == '\0',
        j > 0 ==> s[j - 1] != '\0',
    ensures
        nul_back(s) == j,
{
    lemma_nul_back(s);
}

/// Recovers the wallpaper path from the text the OS filled a fixed-size
/// buffer with: the path itself followed by NUL padding.  Returns the text
/// with every trailing NUL character removed; interior characters are kept
/// as they are.
pub fn trim_trailing_nuls(s: &str) -> (r: String)
    ensures
        r@ == spec_trim_trailing_nuls(s@),
{
    let n = s.unicode_len();
    let mut b = n;
    while b > 0 && s.get_char(b - 1) == '\0'
        invariant
            b <= n,
            n == s@.len(),
            forall|k: int| b <= k < n ==> s@[k] == '\0',
        decreases b,
    {
        b = b - 1;
    }
    proof {
        lemma_nul_back_is(s@, b as int);
    }
    let path = s.substring_char(0, b);
    path.to_owned()
}

} // verus!
