//! The remote-fetch helper's decision logic.
//!
//! A downloaded image is always streamed into one fixed-name file,
//! `wallpaper`, inside the user's cache directory; this module computes
//! that file's path.  The download itself (the HTTP request and the write
//! to disk) is performed by the unverified shell around the library.

use vstd::prelude::*;

verus! {

/// The cache file's path: `cache_dir` with the fixed file name `wallpaper`
/// joined onto it.  A separator is inserted unless `cache_dir` already ends
/// with one.
pub open spec fn spec_cache_file_path(dir: Seq<char>) -> Seq<char> {
    if dir.len() > 0 && dir.last() == '/' {
        dir + "wallpaper"@
    } else {
        dir + "/"@ + "wallpaper"@
    }
}

/// The path of the single cache file a downloaded image is written to,
/// below the given cache directory.
pub fn cache_file_path(cache_dir: &str) -> (r: String)
    ensures
        r@ == spec_cache_file_path(cache_dir@),
{
    let n = cache_dir.unicode_len();
    let mut p = cache_dir.to_owned();
    if n == 0 || cache_dir.get_char(n - 1) != '/' {
        p.append("/");
    }
    p.append("wallpaper");
    p
}

} // verus!
