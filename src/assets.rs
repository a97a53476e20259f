//! Paths of the embedded web UI.
use vstd::prelude::*;

verus! {

/// The asset that a request path names: the root is the main page, `setup`
/// the setup page, and any other path names itself.
pub open spec fn asset_of(path: Seq<char>) -> Seq<char> {
    if path.len() == 0 {
        "index.html"@
    } else if path == "setup"@ {
        "setup.html"@
    } else {
        path
    }
}

/// The asset that a request path names.
pub fn asset_path(path: &str) -> (r: String)
    ensures
        r@ == asset_of(path@),
{
    let p = String::from_str(path);
    if path.unicode_len() == 0 {
        String::from_str("index.html")
    } else if p == String::from_str("setup") {
        String::from_str("setup.html")
    } else {
        p
    }
}

} // verus!
