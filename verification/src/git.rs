//! The remote URL of a plugin's git checkout, as `git remote get-url origin`
//! reports it.
use vstd::prelude::*;
use crate::text::{trim, trimmed};

verus! {

/// The `origin` URL from the output of `git remote get-url origin`: the
/// trimmed standard output of a successful run, and nothing when the run
/// failed or printed only whitespace. No URL is ever made up.
pub fn origin_url(success: bool, stdout: &str) -> (r: Option<String>)
    ensures
        r matches Some(u) ==> success && u@ == trimmed(stdout@) && u@.len() > 0,
        r is None ==> !success || trimmed(stdout@).len() == 0,
{
    if !success {
        return None;
    }
    let url = trim(stdout);
    if url.as_str().unicode_len() == 0 {
        None
    } else {
        Some(url)
    }
}

} // verus!
