//! The run's configuration, immutable once constructed.
use vstd::prelude::*;

verus! {

/// Everything one mirroring run is configured with: where to mirror
/// from and to, the opaque identity header values every request
/// carries, the concurrency limit, the failure threshold, and whether
/// to pack the result.
#[derive(Debug)]
pub struct Args {
    /// Root URL of the repository to mirror.
    pub repo_url: String,
    /// Local directory the mirror is saved under.
    pub save_dir: String,
    /// Whether to log at debug verbosity.
    pub debug: bool,
    /// Opaque identity header value.
    pub cydia_id: String,
    /// Opaque firmware version header value.
    pub firmware: String,
    /// Opaque unique-id header value.
    pub unique_id: String,
    /// Opaque machine model header value.
    pub machine: String,
    /// Concurrency limit: how many download tasks may run their
    /// critical section at once.
    pub worker: u32,
    /// Failure threshold: the run aborts once more than this many
    /// downloads have failed.
    pub max_fail_count: u32,
    /// Whether to pack the save directory into an archive afterwards.
    pub pack: bool,
}

/// The repository root with a trailing slash guaranteed, so that
/// relative paths join under it rather than replacing its last segment.
pub fn normalize_root_url(s: &str) -> (r: String)
    ensures
        s@.len() > 0 && s@.last() == '/' ==> r@ == s@,
        !(s@.len() > 0 && s@.last() == '/') ==> r@ == s@.push('/'),
{
    let n = s.unicode_len();
    if n > 0 && s.get_char(n - 1) == '/' {
        s.to_owned()
    } else {
        let mut r = s.to_owned();
        r.append("/");
        proof {
            reveal_strlit("/");
            assert(r@ =~= s@.push('/'));
        }
        r
    }
}

} // verus!
