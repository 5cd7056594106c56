//! Metadata candidate selection.
//!
//! The fetcher probes an ordered list of candidate index filenames —
//! canonical uncompressed form first, then the compressed variants — and
//! records every candidate that fully succeeds, in attempt order. After
//! exhausting the list it decodes the *last* success, not the first;
//! that favours the least-preferred successful format. It is a deliberate
//! quirk of this tool, stated here exactly so that nobody "fixes" it to
//! first-wins without noticing the change in which file gets decoded.
use vstd::prelude::*;

verus! {

/// The ordered candidate index filenames, most preferred first.
pub fn metadata_candidates() -> (v: Vec<String>)
    ensures
        v@.len() == 5,
        v@[0]@ == "Packages"@,
        v@[1]@ == "Packages.xz"@,
        v@[2]@ == "Packages.gz"@,
        v@[3]@ == "Packages.bz2"@,
        v@[4]@ == "Packages.lzma"@,
{
    let mut v: Vec<String> = Vec::new();
    v.push("Packages".to_owned());
    v.push("Packages.xz".to_owned());
    v.push("Packages.gz".to_owned());
    v.push("Packages.bz2".to_owned());
    v.push("Packages.lzma".to_owned());
    v
}

/// The names of the candidates that fully succeeded, in attempt order.
#[derive(Debug)]
pub struct FetchLog {
    pub succeeded: Vec<String>,
}

impl FetchLog {
    /// A log with no successful candidate yet.
    pub fn new() -> (log: FetchLog)
        ensures
            log.succeeded@.len() == 0,
    {
        FetchLog { succeeded: Vec::new() }
    }

    /// Records that `name` was fetched and persisted without any error.
    /// A failed candidate is never recorded: the fetcher only logs it
    /// and moves on to the next.
    pub fn record_success(&mut self, name: String)
        ensures
            final(self).succeeded@ == old(self).succeeded@.push(name),
    {
        self.succeeded.push(name);
    }

    /// The candidate whose content is decoded: the last success in
    /// attempt order, or `None` when no candidate succeeded at all — a
    /// fatal condition for the run.
    pub fn selected(&self) -> (r: Option<&String>)
        ensures
            r is Some <==> self.succeeded@.len() > 0,
            r matches Some(name) ==> *name == self.succeeded@[self.succeeded@.len() - 1],
    {
        if self.succeeded.len() == 0 {
            None
        } else {
            Some(&self.succeeded[self.succeeded.len() - 1])
        }
    }
}

} // verus!
