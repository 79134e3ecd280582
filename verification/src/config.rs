//! Process configuration, as plain values. The edge fills this from
//! flags and environment; omitting `host` disables the HTTP surface,
//! omitting `broker` disables ingestion.

use vstd::prelude::*;

verus! {

/// The configuration the process starts from.
pub struct CliArgs {
    pub host: Option<String>,
    pub broker: Option<String>,
    pub database_url: String,
}

impl CliArgs {
    /// With neither subsystem configured the process has nothing to
    /// do and merely stays alive.
    pub open spec fn spec_idles(&self) -> bool {
        self.host is None && self.broker is None
    }

    /// Runtime check matching `spec_idles`.
    pub fn idles(&self) -> (r: bool)
        ensures
            r == self.spec_idles(),
    {
        self.host.is_none() && self.broker.is_none()
    }
}

} // verus!
