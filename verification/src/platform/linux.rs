//! The Linux platform: nfqws (NFQUEUE) + nftables + /etc/hosts, plus the
//! in-process Telegram proxy.
use vstd::prelude::*;
use super::{Platform, PlatformError, PlatformKind};

verus! {

pub struct LinuxPlatform;

impl Platform for LinuxPlatform {
    open spec fn kind(&self) -> PlatformKind {
        PlatformKind::Linux
    }

    fn name(&self) -> (r: &'static str) {
        proof {
            reveal_strlit("linux");
        }
        "linux"
    }

    fn setup(&self) -> (r: Result<(), PlatformError>)
        ensures
            r is Ok,
    {
        Ok(())
    }

    fn teardown(&self) -> (r: Result<(), PlatformError>)
        ensures
            r is Ok,
    {
        Ok(())
    }
}

pub fn platform() -> (r: Box<dyn Platform>)
    ensures
        r.kind() == PlatformKind::Linux,
{
    let b: Box<LinuxPlatform> = Box::new(LinuxPlatform);
    return b;
}

} // verus!
