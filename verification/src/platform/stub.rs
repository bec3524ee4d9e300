//! The platform used where no network driver exists.
use vstd::prelude::*;
use super::{Platform, PlatformError, PlatformKind};

verus! {

pub struct StubPlatform;

impl Platform for StubPlatform {
    open spec fn kind(&self) -> PlatformKind {
        PlatformKind::Stub
    }

    fn name(&self) -> (r: &'static str) {
        proof {
            reveal_strlit("stub");
        }
        "stub"
    }

    fn setup(&self) -> (r: Result<(), PlatformError>)
        ensures
            r is Ok,
    {
        Ok(())
    }

    fn teardown(&self) -> (r: Result<(), PlatformError>)
        ensures
            r is Ok,
    {
        Ok(())
    }
}

pub fn platform() -> (r: Box<dyn Platform>)
    ensures
        r.kind() == PlatformKind::Stub,
{
    let b: Box<StubPlatform> = Box::new(StubPlatform);
    return b;
}

} // verus!
