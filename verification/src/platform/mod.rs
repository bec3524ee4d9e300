//! Platform entry points and the decisions of the bypass driver.
use vstd::prelude::*;

pub mod driver;
pub mod linux;
pub mod stub;

verus! {

/// Why a platform step failed.
#[derive(Clone, Debug)]
pub struct PlatformError {
    pub message: String,
}

/// The platforms this library knows.
#[derive(Clone, Copy, Debug, PartialEq, Eq, Structural)]
pub enum PlatformKind {
    Linux,
    Stub,
}

/// The name each platform reports.
pub open spec fn kind_name(k: PlatformKind) -> Seq<char> {
    match k {
        PlatformKind::Linux => "linux"@,
        PlatformKind::Stub => "stub"@,
    }
}

pub trait Platform {
    /// Which platform this is.
    spec fn kind(&self) -> PlatformKind;

    fn name(&self) -> (r: &'static str)
        ensures
            r@ == kind_name(self.kind()),
    ;

    fn setup(&self) -> Result<(), PlatformError>;

    fn teardown(&self) -> Result<(), PlatformError>;
}

/// The platform this build runs on: Linux.
pub fn current() -> (r: Box<dyn Platform>)
    ensures
        r.kind() == PlatformKind::Linux,
{
    let b: Box<linux::LinuxPlatform> = Box::new(linux::LinuxPlatform);
    return b;
}

} // verus!
