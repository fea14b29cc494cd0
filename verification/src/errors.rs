use vstd::prelude::*;

verus! {

/// The failure modes of the lifecycle and port-arbitration core.
///
/// Validation errors (`NoHtmlFiles`, `NotUnderSiteRoot`,
/// `FilenameRequiresRoot`) are detected before any resource is acquired;
/// `NoPortAvailable` and `StartupFailed` are resource-acquisition failures;
/// `TerminateFailed` is reported when neither termination path worked;
/// `PortProbeUnavailable` marks a degraded probe, and `BrowserOpenFailed`
/// is non-fatal.
#[derive(Clone, Copy, Debug, PartialEq, Eq, Structural)]
pub enum Error {
    NoHtmlFiles,
    NotUnderSiteRoot,
    FilenameRequiresRoot,
    NoPortAvailable,
    StartupFailed,
    TerminateFailed,
    PortProbeUnavailable,
    BrowserOpenFailed,
}

} // verus!
