//! Capture backends that exist in name only.
use vstd::prelude::*;

use crate::device::capabilities::DeviceCapabilities;
use crate::device::error::BackendError;

verus! {

/// Backend for Linux event devices. It is not implemented yet.
#[derive(Debug, Default)]
pub struct EvdevBackend;

/// Backend for macOS tablet events. It is not implemented yet.
#[derive(Debug, Default)]
pub struct MacosBackend;

/// The answer of every operation of a backend that is not there yet.
pub open spec fn not_there_yet(error: BackendError, name: Seq<char>) -> bool {
    error matches BackendError::NotImplemented { backend } && backend@ == name
}

impl EvdevBackend {
    /// A backend.
    pub fn new() -> (r: EvdevBackend)
        ensures
            r == EvdevBackend,
    {
        EvdevBackend
    }

    /// Describe the device.
    pub fn capabilities(&self) -> (r: Result<DeviceCapabilities, BackendError>)
        ensures
            r matches Err(e) && not_there_yet(e, "evdev"@),
    {
        Err(BackendError::NotImplemented { backend: "evdev" })
    }

    /// Begin capture.
    pub fn start(&mut self) -> (r: Result<(), BackendError>)
        ensures
            r matches Err(e) && not_there_yet(e, "evdev"@),
            *final(self) == *old(self),
    {
        Err(BackendError::NotImplemented { backend: "evdev" })
    }

    /// Stop capture.
    pub fn stop(&mut self) -> (r: Result<(), BackendError>)
        ensures
            r matches Err(e) && not_there_yet(e, "evdev"@),
            *final(self) == *old(self),
    {
        Err(BackendError::NotImplemented { backend: "evdev" })
    }
}

impl MacosBackend {
    /// A backend.
    pub fn new() -> (r: MacosBackend)
        ensures
            r == MacosBackend,
    {
        MacosBackend
    }

    /// Describe the device.
    pub fn capabilities(&self) -> (r: Result<DeviceCapabilities, BackendError>)
        ensures
            r matches Err(e) && not_there_yet(e, "macOS"@),
    {
        Err(BackendError::NotImplemented { backend: "macOS" })
    }

    /// Begin capture.
    pub fn start(&mut self) -> (r: Result<(), BackendError>)
        ensures
            r matches Err(e) && not_there_yet(e, "macOS"@),
            *final(self) == *old(self),
    {
        Err(BackendError::NotImplemented { backend: "macOS" })
    }

    /// Stop capture.
    pub fn stop(&mut self) -> (r: Result<(), BackendError>)
        ensures
            r matches Err(e) && not_there_yet(e, "macOS"@),
            *final(self) == *old(self),
    {
        Err(BackendError::NotImplemented { backend: "macOS" })
    }
}

/// Backends that are not there yet refuse everything, by their own name.
pub proof fn missing_backends_refuse_everything(
    linux: EvdevBackend,
    mac: MacosBackend,
    described: Result<DeviceCapabilities, BackendError>,
    mac_described: Result<DeviceCapabilities, BackendError>,
    started: &mut EvdevBackend,
    start: Result<(), BackendError>,
    mac_started: &mut MacosBackend,
    mac_start: Result<(), BackendError>,
)
    requires
        call_ensures(EvdevBackend::capabilities, (&linux,), described),
        call_ensures(MacosBackend::capabilities, (&mac,), mac_described),
        call_ensures(EvdevBackend::start, (started,), start),
        call_ensures(MacosBackend::start, (mac_started,), mac_start),
    ensures
        described matches Err(BackendError::NotImplemented { backend }) && backend@ == "evdev"@,
        mac_described matches Err(BackendError::NotImplemented { backend }) && backend@ == "macOS"@,
        start matches Err(BackendError::NotImplemented { backend }) && backend@ == "evdev"@,
        mac_start matches Err(BackendError::NotImplemented { backend }) && backend@ == "macOS"@,
{
}

} // verus!
