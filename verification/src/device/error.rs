//! What can go wrong in a capture backend.
use vstd::prelude::*;
use vstd::string::StringExecFns;

use crate::text::{decimal, decimal_text};

verus! {

/// Errors of a capture backend.
#[derive(Clone, Debug, PartialEq, Eq)]
pub enum BackendError {
    /// The tablet driver is not installed or not running.
    DriverMissing,
    /// No tablet, or none that presents as a digitizer.
    NoDevice,
    /// The driver gave no capture context.
    ContextOpenFailed,
    /// The device lacks an axis or field.
    UnsupportedField { field: String },
    /// The backend is not there yet.
    NotImplemented { backend: &'static str },
    /// Registering for raw input failed.
    RawInputRegistrationFailed { win32_error: u32 },
    /// A transport failed.
    Transport(String),
}

impl BackendError {
    /// The message for the user.
    pub open spec fn message_text(self) -> Seq<char> {
        match self {
            BackendError::DriverMissing => {
                "Wacom Wintab driver not found or not live. Please install the Wacom tablet driver from https://www.wacom.com/en-us/support/product-support/drivers"@
            },
            BackendError::NoDevice => {
                "No tablet device found. Ensure your Wacom tablet is connected and powered on, and that \"Use Windows Ink\" is enabled in Wacom Tablet Properties (required for the pen to present as a standard HID digitizer)."@
            },
            BackendError::ContextOpenFailed => {
                "Failed to open a Wintab capture context (WTOpen returned null). The driver may be in use by another application."@
            },
            BackendError::UnsupportedField { field } => {
                "The requested axis or field '"@ + field@ + "' is not supported by this device."@
            },
            BackendError::NotImplemented { backend } => "The "@ + backend@ + " backend is not implemented yet."@,
            BackendError::RawInputRegistrationFailed { win32_error } => {
                "Failed to register for Raw Input (Win32 error "@ + decimal_text(win32_error as nat) + ")."@
            },
            BackendError::Transport(detail) => "Transport I/O error: "@ + detail@,
        }
    }

    /// The message for the user.
    pub fn message(&self) -> (r: String)
        ensures
            r@ == self.message_text(),
    {
        match self {
            BackendError::DriverMissing => {
                "Wacom Wintab driver not found or not live. Please install the Wacom tablet driver from https://www.wacom.com/en-us/support/product-support/drivers".to_owned()
            },
            BackendError::NoDevice => {
                "No tablet device found. Ensure your Wacom tablet is connected and powered on, and that \"Use Windows Ink\" is enabled in Wacom Tablet Properties (required for the pen to present as a standard HID digitizer).".to_owned()
            },
            BackendError::ContextOpenFailed => {
                "Failed to open a Wintab capture context (WTOpen returned null). The driver may be in use by another application.".to_owned()
            },
            BackendError::UnsupportedField { field } => {
                "The requested axis or field '".to_owned().concat(field.as_str()).concat(
                    "' is not supported by this device.",
                )
            },
            BackendError::NotImplemented { backend } => {
                "The ".to_owned().concat(backend).concat(" backend is not implemented yet.")
            },
            BackendError::RawInputRegistrationFailed { win32_error } => {
                "Failed to register for Raw Input (Win32 error ".to_owned().concat(
                    decimal(*win32_error as u64).as_str(),
                ).concat(").")
            },
            BackendError::Transport(detail) => "Transport I/O error: ".to_owned().concat(detail.as_str()),
        }
    }
}

/// Messages quote the field, the backend, the number or the detail of the error.
pub proof fn messages_quote_their_detail(error: BackendError, r: String, number: String)
    requires
        call_ensures(BackendError::message, (&error,), r),
        error matches BackendError::RawInputRegistrationFailed { win32_error } ==> call_ensures(
            decimal,
            (win32_error as u64,),
            number,
        ),
    ensures
        error matches BackendError::UnsupportedField { field } ==> r@ == "The requested axis or field '"@ + field@
            + "' is not supported by this device."@,
        error matches BackendError::NotImplemented { backend } ==> r@ == "The "@ + backend@
            + " backend is not implemented yet."@,
        error is RawInputRegistrationFailed ==> r@ == "Failed to register for Raw Input (Win32 error "@ + number@ + ")."@,
        error matches BackendError::Transport(detail) ==> r@ == "Transport I/O error: "@ + detail@,
{
}

} // verus!
