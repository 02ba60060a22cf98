//! Pens and tablet pads seen through HID reports.
pub mod block;
pub mod caps;
pub mod capture;
pub mod decode;
pub mod enumerate;
pub mod hid;
pub mod laws;
pub mod pad;
pub mod session;
