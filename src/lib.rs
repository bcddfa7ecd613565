//! Types keystrokes into a Linux terminal: the bytes of a message are pushed,
//! one control call each, into the input queue of a terminal device.
//!
//! The library holds what is decided along the way: the device path handed to
//! the open call, the bytes to push, and the order of the calls (open, one
//! injection per byte, close), as a state machine whose caller performs each
//! call and reports its outcome.

pub mod device_path;
pub mod payload;
pub mod session;
