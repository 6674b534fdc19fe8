use vstd::prelude::*;

verus! {

/// Every failure the protocol, the device binding and the channel can report.
#[derive(Debug, Clone, Copy, PartialEq, Eq, Structural)]
pub enum BrightyError {
    /// Fewer bytes than one frame were available.
    TruncatedFrame,
    /// The frame's tag byte is not a known command tag.
    InvalidTag,
    /// A device name in a frame is not valid UTF-8.
    InvalidEncoding,
    /// A device name is too long to fit in one frame.
    NameTooLong,
    /// The device directory or one of its control files is absent.
    DeviceNotFound,
    /// A control file could not be opened for lack of access rights.
    PermissionDenied,
    /// A control file does not hold an unsigned decimal integer.
    MalformedValue,
    /// The channel endpoint is missing or does not accept connections.
    ChannelUnavailable,
    /// The new brightness could not be written to the device.
    PersistFailure,
}

} // verus!
