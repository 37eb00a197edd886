use vstd::prelude::*;

verus! {

/// Everything that can go wrong while talking to a device.
#[derive(Debug)]
pub enum SscError {
    /// An error of the underlying socket.
    IOError(std::io::Error),
    /// An error of the mDNS lookup.
    MDNSError(mdns_sd::Error),
    /// A channel that delivers replies was closed.
    FlumeError(flume::RecvError),
    /// A JSON text could not be decoded, or did not have the expected shape.
    JsonParseError(serde_json::Error),
    /// The reply could not be handed over to the waiting request.
    ProcessingResponseError,
    /// The device answered with an error.
    OSCError { code: u32, message: String },
    /// The reply was for a different path than the request.
    UnexpectedPath,
    /// An SSC path was given that is not syntactically valid.
    InvalidPath,
    /// The device did not answer in time.
    RequestTimeout,
}

/// The result of the library's operations.
pub type Result<T> = core::result::Result<T, SscError>;

} // verus!
