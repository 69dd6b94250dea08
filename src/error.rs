use vstd::prelude::*;

verus! {

/// The ways a conversion can fail. Each ends the conversion it arose in.
#[derive(Clone, Copy, Debug, PartialEq, Eq, Structural)]
pub enum ConvertError {
    /// The bytes cannot be opened as a container, or it holds no video stream.
    InputFormatError,
    /// The decoder failed mid-stream outside the drain/flush protocol.
    DecodeError,
    /// The encoder is unavailable, or it rejected its configuration.
    EncoderInitError,
    /// The encoder rejected a frame or failed to hand out a packet.
    EncodeError,
    /// Writing the header, a packet or the trailer failed.
    MuxError,
    /// A read, write or seek callback failed at the buffer boundary.
    IOAdapterError,
    /// The output buffer was still shared when it was to be handed back.
    BufferOwnershipError,
}

impl ConvertError {
    /// A short description of the failure.
    pub fn message(&self) -> (r: &'static str) {
        match self {
            ConvertError::InputFormatError => "input is not a container with a video stream",
            ConvertError::DecodeError => "decoding failed",
            ConvertError::EncoderInitError => "encoder could not be set up",
            ConvertError::EncodeError => "encoding failed",
            ConvertError::MuxError => "writing the output container failed",
            ConvertError::IOAdapterError => "in-memory I/O failed",
            ConvertError::BufferOwnershipError => "output buffer still shared",
        }
    }
}

} // verus!
