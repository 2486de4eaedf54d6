//! Timing of decoded video frames.
use vstd::prelude::*;

verus! {

/// When a decoded frame is shown: its number in the stream, its start and
/// its duration in the stream's time units.
#[derive(Debug, Clone, Copy, PartialEq, Eq, Structural)]
pub struct FrameTiming {
    pub frame_number: u32,
    pub start_time: u64,
    pub duration: u32,
}

} // verus!

verus! {

/// The native decoder's "try again" code: no frame is ready yet.
pub const AVERROR_EAGAIN: i32 = -11;

/// The native decoder's end-of-stream code (the tag `"EOF "`, negated).
pub const AVERROR_EOF: i32 = -0x20464f45;

/// Why feeding data to the native decoder failed, with its return code.
#[derive(Debug, Clone, Copy, PartialEq, Eq, Structural)]
pub enum DecodeError {
    ParseFailed(i32),
    PacketSendFailed(i32),
}

/// Why taking a frame from the native decoder failed.
#[derive(Debug, Clone, Copy, PartialEq, Eq, Structural)]
pub enum ReceiveError {
    ReceiveFailed(i32),
    EndOfFile,
}

/// What a receive return code means: `Ok(true)` a frame is ready, `Ok(false)`
/// none is yet, or the error.
pub open spec fn receive_outcome_spec(ret: i32) -> Result<bool, ReceiveError> {
    if ret == AVERROR_EAGAIN {
        Ok(false)
    } else if ret == AVERROR_EOF {
        Err(ReceiveError::EndOfFile)
    } else if ret < 0 {
        Err(ReceiveError::ReceiveFailed(ret))
    } else {
        Ok(true)
    }
}

/// Classifies the native decoder's receive return code.
pub fn receive_outcome(ret: i32) -> (r: Result<bool, ReceiveError>)
    ensures
        r == receive_outcome_spec(ret),
{
    if ret == AVERROR_EAGAIN {
        Ok(false)
    } else if ret == AVERROR_EOF {
        Err(ReceiveError::EndOfFile)
    } else if ret < 0 {
        Err(ReceiveError::ReceiveFailed(ret))
    } else {
        Ok(true)
    }
}

} // verus!
