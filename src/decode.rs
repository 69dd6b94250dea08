use vstd::prelude::*;

verus! {

/// The answer a codec or muxer call gives back.
#[derive(Clone, Copy, Debug, PartialEq, Eq, Structural)]
pub enum Status {
    /// The call succeeded.
    Done,
    /// The codec needs more input before it can hand anything out.
    Again,
    /// The codec is fully flushed.
    Eof,
    /// The call failed with this backend error code.
    Failed { code: i32 },
}

/// Where the frame decoder stands.
#[derive(Clone, Copy, Debug, PartialEq, Eq, Structural)]
pub enum DecodeState {
    /// The next demuxed packet is wanted.
    NeedPacket,
    /// A packet went to the decoder; a frame is being asked for.
    NeedFrame,
    /// The source is exhausted; the decoder is being drained.
    Draining,
    /// The decoder is fully flushed: no frame will come any more.
    Flushed,
}

/// What the driver reports back to the frame decoder.
#[derive(Clone, Copy, Debug, PartialEq, Eq, Structural)]
pub enum DecodeEvent {
    /// The consumer asks for the next frame.
    Resume,
    /// The demuxer handed out a packet of this stream.
    Packet { stream_index: usize },
    /// The demuxer has no packet left.
    EndOfStream,
    /// The demuxer failed to read a packet.
    ReadFailed,
    /// The decoder's answer to a packet or a flush signal.
    Sent { status: Status },
    /// The decoder's answer to a request for a frame.
    Received { status: Status },
}

/// What the frame decoder asks the driver to do next.
#[derive(Clone, Copy, Debug, PartialEq, Eq, Structural)]
pub enum DecodeAction {
    /// Read the next packet from the demuxer.
    ReadPacket,
    /// Hand the packet just read to the decoder.
    SendPacket,
    /// Hand the decoder the end-of-stream signal instead of a packet.
    SendFlush,
    /// Ask the decoder for a frame.
    ReceiveFrame,
    /// The frame just received is the next frame of the sequence.
    EmitFrame,
    /// The sequence of frames is over.
    Finish,
    /// Decoding failed: the conversion ends with a decode error.
    Fail,
}

/// An answer to handing the decoder input that lets decoding go on: accepted,
/// or refused only because the decoder is already flushed.
pub open spec fn send_ok(s: Status) -> bool {
    s is Done || s is Eof
}

/// The transition table of the frame decoder, selecting `stream`.
pub open spec fn decode_next(state: DecodeState, stream: usize, event: DecodeEvent) -> (
    DecodeState,
    DecodeAction,
) {
    match state {
        DecodeState::NeedPacket => match event {
            DecodeEvent::Resume => (DecodeState::NeedPacket, DecodeAction::ReadPacket),
            DecodeEvent::Packet { stream_index } => if stream_index == stream {
                (DecodeState::NeedFrame, DecodeAction::SendPacket)
            } else {
                (DecodeState::NeedPacket, DecodeAction::ReadPacket)
            },
            DecodeEvent::EndOfStream => (DecodeState::Draining, DecodeAction::SendFlush),
            _ => (DecodeState::NeedPacket, DecodeAction::Fail),
        },
        DecodeState::NeedFrame => match event {
            DecodeEvent::Sent { status } => if send_ok(status) {
                (DecodeState::NeedFrame, DecodeAction::ReceiveFrame)
            } else {
                (DecodeState::NeedFrame, DecodeAction::Fail)
            },
            DecodeEvent::Received { status } => match status {
                Status::Done => (DecodeState::NeedPacket, DecodeAction::EmitFrame),
                Status::Again => (DecodeState::NeedPacket, DecodeAction::ReadPacket),
                Status::Eof => (DecodeState::Flushed, DecodeAction::Finish),
                Status::Failed { .. } => (DecodeState::NeedFrame, DecodeAction::Fail),
            },
            _ => (DecodeState::NeedFrame, DecodeAction::Fail),
        },
        DecodeState::Draining => match event {
            DecodeEvent::Resume => (DecodeState::Draining, DecodeAction::ReceiveFrame),
            DecodeEvent::Sent { status } => if send_ok(status) {
                (DecodeState::Draining, DecodeAction::ReceiveFrame)
            } else {
                (DecodeState::Draining, DecodeAction::Fail)
            },
            DecodeEvent::Received { status } => match status {
                Status::Done => (DecodeState::Draining, DecodeAction::EmitFrame),
                Status::Again => (DecodeState::Draining, DecodeAction::SendFlush),
                Status::Eof => (DecodeState::Flushed, DecodeAction::Finish),
                Status::Failed { .. } => (DecodeState::Draining, DecodeAction::Fail),
            },
            _ => (DecodeState::Draining, DecodeAction::Fail),
        },
        DecodeState::Flushed => (DecodeState::Flushed, DecodeAction::Finish),
    }
}

/// Turns demuxed packets of one stream into decoded frames: a lazy, finite,
/// non-restartable sequence driven one event at a time.
pub struct FrameDecoder {
    pub state: DecodeState,
    pub stream_index: usize,
}

impl FrameDecoder {
    pub fn new(stream_index: usize) -> (r: FrameDecoder)
        ensures
            r.state == DecodeState::NeedPacket,
            r.stream_index == stream_index,
    {
        FrameDecoder { state: DecodeState::NeedPacket, stream_index }
    }

    /// Takes the driver's report and says what to do next.
    pub fn step(&mut self, event: DecodeEvent) -> (r: DecodeAction)
        ensures
            final(self).stream_index == old(self).stream_index,
            (final(self).state, r) == decode_next(
                old(self).state,
                old(self).stream_index,
                event,
            ),
    {
        let stream = self.stream_index;
        let (next, action) = match self.state {
            DecodeState::NeedPacket => match event {
                DecodeEvent::Resume => (DecodeState::NeedPacket, DecodeAction::ReadPacket),
                DecodeEvent::Packet { stream_index } => if stream_index == stream {
                    (DecodeState::NeedFrame, DecodeAction::SendPacket)
                } else {
                    (DecodeState::NeedPacket, DecodeAction::ReadPacket)
                },
                DecodeEvent::EndOfStream => (DecodeState::Draining, DecodeAction::SendFlush),
                _ => (DecodeState::NeedPacket, DecodeAction::Fail),
            },
            DecodeState::NeedFrame => match event {
                DecodeEvent::Sent { status } => match status {
                    Status::Done | Status::Eof => (
                        DecodeState::NeedFrame,
                        DecodeAction::ReceiveFrame,
                    ),
                    _ => (DecodeState::NeedFrame, DecodeAction::Fail),
                },
                DecodeEvent::Received { status } => match status {
                    Status::Done => (DecodeState::NeedPacket, DecodeAction::EmitFrame),
                    Status::Again => (DecodeState::NeedPacket, DecodeAction::ReadPacket),
                    Status::Eof => (DecodeState::Flushed, DecodeAction::Finish),
                    Status::Failed { .. } => (DecodeState::NeedFrame, DecodeAction::Fail),
                },
                _ => (DecodeState::NeedFrame, DecodeAction::Fail),
            },
            DecodeState::Draining => match event {
                DecodeEvent::Resume => (DecodeState::Draining, DecodeAction::ReceiveFrame),
                DecodeEvent::Sent { status } => match status {
                    Status::Done | Status::Eof => (
                        DecodeState::Draining,
                        DecodeAction::ReceiveFrame,
                    ),
                    _ => (DecodeState::Draining, DecodeAction::Fail),
                },
                DecodeEvent::Received { status } => match status {
                    Status::Done => (DecodeState::Draining, DecodeAction::EmitFrame),
                    Status::Again => (DecodeState::Draining, DecodeAction::SendFlush),
                    Status::Eof => (DecodeState::Flushed, DecodeAction::Finish),
                    Status::Failed { .. } => (DecodeState::Draining, DecodeAction::Fail),
                },
                _ => (DecodeState::Draining, DecodeAction::Fail),
            },
            DecodeState::Flushed => (DecodeState::Flushed, DecodeAction::Finish),
        };
        self.state = next;
        action
    }
}

/// Packets of any stream but the selected one are discarded: the decoder
/// stays where it was and asks for the next packet.
pub proof fn lemma_foreign_packet_discarded(stream: usize, other: usize)
    requires
        other != stream,
    ensures
        decode_next(DecodeState::NeedPacket, stream, DecodeEvent::Packet { stream_index: other })
            == (DecodeState::NeedPacket, DecodeAction::ReadPacket),
{
}

/// Once draining has begun the decoder never asks for packets again: every
/// event leaves it draining or flushed.
pub proof fn lemma_drain_is_final(state: DecodeState, stream: usize, event: DecodeEvent)
    requires
        state is Draining || state is Flushed,
    ensures
        decode_next(state, stream, event).0 is Draining || decode_next(state, stream, event).0 is Flushed,
        decode_next(state, stream, event).1 != DecodeAction::ReadPacket,
        decode_next(state, stream, event).1 != DecodeAction::SendPacket,
{
}

/// After the end of the stream, the decoder's protocol answers never end in
/// an error: a drain fails only on an answer that is itself a failure.
pub proof fn lemma_drain_never_fails(stream: usize, event: DecodeEvent)
    requires
        match event {
            DecodeEvent::Resume => true,
            DecodeEvent::Sent { status } => send_ok(status),
            DecodeEvent::Received { status } => !(status is Failed),
            _ => false,
        },
    ensures
        decode_next(DecodeState::Draining, stream, event).1 != DecodeAction::Fail,
{
}

/// The flushed state is terminal: nothing leaves it and the sequence stays over.
pub proof fn lemma_flushed_is_terminal(stream: usize, event: DecodeEvent)
    ensures
        decode_next(DecodeState::Flushed, stream, event) == (
            DecodeState::Flushed,
            DecodeAction::Finish,
        ),
{
}

/// A frame is handed out only in answer to a successful request for one.
pub proof fn lemma_emit_only_on_frame(state: DecodeState, stream: usize, event: DecodeEvent)
    requires
        decode_next(state, stream, event).1 == DecodeAction::EmitFrame,
    ensures
        event == (DecodeEvent::Received { status: Status::Done }),
        state is NeedFrame || state is Draining,
{
}

} // verus!
