use vstd::prelude::*;

use crate::decode::{
    decode_next, DecodeAction, DecodeEvent, DecodeState, FrameDecoder,
    Status,
};
use crate::error::ConvertError;

verus! {

/// Name of the H.264 encoder asked for.
pub const ENCODER_NAME: &'static str = "libx264";

/// Speed/quality preset handed to the encoder.
pub const ENCODER_PRESET: &'static str = "slow";

/// Planar 4:2:0 pixel format code, the encoder's input layout.
pub const PIX_FMT_YUV420P: i32 = 0;

/// Target bit rate of the encoded stream, in bits per second.
pub const BIT_RATE: i64 = 200000;

/// Keyframe interval, in frames.
pub const GOP_SIZE: i32 = 12;

/// Most B-frames between two reference frames.
pub const MAX_B_FRAMES: i32 = 0;

/// Backend code of the one muxer error that is tolerated: an invalid
/// argument raised for a duplicate or out-of-range packet timestamp.
pub const AVERROR_EINVAL: i32 = -22;

/// A rational number, as time bases and frame rates are given.
#[derive(Clone, Copy, Debug, PartialEq, Eq, Structural)]
pub struct Rational {
    pub num: i32,
    pub den: i32,
}

/// The selected video stream of the source.
#[derive(Clone, Copy, Debug, PartialEq, Eq, Structural)]
pub struct StreamInfo {
    pub index: usize,
    pub time_base: Rational,
    pub frame_rate: Rational,
}

/// What the pipeline reads of a decoded frame.
#[derive(Clone, Copy, Debug, PartialEq, Eq, Structural)]
pub struct FrameInfo {
    pub width: i32,
    pub height: i32,
    pub format: i32,
}

/// How the encoder is configured.
#[derive(Clone, Copy, Debug, PartialEq, Eq, Structural)]
pub struct EncoderConfig {
    pub width: i32,
    pub height: i32,
    pub time_base: Rational,
    pub frame_rate: Rational,
    pub pix_fmt: i32,
    pub bit_rate: i64,
    pub gop_size: i32,
    pub max_b_frames: i32,
    /// The container wants codec headers out of band.
    pub global_header: bool,
}

/// The encoder configuration for a source whose first frame is `first`.
pub open spec fn spec_encoder_config(first: FrameInfo, stream: StreamInfo, global_header: bool) -> EncoderConfig {
    EncoderConfig {
        width: first.width,
        height: first.height,
        time_base: stream.time_base,
        frame_rate: stream.frame_rate,
        pix_fmt: PIX_FMT_YUV420P,
        bit_rate: BIT_RATE,
        gop_size: GOP_SIZE,
        max_b_frames: MAX_B_FRAMES,
        global_header,
    }
}

/// `cfg` is an encoder configuration for `stream`: the stream's timing, the
/// fixed pixel format, rate and group sizes, and the container's header flag.
pub open spec fn config_fits(cfg: EncoderConfig, stream: StreamInfo, global_header: bool) -> bool {
    &&& cfg.time_base == stream.time_base
    &&& cfg.frame_rate == stream.frame_rate
    &&& cfg.pix_fmt == PIX_FMT_YUV420P
    &&& cfg.bit_rate == BIT_RATE
    &&& cfg.gop_size == GOP_SIZE
    &&& cfg.max_b_frames == MAX_B_FRAMES
    &&& cfg.global_header == global_header
}

/// Sizes the encoder from the first frame, and times it from the source stream.
pub fn encoder_config(first: FrameInfo, stream: StreamInfo, global_header: bool) -> (r: EncoderConfig)
    ensures
        r == spec_encoder_config(first, stream, global_header),
{
    EncoderConfig {
        width: first.width,
        height: first.height,
        time_base: stream.time_base,
        frame_rate: stream.frame_rate,
        pix_fmt: PIX_FMT_YUV420P,
        bit_rate: BIT_RATE,
        gop_size: GOP_SIZE,
        max_b_frames: MAX_B_FRAMES,
        global_header,
    }
}

/// A frame goes through the scaler only when its pixel format differs from
/// the encoder's; otherwise it is handed on as it is.
pub fn needs_conversion(frame: FrameInfo, config: EncoderConfig) -> (r: bool)
    ensures
        r == (frame.format != config.pix_fmt),
{
    frame.format != config.pix_fmt
}

/// What a packet write's answer means: written, or dropped because the
/// muxer refused its timestamp; any other failure is a mux error.
pub fn write_outcome(status: Status) -> (r: Result<(), ConvertError>)
    ensures
        r is Ok <==> (status == Status::Done || status == (Status::Failed {
            code: AVERROR_EINVAL,
        })),
        r is Err ==> r == Err::<(), ConvertError>(ConvertError::MuxError),
{
    match status {
        Status::Done => Ok(()),
        Status::Failed { code } => if code == AVERROR_EINVAL {
            Ok(())
        } else {
            Err(ConvertError::MuxError)
        },
        _ => Err(ConvertError::MuxError),
    }
}

/// Where a conversion stands.
#[derive(Clone, Copy, Debug, PartialEq, Eq, Structural)]
pub enum Stage {
    /// The input is to be opened and its video stream found.
    Opening,
    /// Frames are being pulled from the decoder.
    Decoding,
    /// The encoder is being set up from the first frame.
    SettingUp,
    /// The container header is being written.
    WritingHeader,
    /// A frame is being handed to the encoder.
    SendingFrame,
    /// The flush signal is being handed to the encoder.
    Flushing,
    /// Encoded packets are being pulled; `flushing` after the flush signal.
    ReceivingPacket { flushing: bool },
    /// A packet is being written to the container.
    WritingPacket { flushing: bool },
    /// The container trailer is being written.
    WritingTrailer,
    /// The output buffer is being taken back.
    Extracting,
    /// The output is ready.
    Done,
    /// The conversion failed.
    Failed { error: ConvertError },
}

/// What the driver reports back after doing what was asked.
#[derive(Clone, Copy, Debug, PartialEq, Eq, Structural)]
pub enum Event {
    /// The conversion begins.
    Start,
    /// The input opened, with this video stream selected.
    Opened { stream: StreamInfo, global_header: bool },
    /// The input cannot be opened, or it holds no video stream.
    Rejected,
    /// The demuxer handed out a packet of this stream.
    Packet { stream_index: usize },
    /// The demuxer has no packet left.
    EndOfStream,
    /// The demuxer failed to read a packet.
    ReadFailed,
    /// The decoder handed out a frame.
    Frame { frame: FrameInfo },
    /// A codec's answer to input (a packet, a frame or a flush signal).
    Sent { status: Status },
    /// A codec's answer to a request for output, when it handed out no frame;
    /// for the encoder, `Done` means a packet is ready.
    Received { status: Status },
    /// The answer to setting up the encoder, or to a write or the extraction.
    Answer { status: Status },
    /// A read, write or seek callback on the in-memory buffer failed.
    IoFailed,
}

/// What the conversion asks the driver to do next.
#[derive(Clone, Copy, Debug, PartialEq, Eq, Structural)]
pub enum Action {
    /// Open the input and find its best video stream.
    OpenInput,
    /// Read the next packet from the demuxer.
    ReadPacket,
    /// Hand the packet just read to the decoder.
    SendPacket,
    /// Hand the decoder the end-of-stream signal.
    SendFlush,
    /// Ask the decoder for a frame.
    ReceiveFrame,
    /// Set up and open the encoder, and attach its parameters to a new output stream.
    SetUpEncoder { config: EncoderConfig },
    /// Write the container header.
    WriteHeader,
    /// Hand the current frame to the encoder, through the scaler when `convert`.
    EncodeFrame { convert: bool },
    /// Hand the encoder the flush signal.
    FlushEncoder,
    /// Ask the encoder for a packet.
    ReceivePacket,
    /// Write the packet just received, rescaled to the output stream, interleaved.
    WritePacket,
    /// Write the container trailer.
    WriteTrailer,
    /// Take back the output buffer; it must no longer be shared.
    Extract,
    /// The output buffer is the result.
    Deliver,
    /// The conversion ends with this error.
    Fail { error: ConvertError },
}

/// One conversion from source bytes to MP4 bytes, driven one event at a time.
pub struct Conversion {
    pub stage: Stage,
    pub decoder: FrameDecoder,
    pub stream: Option<StreamInfo>,
    pub global_header: bool,
    pub config: Option<EncoderConfig>,
    /// The frame being handed to the encoder needs the scaler.
    pub convert: bool,
    pub header_written: bool,
    pub trailer_written: bool,
    /// Frames the decoder has handed out so far.
    pub frames_decoded: Ghost<nat>,
    /// Frames handed to the encoder so far.
    pub frames_encoded: Ghost<nat>,
}

/// The next stage and action after the decoder asked for `action`.
pub open spec fn after_decoder(c: Conversion, dec: FrameDecoder, action: DecodeAction, frame: Option<FrameInfo>) -> (Conversion, Action) {
    let c = Conversion { decoder: dec, ..c };
    match action {
        DecodeAction::ReadPacket => (c, Action::ReadPacket),
        DecodeAction::SendPacket => (c, Action::SendPacket),
        DecodeAction::SendFlush => (c, Action::SendFlush),
        DecodeAction::ReceiveFrame => (c, Action::ReceiveFrame),
        DecodeAction::EmitFrame => match (frame, c.config, c.stream) {
            (Some(f), None, Some(s)) => {
                let cfg = spec_encoder_config(f, s, c.global_header);
                let c = Conversion {
                    stage: Stage::SettingUp,
                    config: Some(cfg),
                    convert: f.format != cfg.pix_fmt,
                    frames_decoded: Ghost(c.frames_decoded@ + 1),
                    ..c
                };
                (c, Action::SetUpEncoder { config: cfg })
            },
            (Some(f), Some(cfg), _) => {
                let c = Conversion {
                    stage: Stage::SendingFrame,
                    convert: f.format != cfg.pix_fmt,
                    frames_decoded: Ghost(c.frames_decoded@ + 1),
                    ..c
                };
                (c, Action::EncodeFrame { convert: f.format != cfg.pix_fmt })
            },
            _ => fail(c, ConvertError::DecodeError),
        },
        DecodeAction::Finish => if c.config is Some {
            (Conversion { stage: Stage::Flushing, ..c }, Action::FlushEncoder)
        } else {
            fail(c, ConvertError::DecodeError)
        },
        DecodeAction::Fail => fail(c, ConvertError::DecodeError),
    }
}

/// The conversion ends with `error`.
pub open spec fn fail(c: Conversion, error: ConvertError) -> (Conversion, Action) {
    (Conversion { stage: Stage::Failed { error }, ..c }, Action::Fail { error })
}

/// The event as the frame decoder sees it, if it is one for the decoder.
pub open spec fn decode_event(e: Event) -> Option<DecodeEvent> {
    match e {
        Event::Packet { stream_index } => Some(DecodeEvent::Packet { stream_index }),
        Event::EndOfStream => Some(DecodeEvent::EndOfStream),
        Event::ReadFailed => Some(DecodeEvent::ReadFailed),
        Event::Frame { .. } => Some(DecodeEvent::Received { status: Status::Done }),
        Event::Sent { status } => Some(DecodeEvent::Sent { status }),
        Event::Received { status } => if status is Done {
            None
        } else {
            Some(DecodeEvent::Received { status })
        },
        _ => None,
    }
}

/// The frame an event carries.
pub open spec fn event_frame(e: Event) -> Option<FrameInfo> {
    match e {
        Event::Frame { frame } => Some(frame),
        _ => None,
    }
}

/// The transition table of a conversion: a failed buffer callback ends a
/// conversion that is still running with an I/O adapter error.
pub open spec fn conversion_next(c: Conversion, e: Event) -> (Conversion, Action) {
    if e is IoFailed && !(c.stage is Done) && !(c.stage is Failed) {
        fail(c, ConvertError::IOAdapterError)
    } else {
        stage_next(c, e)
    }
}

/// The transition table of a conversion, stage by stage.
pub open spec fn stage_next(c: Conversion, e: Event) -> (Conversion, Action) {
    match c.stage {
        Stage::Opening => match e {
            Event::Start => (c, Action::OpenInput),
            Event::Opened { stream, global_header } => {
                let dec = FrameDecoder { state: DecodeState::NeedPacket, stream_index: stream.index };
                let c = Conversion { stage: Stage::Decoding, stream: Some(stream), global_header, ..c };
                (Conversion { decoder: dec, ..c }, Action::ReadPacket)
            },
            _ => fail(c, ConvertError::InputFormatError),
        },
        Stage::Decoding => match decode_event(e) {
            Some(de) => {
                let (st, a) = decode_next(c.decoder.state, c.decoder.stream_index, de);
                after_decoder(c, FrameDecoder { state: st, ..c.decoder }, a, event_frame(e))
            },
            None => fail(c, ConvertError::DecodeError),
        },
        Stage::SettingUp => match e {
            Event::Answer { status: Status::Done } => (
                Conversion { stage: Stage::WritingHeader, ..c },
                Action::WriteHeader,
            ),
            _ => fail(c, ConvertError::EncoderInitError),
        },
        Stage::WritingHeader => match e {
            Event::Answer { status: Status::Done } => (
                Conversion { stage: Stage::SendingFrame, header_written: true, ..c },
                Action::EncodeFrame { convert: c.convert },
            ),
            _ => fail(c, ConvertError::MuxError),
        },
        Stage::SendingFrame => match e {
            Event::Sent { status: Status::Done } => (
                Conversion {
                    stage: Stage::ReceivingPacket { flushing: false },
                    frames_encoded: Ghost(c.frames_encoded@ + 1),
                    ..c
                },
                Action::ReceivePacket,
            ),
            _ => fail(c, ConvertError::EncodeError),
        },
        Stage::Flushing => match e {
            Event::Sent { status } => if status is Done || status is Eof {
                (Conversion { stage: Stage::ReceivingPacket { flushing: true }, ..c }, Action::ReceivePacket)
            } else {
                fail(c, ConvertError::EncodeError)
            },
            _ => fail(c, ConvertError::EncodeError),
        },
        Stage::ReceivingPacket { flushing } => match e {
            Event::Received { status } => match status {
                Status::Done => (Conversion { stage: Stage::WritingPacket { flushing }, ..c }, Action::WritePacket),
                Status::Failed { .. } => fail(c, ConvertError::EncodeError),
                _ => if flushing {
                    (Conversion { stage: Stage::WritingTrailer, ..c }, Action::WriteTrailer)
                } else {
                    let (st, a) = decode_next(c.decoder.state, c.decoder.stream_index, DecodeEvent::Resume);
                    after_decoder(
                        Conversion { stage: Stage::Decoding, ..c },
                        FrameDecoder { state: st, ..c.decoder },
                        a,
                        None,
                    )
                },
            },
            _ => fail(c, ConvertError::EncodeError),
        },
        Stage::WritingPacket { flushing } => match e {
            Event::Answer { status } => if status == Status::Done || status == (Status::Failed { code: AVERROR_EINVAL }) {
                (Conversion { stage: Stage::ReceivingPacket { flushing }, ..c }, Action::ReceivePacket)
            } else {
                fail(c, ConvertError::MuxError)
            },
            _ => fail(c, ConvertError::MuxError),
        },
        Stage::WritingTrailer => match e {
            Event::Answer { status: Status::Done } => (
                Conversion { stage: Stage::Extracting, trailer_written: true, ..c },
                Action::Extract,
            ),
            _ => fail(c, ConvertError::MuxError),
        },
        Stage::Extracting => match e {
            Event::Answer { status: Status::Done } => (Conversion { stage: Stage::Done, ..c }, Action::Deliver),
            _ => fail(c, ConvertError::BufferOwnershipError),
        },
        Stage::Done => (c, Action::Deliver),
        Stage::Failed { error } => (c, Action::Fail { error }),
    }
}

impl Conversion {
    /// The invariant that ties the stage to what has been done so far.
    pub open spec fn wf(&self) -> bool {
        let linked = self.stream is Some && self.decoder.stream_index == self.stream->0.index;
        let flushed = self.decoder.state is Flushed;
        let enc = self.frames_encoded@;
        let dec = self.frames_decoded@;
        &&& enc <= dec
        &&& self.config matches Some(cfg) ==> self.stream is Some && config_fits(
            cfg,
            self.stream->0,
            self.global_header,
        )
        &&& match self.stage {
            Stage::Opening => self.stream is None && self.config is None && !self.header_written
                && !self.trailer_written && dec == 0,
            Stage::Decoding => linked && !flushed && (self.header_written <==> self.config is Some)
                && (self.config is Some <==> dec >= 1) && !self.trailer_written && enc == dec,
            Stage::SettingUp | Stage::WritingHeader => linked && !flushed && self.config is Some
                && !self.header_written && !self.trailer_written && enc == 0 && dec == 1,
            Stage::SendingFrame => linked && !flushed && self.config is Some && self.header_written
                && !self.trailer_written && enc + 1 == dec,
            Stage::ReceivingPacket { flushing } | Stage::WritingPacket { flushing } => linked
                && (flushing <==> flushed) && self.config is Some && self.header_written
                && !self.trailer_written && enc == dec && dec >= 1,
            Stage::Flushing | Stage::WritingTrailer => linked && flushed && self.config is Some
                && self.header_written && !self.trailer_written && enc == dec && dec >= 1,
            Stage::Extracting | Stage::Done => linked && flushed && self.header_written
                && self.trailer_written && enc == dec && dec >= 1,
            Stage::Failed { .. } => true,
        }
    }

    pub fn new() -> (r: Conversion)
        ensures
            r.wf(),
            r.stage == Stage::Opening,
            r.frames_decoded@ == 0,
    {
        Conversion {
            stage: Stage::Opening,
            decoder: FrameDecoder::new(0),
            stream: None,
            global_header: false,
            config: None,
            convert: false,
            header_written: false,
            trailer_written: false,
            frames_decoded: Ghost(0),
            frames_encoded: Ghost(0),
        }
    }

    fn fail_with(&mut self, error: ConvertError) -> (r: Action)
        ensures
            (*final(self), r) == fail(*old(self), error),
    {
        self.stage = Stage::Failed { error };
        Action::Fail { error }
    }

    /// Feeds `event` to the frame decoder and acts on what it asks for.
    fn drive_decoder(&mut self, event: DecodeEvent, frame: Option<FrameInfo>) -> (r: Action)
        ensures
            ({
                let (st, a) = decode_next(old(self).decoder.state, old(self).decoder.stream_index, event);
                (*final(self), r) == after_decoder(
                    *old(self),
                    FrameDecoder { state: st, ..old(self).decoder },
                    a,
                    frame,
                )
            }),
    {
        let a = self.decoder.step(event);
        match a {
            DecodeAction::ReadPacket => Action::ReadPacket,
            DecodeAction::SendPacket => Action::SendPacket,
            DecodeAction::SendFlush => Action::SendFlush,
            DecodeAction::ReceiveFrame => Action::ReceiveFrame,
            DecodeAction::EmitFrame => match (frame, self.config, self.stream) {
                (Some(f), None, Some(s)) => {
                    let cfg = encoder_config(f, s, self.global_header);
                    self.stage = Stage::SettingUp;
                    self.config = Some(cfg);
                    self.convert = needs_conversion(f, cfg);
                    self.frames_decoded = Ghost(self.frames_decoded@ + 1);
                    Action::SetUpEncoder { config: cfg }
                },
                (Some(f), Some(cfg), _) => {
                    let convert = needs_conversion(f, cfg);
                    self.stage = Stage::SendingFrame;
                    self.convert = convert;
                    self.frames_decoded = Ghost(self.frames_decoded@ + 1);
                    Action::EncodeFrame { convert }
                },
                _ => self.fail_with(ConvertError::DecodeError),
            },
            DecodeAction::Finish => if self.config.is_some() {
                self.stage = Stage::Flushing;
                Action::FlushEncoder
            } else {
                self.fail_with(ConvertError::DecodeError)
            },
            DecodeAction::Fail => self.fail_with(ConvertError::DecodeError),
        }
    }

    /// Takes the driver's report and says what to do next.
    pub fn step(&mut self, event: Event) -> (r: Action)
        requires
            old(self).wf(),
        ensures
            final(self).wf(),
            (*final(self), r) == conversion_next(*old(self), event),
    {
        match event {
            Event::IoFailed => match self.stage {
                Stage::Done => {},
                Stage::Failed { .. } => {},
                _ => {
                    return self.fail_with(ConvertError::IOAdapterError);
                },
            },
            _ => {},
        }
        self.step_stage(event)
    }

    #[verifier::rlimit(50)]
    fn step_stage(&mut self, event: Event) -> (r: Action)
        requires
            old(self).wf(),
        ensures
            final(self).wf(),
            (*final(self), r) == stage_next(*old(self), event),
    {
        match self.stage {
            Stage::Opening => match event {
                Event::Start => Action::OpenInput,
                Event::Opened { stream, global_header } => {
                    self.stage = Stage::Decoding;
                    self.stream = Some(stream);
                    self.global_header = global_header;
                    self.decoder = FrameDecoder::new(stream.index);
                    Action::ReadPacket
                },
                _ => self.fail_with(ConvertError::InputFormatError),
            },
            Stage::Decoding => match event {
                Event::Packet { stream_index } => self.drive_decoder(
                    DecodeEvent::Packet { stream_index },
                    None,
                ),
                Event::EndOfStream => self.drive_decoder(DecodeEvent::EndOfStream, None),
                Event::ReadFailed => self.drive_decoder(DecodeEvent::ReadFailed, None),
                Event::Frame { frame } => self.drive_decoder(
                    DecodeEvent::Received { status: Status::Done },
                    Some(frame),
                ),
                Event::Sent { status } => self.drive_decoder(DecodeEvent::Sent { status }, None),
                Event::Received { status } => match status {
                    Status::Done => self.fail_with(ConvertError::DecodeError),
                    _ => self.drive_decoder(DecodeEvent::Received { status }, None),
                },
                _ => self.fail_with(ConvertError::DecodeError),
            },
            Stage::SettingUp => match event {
                Event::Answer { status: Status::Done } => {
                    self.stage = Stage::WritingHeader;
                    Action::WriteHeader
                },
                _ => self.fail_with(ConvertError::EncoderInitError),
            },
            Stage::WritingHeader => match event {
                Event::Answer { status: Status::Done } => {
                    self.stage = Stage::SendingFrame;
                    self.header_written = true;
                    Action::EncodeFrame { convert: self.convert }
                },
                _ => self.fail_with(ConvertError::MuxError),
            },
            Stage::SendingFrame => match event {
                Event::Sent { status: Status::Done } => {
                    self.stage = Stage::ReceivingPacket { flushing: false };
                    self.frames_encoded = Ghost(self.frames_encoded@ + 1);
                    Action::ReceivePacket
                },
                _ => self.fail_with(ConvertError::EncodeError),
            },
            Stage::Flushing => match event {
                Event::Sent { status: Status::Done } | Event::Sent { status: Status::Eof } => {
                    self.stage = Stage::ReceivingPacket { flushing: true };
                    Action::ReceivePacket
                },
                _ => self.fail_with(ConvertError::EncodeError),
            },
            Stage::ReceivingPacket { flushing } => match event {
                Event::Received { status } => match status {
                    Status::Done => {
                        self.stage = Stage::WritingPacket { flushing };
                        Action::WritePacket
                    },
                    Status::Failed { .. } => self.fail_with(ConvertError::EncodeError),
                    _ => if flushing {
                        self.stage = Stage::WritingTrailer;
                        Action::WriteTrailer
                    } else {
                        self.stage = Stage::Decoding;
                        self.drive_decoder(DecodeEvent::Resume, None)
                    },
                },
                _ => self.fail_with(ConvertError::EncodeError),
            },
            Stage::WritingPacket { flushing } => match event {
                Event::Answer { status } => match write_outcome(status) {
                    Ok(()) => {
                        self.stage = Stage::ReceivingPacket { flushing };
                        Action::ReceivePacket
                    },
                    Err(e) => self.fail_with(e),
                },
                _ => self.fail_with(ConvertError::MuxError),
            },
            Stage::WritingTrailer => match event {
                Event::Answer { status: Status::Done } => {
                    self.stage = Stage::Extracting;
                    self.trailer_written = true;
                    Action::Extract
                },
                _ => self.fail_with(ConvertError::MuxError),
            },
            Stage::Extracting => match event {
                Event::Answer { status: Status::Done } => {
                    self.stage = Stage::Done;
                    Action::Deliver
                },
                _ => self.fail_with(ConvertError::BufferOwnershipError),
            },
            Stage::Done => Action::Deliver,
            Stage::Failed { error } => Action::Fail { error },
        }
    }
}

/// The container header is written exactly once: it is asked for only while
/// none has been written, and once written it stays written.
pub proof fn lemma_header_written_once(c: Conversion, e: Event)
    requires
        c.wf(),
    ensures
        conversion_next(c, e).1 is WriteHeader ==> !c.header_written && !conversion_next(
            c,
            e,
        ).0.header_written,
        c.header_written ==> conversion_next(c, e).0.header_written,
{
}

/// No frame, flush signal, packet or trailer reaches the encoder or the
/// muxer before the header has been written.
pub proof fn lemma_header_precedes_frames(c: Conversion, e: Event)
    requires
        c.wf(),
        ({
            let a = conversion_next(c, e).1;
            a is EncodeFrame || a is FlushEncoder || a is ReceivePacket || a is WritePacket
                || a is WriteTrailer || a is Extract
        }),
    ensures
        conversion_next(c, e).0.header_written,
{
}

/// The trailer is written exactly once, and only after the decoder is fully
/// flushed; after it no frame reaches the encoder any more.
pub proof fn lemma_trailer_after_flush(c: Conversion, e: Event)
    requires
        c.wf(),
    ensures
        conversion_next(c, e).1 is WriteTrailer ==> !c.trailer_written && c.decoder.state
            is Flushed,
        c.trailer_written ==> conversion_next(c, e).0.trailer_written && !(conversion_next(
            c,
            e,
        ).1 is EncodeFrame),
{
}

/// The output buffer is taken back only after the trailer is written, and
/// delivered only when every decoded frame has been handed to the encoder.
pub proof fn lemma_delivery_is_complete(c: Conversion, e: Event)
    requires
        c.wf(),
    ensures
        conversion_next(c, e).1 is Extract ==> conversion_next(c, e).0.trailer_written,
        conversion_next(c, e).1 is Deliver ==> {
            let n = conversion_next(c, e).0;
            &&& n.trailer_written
            &&& n.frames_decoded@ >= 1
            &&& n.frames_encoded@ == n.frames_decoded@
        },
{
}

/// The encoder is set up once, from the first decoded frame and the source
/// stream's timing.
pub proof fn lemma_encoder_from_first_frame(c: Conversion, e: Event)
    requires
        c.wf(),
        conversion_next(c, e).1 is SetUpEncoder,
    ensures
        c.stage is Decoding,
        c.config is None,
        c.frames_decoded@ == 0,
        e is Frame,
        conversion_next(c, e).1 == (Action::SetUpEncoder {
            config: spec_encoder_config(e->frame, c.stream->0, c.global_header),
        }),
{
}

/// An input that cannot be opened, or holds no video stream, ends the
/// conversion with an input format error.
pub proof fn lemma_rejected_input(c: Conversion)
    requires
        c.stage is Opening,
    ensures
        conversion_next(c, Event::Rejected).1 == (Action::Fail {
            error: ConvertError::InputFormatError,
        }),
{
}

/// A demuxer or decoder failure while frames are pulled ends the conversion
/// with a decode error.
pub proof fn lemma_corrupt_input(c: Conversion, e: Event)
    requires
        c.wf(),
        c.stage is Decoding,
        e is ReadFailed || (e is Received && e->Received_status is Failed) || (e is Sent
            && e->Sent_status is Failed),
    ensures
        conversion_next(c, e).1 == (Action::Fail { error: ConvertError::DecodeError }),
{
}

/// A packet write refused for its timestamp is dropped and the conversion
/// goes on; any other refused write ends it with a mux error.
pub proof fn lemma_tolerated_write_error(c: Conversion, code: i32)
    requires
        c.wf(),
        c.stage is WritingPacket,
    ensures
        code == AVERROR_EINVAL ==> conversion_next(
            c,
            Event::Answer { status: Status::Failed { code } },
        ).1 is ReceivePacket,
        code != AVERROR_EINVAL ==> conversion_next(
            c,
            Event::Answer { status: Status::Failed { code } },
        ).1 == (Action::Fail { error: ConvertError::MuxError }),
{
}

/// A failed callback on the in-memory buffer ends a running conversion with
/// an I/O adapter error.
pub proof fn lemma_buffer_failure(c: Conversion)
    requires
        !(c.stage is Done),
        !(c.stage is Failed),
    ensures
        conversion_next(c, Event::IoFailed).1 == (Action::Fail {
            error: ConvertError::IOAdapterError,
        }),
{
}

/// Done and failed conversions stay as they are.
pub proof fn lemma_end_is_terminal(c: Conversion, e: Event)
    requires
        c.stage is Done || c.stage is Failed,
    ensures
        conversion_next(c, e).0 == c,
{
}

} // verus!
