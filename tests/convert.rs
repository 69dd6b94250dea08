use jandan_pic::cursor::{whence_from_code, ByteCursor, Whence, AVERROR_EOF, AVSEEK_SIZE};
use jandan_pic::decode::{DecodeAction, DecodeEvent, DecodeState, FrameDecoder, Status};
use jandan_pic::error::ConvertError;
use jandan_pic::http::{after_attempt, Attempt, RetryStep, REQUEST_ATTEMPTS, RETRY_DELAY_SECS};
use jandan_pic::pipeline::{
    encoder_config, needs_conversion, write_outcome, Action, Conversion, EncoderConfig, Event,
    FrameInfo, Rational, Stage, StreamInfo, AVERROR_EINVAL, PIX_FMT_YUV420P,
};

#[test]
fn cursor_reads_until_eof() {
    let mut c = ByteCursor::new(vec![1, 2, 3, 4, 5]);
    let mut buf = [0u8; 3];
    assert_eq!(c.read_or_eof(&mut buf), 3);
    assert_eq!(buf, [1, 2, 3]);
    assert_eq!(c.read_or_eof(&mut buf), 2);
    assert_eq!(&buf[..2], &[4, 5]);
    assert_eq!(buf[2], 3);
    assert_eq!(c.read_or_eof(&mut buf), AVERROR_EOF);
    assert_eq!(c.pos(), 5);
}

#[test]
fn cursor_seek_modes() {
    let mut c = ByteCursor::new(vec![0; 10]);
    assert_eq!(c.seek(4, 0), 4);
    assert_eq!(c.seek(3, 1), 7);
    assert_eq!(c.seek(-2, 2), 8);
    assert_eq!(c.seek(0, AVSEEK_SIZE), 10);
    assert_eq!(c.pos(), 8);
    assert_eq!(c.seek(-1, 2), 9);
    assert_eq!(c.seek(0, 2), 10);
}

#[test]
fn cursor_seek_out_of_bounds_fails() {
    let mut c = ByteCursor::new(vec![0; 10]);
    assert_eq!(c.seek(3, 0), 3);
    assert_eq!(c.seek(11, 0), -1);
    assert_eq!(c.seek(-4, 1), -1);
    assert_eq!(c.seek(1, 2), -1);
    assert_eq!(c.seek(0, 7), -1);
    assert_eq!(c.seek(0, AVSEEK_SIZE | 0x20000), -1);
    assert_eq!(c.pos(), 3);
}

#[test]
fn cursor_write_overwrites_and_grows() {
    let mut c = ByteCursor::new(vec![1, 2, 3, 4]);
    assert_eq!(c.seek(2, 0), 2);
    assert!(c.write_all(&[9, 9, 9]));
    assert_eq!(c.pos(), 5);
    assert_eq!(c.seek(0, 0), 0);
    assert!(c.write_all(&[7]));
    assert_eq!(c.into_inner(), vec![7, 2, 9, 9, 9]);
}

#[test]
fn cursor_write_then_read_back() {
    let mut c = ByteCursor::new(Vec::new());
    assert!(c.write_all(b"ftyp"));
    assert!(c.write_all(b"isom"));
    assert_eq!(c.len(), 8);
    assert_eq!(c.seek(0, 0), 0);
    let mut buf = [0u8; 8];
    assert_eq!(c.read_or_eof(&mut buf), 8);
    assert_eq!(&buf, b"ftypisom");
}

#[test]
fn whence_codes() {
    assert!(matches!(whence_from_code(0), Some(Whence::FromStart)));
    assert!(matches!(whence_from_code(1), Some(Whence::FromCurrent)));
    assert!(matches!(whence_from_code(2), Some(Whence::FromEnd)));
    assert!(matches!(whence_from_code(AVSEEK_SIZE), Some(Whence::QuerySize)));
    assert!(whence_from_code(3).is_none());
}

#[test]
fn decoder_discards_foreign_packets() {
    let mut d = FrameDecoder::new(1);
    assert_eq!(d.step(DecodeEvent::Resume), DecodeAction::ReadPacket);
    assert_eq!(d.step(DecodeEvent::Packet { stream_index: 0 }), DecodeAction::ReadPacket);
    assert_eq!(d.state, DecodeState::NeedPacket);
    assert_eq!(d.step(DecodeEvent::Packet { stream_index: 1 }), DecodeAction::SendPacket);
    assert_eq!(d.state, DecodeState::NeedFrame);
}

#[test]
fn decoder_needs_more_input_goes_back_to_reading() {
    let mut d = FrameDecoder::new(0);
    d.step(DecodeEvent::Packet { stream_index: 0 });
    assert_eq!(d.step(DecodeEvent::Sent { status: Status::Done }), DecodeAction::ReceiveFrame);
    assert_eq!(d.step(DecodeEvent::Received { status: Status::Again }), DecodeAction::ReadPacket);
    assert_eq!(d.state, DecodeState::NeedPacket);
}

#[test]
fn decoder_drains_until_flushed() {
    let mut d = FrameDecoder::new(0);
    assert_eq!(d.step(DecodeEvent::EndOfStream), DecodeAction::SendFlush);
    assert_eq!(d.state, DecodeState::Draining);
    assert_eq!(d.step(DecodeEvent::Sent { status: Status::Done }), DecodeAction::ReceiveFrame);
    assert_eq!(d.step(DecodeEvent::Received { status: Status::Done }), DecodeAction::EmitFrame);
    assert_eq!(d.step(DecodeEvent::Resume), DecodeAction::ReceiveFrame);
    assert_eq!(d.step(DecodeEvent::Received { status: Status::Again }), DecodeAction::SendFlush);
    assert_eq!(d.step(DecodeEvent::Sent { status: Status::Eof }), DecodeAction::ReceiveFrame);
    assert_eq!(d.step(DecodeEvent::Received { status: Status::Eof }), DecodeAction::Finish);
    assert_eq!(d.state, DecodeState::Flushed);
    assert_eq!(d.step(DecodeEvent::Resume), DecodeAction::Finish);
    assert_eq!(d.step(DecodeEvent::Packet { stream_index: 0 }), DecodeAction::Finish);
}

#[test]
fn decoder_error_is_fatal() {
    let mut d = FrameDecoder::new(0);
    d.step(DecodeEvent::Packet { stream_index: 0 });
    assert_eq!(d.step(DecodeEvent::Sent { status: Status::Failed { code: -1094995529 } }), DecodeAction::Fail);
    let mut d = FrameDecoder::new(0);
    d.step(DecodeEvent::Packet { stream_index: 0 });
    d.step(DecodeEvent::Sent { status: Status::Done });
    assert_eq!(d.step(DecodeEvent::Received { status: Status::Failed { code: -5 } }), DecodeAction::Fail);
    let mut d = FrameDecoder::new(0);
    assert_eq!(d.step(DecodeEvent::ReadFailed), DecodeAction::Fail);
}

fn gif_stream() -> StreamInfo {
    StreamInfo {
        index: 0,
        time_base: Rational { num: 1, den: 100 },
        frame_rate: Rational { num: 10, den: 1 },
    }
}

/// Drives a conversion through a source of `frames` frames of the given
/// pixel format, answering every call with success, and returns the actions
/// it asked for.
fn run(frames: usize, format: i32) -> Vec<Action> {
    let mut c = Conversion::new();
    let mut actions = Vec::new();
    let mut left = frames;
    let mut event = Event::Start;
    let mut encoder_flushed = false;
    let mut packet_pending = false;
    loop {
        let a = c.step(event);
        actions.push(a);
        event = match a {
            Action::OpenInput => Event::Opened { stream: gif_stream(), global_header: true },
            Action::ReadPacket => {
                if left > 0 {
                    left -= 1;
                    Event::Packet { stream_index: 0 }
                } else {
                    Event::EndOfStream
                }
            }
            Action::SendPacket | Action::SendFlush => Event::Sent { status: Status::Done },
            Action::ReceiveFrame => {
                if c.decoder.state == DecodeState::Draining {
                    Event::Received { status: Status::Eof }
                } else {
                    Event::Frame { frame: FrameInfo { width: 100, height: 80, format } }
                }
            }
            Action::SetUpEncoder { .. } | Action::WriteHeader => Event::Answer { status: Status::Done },
            Action::EncodeFrame { .. } => {
                packet_pending = true;
                Event::Sent { status: Status::Done }
            }
            Action::FlushEncoder => {
                encoder_flushed = true;
                packet_pending = true;
                Event::Sent { status: Status::Done }
            }
            Action::ReceivePacket => {
                if packet_pending {
                    packet_pending = false;
                    Event::Received { status: Status::Done }
                } else if encoder_flushed {
                    Event::Received { status: Status::Eof }
                } else {
                    Event::Received { status: Status::Again }
                }
            }
            Action::WritePacket | Action::WriteTrailer | Action::Extract => {
                Event::Answer { status: Status::Done }
            }
            Action::Deliver | Action::Fail { .. } => break,
        };
    }
    actions
}

fn count(actions: &[Action], pred: fn(&Action) -> bool) -> usize {
    actions.iter().filter(|a| pred(a)).count()
}

#[test]
fn one_frame_input_converts() {
    let actions = run(1, 3);
    assert_eq!(*actions.last().unwrap(), Action::Deliver);
    assert_eq!(count(&actions, |a| matches!(a, Action::EncodeFrame { .. })), 1);
    assert_eq!(count(&actions, |a| matches!(a, Action::WriteHeader)), 1);
    assert_eq!(count(&actions, |a| matches!(a, Action::WriteTrailer)), 1);
    assert_eq!(count(&actions, |a| matches!(a, Action::Extract)), 1);
}

#[test]
fn three_frames_reach_the_encoder() {
    let actions = run(3, 3);
    assert_eq!(*actions.last().unwrap(), Action::Deliver);
    assert_eq!(count(&actions, |a| matches!(a, Action::EncodeFrame { convert: true })), 3);
    assert_eq!(count(&actions, |a| matches!(a, Action::SetUpEncoder { .. })), 1);
    assert_eq!(count(&actions, |a| matches!(a, Action::WriteHeader)), 1);
    assert_eq!(count(&actions, |a| matches!(a, Action::WriteTrailer)), 1);
    let header = actions.iter().position(|a| matches!(a, Action::WriteHeader)).unwrap();
    let first_frame = actions.iter().position(|a| matches!(a, Action::EncodeFrame { .. })).unwrap();
    let flush = actions.iter().position(|a| matches!(a, Action::FlushEncoder)).unwrap();
    let trailer = actions.iter().position(|a| matches!(a, Action::WriteTrailer)).unwrap();
    let last_frame = actions.iter().rposition(|a| matches!(a, Action::EncodeFrame { .. })).unwrap();
    assert!(header < first_frame);
    assert!(last_frame < flush);
    assert!(flush < trailer);
}

#[test]
fn three_frame_source_configures_100_by_80_at_10_fps() {
    let actions = run(3, 3);
    let config = actions
        .iter()
        .find_map(|a| match a {
            Action::SetUpEncoder { config } => Some(*config),
            _ => None,
        })
        .unwrap();
    assert_eq!(config.width, 100);
    assert_eq!(config.height, 80);
    assert_eq!(config.frame_rate, Rational { num: 10, den: 1 });
    assert_eq!(config.time_base, Rational { num: 1, den: 100 });
    assert_eq!(config.pix_fmt, PIX_FMT_YUV420P);
    assert!(config.global_header);
}

#[test]
fn frames_already_in_target_format_pass_through() {
    let actions = run(2, PIX_FMT_YUV420P);
    assert_eq!(count(&actions, |a| matches!(a, Action::EncodeFrame { convert: false })), 2);
    assert_eq!(count(&actions, |a| matches!(a, Action::EncodeFrame { convert: true })), 0);
}

#[test]
fn same_input_gives_same_conversion() {
    assert_eq!(run(4, 3), run(4, 3));
}

#[test]
fn no_video_stream_is_input_format_error() {
    let mut c = Conversion::new();
    assert_eq!(c.step(Event::Start), Action::OpenInput);
    assert_eq!(c.step(Event::Rejected), Action::Fail { error: ConvertError::InputFormatError });
    assert_eq!(c.stage, Stage::Failed { error: ConvertError::InputFormatError });
    assert_eq!(c.step(Event::Start), Action::Fail { error: ConvertError::InputFormatError });
}

#[test]
fn corrupt_input_is_decode_error() {
    let mut c = Conversion::new();
    c.step(Event::Start);
    c.step(Event::Opened { stream: gif_stream(), global_header: false });
    assert_eq!(c.step(Event::Packet { stream_index: 0 }), Action::SendPacket);
    assert_eq!(
        c.step(Event::Sent { status: Status::Failed { code: -1094995529 } }),
        Action::Fail { error: ConvertError::DecodeError }
    );
    let mut c = Conversion::new();
    c.step(Event::Start);
    c.step(Event::Opened { stream: gif_stream(), global_header: false });
    assert_eq!(c.step(Event::ReadFailed), Action::Fail { error: ConvertError::DecodeError });
}

#[test]
fn empty_stream_is_decode_error() {
    let mut c = Conversion::new();
    c.step(Event::Start);
    c.step(Event::Opened { stream: gif_stream(), global_header: false });
    assert_eq!(c.step(Event::EndOfStream), Action::SendFlush);
    assert_eq!(c.step(Event::Sent { status: Status::Done }), Action::ReceiveFrame);
    assert_eq!(
        c.step(Event::Received { status: Status::Eof }),
        Action::Fail { error: ConvertError::DecodeError }
    );
}

fn conversion_at_first_packet_write() -> Conversion {
    let mut c = Conversion::new();
    c.step(Event::Start);
    c.step(Event::Opened { stream: gif_stream(), global_header: false });
    c.step(Event::Packet { stream_index: 0 });
    c.step(Event::Sent { status: Status::Done });
    c.step(Event::Frame { frame: FrameInfo { width: 4, height: 4, format: 3 } });
    c.step(Event::Answer { status: Status::Done });
    c.step(Event::Answer { status: Status::Done });
    c.step(Event::Sent { status: Status::Done });
    assert_eq!(c.step(Event::Received { status: Status::Done }), Action::WritePacket);
    c
}

#[test]
fn duplicate_timestamp_write_is_dropped() {
    let mut c = conversion_at_first_packet_write();
    assert_eq!(
        c.step(Event::Answer { status: Status::Failed { code: AVERROR_EINVAL } }),
        Action::ReceivePacket
    );
}

#[test]
fn other_write_errors_are_mux_errors() {
    let mut c = conversion_at_first_packet_write();
    assert_eq!(
        c.step(Event::Answer { status: Status::Failed { code: -5 } }),
        Action::Fail { error: ConvertError::MuxError }
    );
}

#[test]
fn encoder_setup_failure_is_encoder_init_error() {
    let mut c = Conversion::new();
    c.step(Event::Start);
    c.step(Event::Opened { stream: gif_stream(), global_header: false });
    c.step(Event::Packet { stream_index: 0 });
    c.step(Event::Sent { status: Status::Done });
    assert!(matches!(
        c.step(Event::Frame { frame: FrameInfo { width: 4, height: 4, format: 3 } }),
        Action::SetUpEncoder { .. }
    ));
    assert_eq!(
        c.step(Event::Answer { status: Status::Failed { code: -22 } }),
        Action::Fail { error: ConvertError::EncoderInitError }
    );
}

#[test]
fn shared_buffer_is_ownership_error() {
    let mut c = Conversion::new();
    let mut event = Event::Start;
    let mut actions = Vec::new();
    let script = [
        Event::Opened { stream: gif_stream(), global_header: false },
        Event::Packet { stream_index: 0 },
        Event::Sent { status: Status::Done },
        Event::Frame { frame: FrameInfo { width: 4, height: 4, format: 0 } },
        Event::Answer { status: Status::Done },
        Event::Answer { status: Status::Done },
        Event::Sent { status: Status::Done },
        Event::Received { status: Status::Again },
        Event::EndOfStream,
        Event::Sent { status: Status::Done },
        Event::Received { status: Status::Eof },
        Event::Sent { status: Status::Done },
        Event::Received { status: Status::Eof },
        Event::Answer { status: Status::Done },
        Event::Answer { status: Status::Failed { code: -1 } },
    ];
    for next in script {
        actions.push(c.step(event));
        event = next;
    }
    actions.push(c.step(event));
    assert_eq!(actions[actions.len() - 2], Action::Extract);
    assert_eq!(*actions.last().unwrap(), Action::Fail { error: ConvertError::BufferOwnershipError });
}

#[test]
fn encoder_config_from_first_frame() {
    let cfg: EncoderConfig = encoder_config(
        FrameInfo { width: 320, height: 240, format: 3 },
        StreamInfo { index: 2, time_base: Rational { num: 1, den: 25 }, frame_rate: Rational { num: 25, den: 1 } },
        false,
    );
    assert_eq!(cfg.width, 320);
    assert_eq!(cfg.height, 240);
    assert_eq!(cfg.time_base, Rational { num: 1, den: 25 });
    assert_eq!(cfg.frame_rate, Rational { num: 25, den: 1 });
    assert_eq!(cfg.pix_fmt, PIX_FMT_YUV420P);
    assert!(!cfg.global_header);
    assert!(needs_conversion(FrameInfo { width: 1, height: 1, format: 3 }, cfg));
    assert!(!needs_conversion(FrameInfo { width: 1, height: 1, format: PIX_FMT_YUV420P }, cfg));
}

#[test]
fn write_outcomes() {
    assert_eq!(write_outcome(Status::Done), Ok(()));
    assert_eq!(write_outcome(Status::Failed { code: AVERROR_EINVAL }), Ok(()));
    assert_eq!(write_outcome(Status::Failed { code: -12 }), Err(ConvertError::MuxError));
    assert_eq!(write_outcome(Status::Again), Err(ConvertError::MuxError));
}

#[test]
fn error_messages_are_distinct() {
    let all = [
        ConvertError::InputFormatError,
        ConvertError::DecodeError,
        ConvertError::EncoderInitError,
        ConvertError::EncodeError,
        ConvertError::MuxError,
        ConvertError::IOAdapterError,
        ConvertError::BufferOwnershipError,
    ];
    for (i, a) in all.iter().enumerate() {
        for b in &all[i + 1..] {
            assert_ne!(a.message(), b.message());
        }
    }
}

#[test]
fn timeouts_are_retried_until_attempts_run_out() {
    let mut remaining = REQUEST_ATTEMPTS - 1;
    let mut sent = 1;
    loop {
        match after_attempt(remaining, Attempt::TimedOut) {
            RetryStep::Retry { remaining: left, delay_secs } => {
                assert_eq!(delay_secs, RETRY_DELAY_SECS);
                remaining = left;
                sent += 1;
            }
            RetryStep::GiveUp => break,
            RetryStep::Deliver => unreachable!(),
        }
    }
    assert_eq!(sent, 3);
    assert_eq!(after_attempt(2, Attempt::Responded), RetryStep::Deliver);
    assert_eq!(after_attempt(2, Attempt::Failed), RetryStep::GiveUp);
}

#[test]
fn buffer_failure_is_io_adapter_error() {
    let mut c = Conversion::new();
    c.step(Event::Start);
    c.step(Event::Opened { stream: gif_stream(), global_header: false });
    assert_eq!(c.step(Event::IoFailed), Action::Fail { error: ConvertError::IOAdapterError });
    let mut c = Conversion::new();
    assert_eq!(c.step(Event::IoFailed), Action::Fail { error: ConvertError::IOAdapterError });
    let actions = run(1, 0);
    assert_eq!(*actions.last().unwrap(), Action::Deliver);
}
