use webcodecs::codec_state::{CodecControl, CodecRole, CodecState, ConfigurePath, WorkerStart};
use webcodecs::error::ErrorStatus;

fn configured(role: CodecRole) -> CodecControl {
    let mut c = CodecControl::new(role);
    assert_eq!(c.begin_configure().ok(), Some(ConfigurePath::Fresh));
    c.configured();
    c
}

#[test]
fn new_codec_is_unconfigured() {
    let c = CodecControl::new(CodecRole::VideoDecoder);
    assert_eq!(c.state, CodecState::Unconfigured);
    assert_eq!(c.queue_size, 0);
    assert_eq!(c.state_string(), "unconfigured");
    assert_eq!(CodecState::Configured.as_str(), "configured");
    assert_eq!(CodecState::Closed.as_str(), "closed");
}

#[test]
fn decode_before_configure_is_invalid_state() {
    let mut c = CodecControl::new(CodecRole::AudioDecoder);
    let e = c.begin_work(true).unwrap_err();
    assert_eq!(e.status, ErrorStatus::GenericFailure);
    assert_eq!(e.reason, "InvalidStateError: Cannot decode with an unconfigured codec");
    let mut enc = CodecControl::new(CodecRole::AudioEncoder);
    assert_eq!(
        enc.begin_work(true).unwrap_err().reason,
        "InvalidStateError: Cannot encode with an unconfigured codec"
    );
}

#[test]
fn video_decoder_requires_key_chunk_first() {
    let mut c = configured(CodecRole::VideoDecoder);
    let e = c.begin_work(false).unwrap_err();
    assert_eq!(e.reason, "DataError: First chunk must be a keyframe");
    assert_eq!(c.queue_size, 0);
    assert!(c.begin_work(true).is_ok());
    assert!(c.begin_work(false).is_ok());
    assert_eq!(c.queue_size, 2);
    // A flush asks for a key chunk again.
    assert!(c.begin_flush().is_ok());
    assert_eq!(c.begin_work(false).unwrap_err().reason, "DataError: First chunk must be a keyframe");
}

#[test]
fn audio_decoder_takes_delta_chunks() {
    let mut c = configured(CodecRole::AudioDecoder);
    assert!(c.begin_work(false).is_ok());
    assert_eq!(c.queue_size, 1);
}

#[test]
fn reconfigure_of_video_decoder_is_queued() {
    let mut c = configured(CodecRole::VideoDecoder);
    assert!(c.begin_work(true).is_ok());
    assert_eq!(c.begin_configure().ok(), Some(ConfigurePath::Reconfigure));
    assert!(!c.keyframe_received);
    assert_eq!(c.queue_size, 1);
    let mut a = configured(CodecRole::AudioEncoder);
    assert_eq!(a.begin_configure().ok(), Some(ConfigurePath::Fresh));
}

#[test]
fn work_round_trip_and_dequeue_events() {
    let mut c = configured(CodecRole::AudioEncoder);
    assert!(c.begin_work(true).is_ok());
    assert!(c.finish_work());
    assert_eq!(c.queue_size, 0);
    // An empty queue stays empty and fires nothing.
    assert!(!c.finish_work());
    assert_eq!(c.queue_size, 0);
}

#[test]
fn flush_refusals() {
    let mut c = CodecControl::new(CodecRole::VideoDecoder);
    assert_eq!(c.begin_flush().unwrap_err().reason, "InvalidStateError: Cannot flush an unconfigured codec");
    let mut d = configured(CodecRole::VideoDecoder);
    d.report_error();
    assert_eq!(d.state, CodecState::Closed);
    assert_eq!(d.begin_flush().unwrap_err().reason, "EncodingError: Decode error occurred");
    let mut a = configured(CodecRole::AudioDecoder);
    assert!(a.close().is_ok());
    assert_eq!(a.begin_flush().unwrap_err().reason, "InvalidStateError: Cannot flush a closed codec");
    let mut e = configured(CodecRole::AudioEncoder);
    e.report_error();
    assert_eq!(e.begin_flush().unwrap_err().reason, "InvalidStateError: Cannot flush a closed codec");
}

#[test]
fn closed_codec_refuses_everything() {
    let mut c = configured(CodecRole::AudioEncoder);
    assert!(c.begin_work(true).is_ok());
    assert_eq!(c.close().ok(), Some(1));
    assert_eq!(c.queue_size, 0);
    assert_eq!(c.begin_configure().unwrap_err().reason, "InvalidStateError: Encoder is closed");
    assert_eq!(c.begin_work(true).unwrap_err().reason, "InvalidStateError: Cannot encode with a closed codec");
    assert_eq!(c.reset().unwrap_err().reason, "InvalidStateError: Cannot reset a closed codec");
    assert_eq!(c.close().unwrap_err().reason, "InvalidStateError: Cannot close an already closed codec");
    let mut d = CodecControl::new(CodecRole::VideoDecoder);
    d.report_error();
    assert_eq!(d.begin_configure().unwrap_err().reason, "InvalidStateError: Decoder is closed");
    assert_eq!(d.begin_work(true).unwrap_err().reason, "InvalidStateError: Cannot decode with a closed codec");
}

#[test]
fn reset_returns_to_a_new_codec() {
    let mut c = configured(CodecRole::VideoDecoder);
    assert!(c.begin_work(true).is_ok());
    assert!(c.begin_work(false).is_ok());
    assert_eq!(c.reset().ok(), Some(2));
    assert_eq!(c, CodecControl::new(CodecRole::VideoDecoder));
}

#[test]
fn worker_flush_outcomes() {
    let v = configured(CodecRole::VideoDecoder);
    assert_eq!(v.worker_flush(false).ok(), Some(true));
    assert_eq!(v.worker_flush(true).unwrap_err().reason, "AbortError: The operation was aborted");
    let mut closed = configured(CodecRole::VideoDecoder);
    closed.close().unwrap();
    assert_eq!(closed.worker_flush(false).ok(), Some(false));
    closed.report_error();
    assert_eq!(closed.worker_flush(false).unwrap_err().reason, "EncodingError: Decode error occurred");
    let mut e = configured(CodecRole::AudioEncoder);
    assert_eq!(e.worker_flush(false).ok(), Some(true));
    e.report_error();
    assert_eq!(e.worker_flush(false).unwrap_err().reason, "EncodingError: Encode error occurred");
    let a = CodecControl::new(CodecRole::AudioDecoder);
    assert_eq!(a.worker_flush(false).unwrap_err().reason, "InvalidStateError: Decoder is not configured");
}

#[test]
fn worker_start_outcomes() {
    let mut a = configured(CodecRole::AudioDecoder);
    a.begin_work(true).unwrap();
    let (step, fire) = a.worker_start(false);
    assert!(matches!(step, WorkerStart::Proceed));
    assert!(!fire);
    let (step, fire) = a.worker_start(true);
    match step {
        WorkerStart::Fail(m) => assert_eq!(m, "EncodingError: Cannot decode empty audio chunk data"),
        _ => panic!("empty audio chunk must fail"),
    }
    assert!(fire);
    assert_eq!(a.state, CodecState::Closed);
    assert!(a.had_error);
    assert_eq!(a.queue_size, 0);

    let mut v = configured(CodecRole::VideoDecoder);
    v.begin_work(true).unwrap();
    v.reset().unwrap();
    let (step, fire) = v.worker_start(false);
    assert!(matches!(step, WorkerStart::Drop));
    assert!(!fire);
    assert_eq!(v.state, CodecState::Unconfigured);

    let mut e = CodecControl::new(CodecRole::AudioEncoder);
    match e.worker_start(false).0 {
        WorkerStart::Fail(m) => assert_eq!(m, "Encoder not configured"),
        _ => panic!("unconfigured encoder must fail"),
    }
    assert_eq!(e.state, CodecState::Closed);
}
