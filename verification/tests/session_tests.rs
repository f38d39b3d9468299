use colorunit::channel::{Channel, ChannelAction, ChannelEvent, PortCandidate, SendError};
use colorunit::codec::CURequest;
use colorunit::session::{response_for, FrameAction, FrameEvent, Session, TickAction};

#[test]
fn silent_client_is_closed_after_the_window() {
    let mut s = Session::new(0);
    assert_eq!(s.on_tick(5000), TickAction::Ping);
    assert_eq!(s.on_tick(10000), TickAction::Ping);
    assert_eq!(s.on_tick(15000), TickAction::Stop);
    assert!(!s.alive);
}

#[test]
fn activity_resets_the_window() {
    let mut s = Session::new(0);
    assert_eq!(s.on_tick(5000), TickAction::Ping);
    match s.on_frame(9000, FrameEvent::Ping(b"hb".to_vec())) {
        FrameAction::Pong(payload) => assert_eq!(payload, b"hb".to_vec()),
        _ => panic!("a ping frame must be answered with a pong"),
    }
    assert_eq!(s.on_tick(15000), TickAction::Ping);
    assert!(matches!(s.on_frame(16000, FrameEvent::Pong), FrameAction::Nothing));
    assert_eq!(s.on_tick(26000), TickAction::Ping);
    assert_eq!(s.on_tick(26001), TickAction::Stop);
}

#[test]
fn good_text_frame_dispatches_command() {
    let mut s = Session::new(0);
    let text = b"{\"method\":\"led\",\"led\":2,\"r\":9,\"g\":8,\"b\":7}".to_vec();
    match s.on_frame(100, FrameEvent::Text(text)) {
        FrameAction::Dispatch(req) => {
            assert_eq!(req, CURequest::Led { led: 2, r: 9, g: 8, b: 7 })
        }
        _ => panic!("a well-formed request must be dispatched"),
    }
    assert!(s.alive);
}

#[test]
fn malformed_text_frame_answers_error_and_stays_open() {
    let mut s = Session::new(0);
    match s.on_frame(100, FrameEvent::Text(b"{oops".to_vec())) {
        FrameAction::Reply(r) => {
            let text = String::from_utf8(r).unwrap();
            assert!(text.starts_with("{\"success\":false,\"error\":\"protocol error: "));
            assert!(text.ends_with("\"}"));
        }
        _ => panic!("a malformed request must be answered with a failure"),
    }
    assert!(s.alive);
    assert_eq!(s.on_tick(5000), TickAction::Ping);
}

#[test]
fn binary_frame_is_rejected() {
    let mut s = Session::new(0);
    match s.on_frame(100, FrameEvent::Binary) {
        FrameAction::Reply(r) => {
            assert_eq!(
                r,
                b"{\"success\":false,\"error\":\"unexpected binary data\"}".to_vec()
            );
        }
        _ => panic!("a binary frame must be answered with a failure"),
    }
    assert!(s.alive);
}

#[test]
fn close_frame_ends_the_session() {
    let mut s = Session::new(0);
    assert!(matches!(s.on_frame(100, FrameEvent::Close), FrameAction::Stop));
    assert!(!s.alive);
}

#[test]
fn responses_follow_the_command_outcome() {
    assert_eq!(response_for(&Ok(())), b"{\"success\":true}".to_vec());
    assert_eq!(
        response_for(&Err(SendError::Serialization(b"bad frame".to_vec()))),
        b"{\"success\":false,\"error\":\"serialization error: bad frame\"}".to_vec()
    );
}

/// A client request travels through session, codec, channel and color
/// conversion, down to the exact bytes the device sees and the exact reply
/// the client gets.
#[test]
fn red_request_end_to_end() {
    let mut s = Session::new(0);
    let mut c = Channel::new();
    let text = b"{\"method\":\"led\",\"led\":0,\"r\":255,\"g\":0,\"b\":0}".to_vec();
    let req = match s.on_frame(1000, FrameEvent::Text(text)) {
        FrameAction::Dispatch(req) => req,
        _ => panic!("the request must be dispatched"),
    };
    assert!(matches!(c.step(ChannelEvent::Submit(req)), ChannelAction::Enumerate));
    let ports = vec![PortCandidate { name: b"ttyACM0".to_vec(), usb_vid: Some(0x0483) }];
    let name = match c.step(ChannelEvent::Ports(Ok(ports))) {
        ChannelAction::Open(name) => name,
        _ => panic!("the controller must be opened"),
    };
    assert_eq!(name, b"ttyACM0".to_vec());
    let bytes = match c.step(ChannelEvent::Opened(Ok(()))) {
        ChannelAction::Write(bytes) => bytes,
        _ => panic!("the command must be written"),
    };
    assert_eq!(bytes, b"{\"led\":0,\"r\":255,\"g\":0,\"b\":0,\"w\":0}".to_vec());
    let result = match c.step(ChannelEvent::Wrote(Ok(()))) {
        ChannelAction::Finish(result) => result,
        _ => panic!("the send must finish"),
    };
    assert_eq!(response_for(&result), b"{\"success\":true}".to_vec());
}
