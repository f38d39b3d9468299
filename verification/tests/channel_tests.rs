use colorunit::channel::{Channel, ChannelAction, ChannelEvent, PortCandidate, SendError};
use colorunit::codec::CURequest;
use colorunit::session::response_for;

fn red() -> CURequest {
    CURequest::Led { led: 0, r: 255, g: 0, b: 0 }
}

fn controller(name: &str) -> PortCandidate {
    PortCandidate { name: name.as_bytes().to_vec(), usb_vid: Some(0x0483) }
}

fn other_device(name: &str) -> PortCandidate {
    PortCandidate { name: name.as_bytes().to_vec(), usb_vid: Some(0x1234) }
}

#[test]
fn fresh_channel_runs_discovery_first() {
    let mut c = Channel::new();
    assert!(!c.has_handle);
    let a = c.step(ChannelEvent::Submit(red()));
    assert!(matches!(a, ChannelAction::Enumerate));
}

#[test]
fn full_send_reaches_device_and_succeeds() {
    let mut c = Channel::new();
    assert!(matches!(c.step(ChannelEvent::Submit(red())), ChannelAction::Enumerate));
    let ports = vec![other_device("ttyS0"), controller("ttyACM0"), controller("ttyACM1")];
    match c.step(ChannelEvent::Ports(Ok(ports))) {
        ChannelAction::Open(name) => assert_eq!(name, b"ttyACM0".to_vec()),
        a => panic!("expected an open action, got {:?}", action_name(&a)),
    }
    match c.step(ChannelEvent::Opened(Ok(()))) {
        ChannelAction::Write(bytes) => {
            assert_eq!(bytes, b"{\"led\":0,\"r\":255,\"g\":0,\"b\":0,\"w\":0}".to_vec())
        }
        a => panic!("expected a write action, got {:?}", action_name(&a)),
    }
    assert!(c.has_handle);
    match c.step(ChannelEvent::Wrote(Ok(()))) {
        ChannelAction::Finish(result) => {
            assert!(result.is_ok());
            assert_eq!(response_for(&result), b"{\"success\":true}".to_vec());
        }
        a => panic!("expected the send to finish, got {:?}", action_name(&a)),
    }
    assert!(c.has_handle);
}

#[test]
fn held_link_writes_at_once() {
    let mut c = Channel::new();
    c.step(ChannelEvent::Submit(red()));
    c.step(ChannelEvent::Ports(Ok(vec![controller("ttyACM0")])));
    c.step(ChannelEvent::Opened(Ok(())));
    c.step(ChannelEvent::Wrote(Ok(())));
    let a = c.step(ChannelEvent::Submit(CURequest::Led { led: 1, r: 0, g: 0, b: 255 }));
    match a {
        ChannelAction::Write(bytes) => {
            assert_eq!(bytes, b"{\"led\":1,\"r\":0,\"g\":0,\"b\":255,\"w\":0}".to_vec())
        }
        other => panic!("expected a write action, got {:?}", action_name(&other)),
    }
}

#[test]
fn no_matching_device_fails_discovery() {
    let mut c = Channel::new();
    c.step(ChannelEvent::Submit(red()));
    let a = c.step(ChannelEvent::Ports(Ok(vec![other_device("ttyS0")])));
    match a {
        ChannelAction::Finish(Err(SendError::Discovery(msg))) => {
            assert_eq!(msg, b"no matching usb device found".to_vec());
            let resp = response_for(&Err(SendError::Discovery(msg)));
            assert_eq!(
                resp,
                b"{\"success\":false,\"error\":\"discovery error: no matching usb device found\"}"
                    .to_vec()
            );
        }
        other => panic!("expected a discovery failure, got {:?}", action_name(&other)),
    }
    assert!(!c.has_handle);
}

#[test]
fn enumeration_failure_fails_discovery() {
    let mut c = Channel::new();
    c.step(ChannelEvent::Submit(red()));
    let a = c.step(ChannelEvent::Ports(Err(b"permission denied".to_vec())));
    match a {
        ChannelAction::Finish(Err(SendError::Discovery(msg))) => {
            assert_eq!(msg, b"permission denied".to_vec());
        }
        other => panic!("expected a discovery failure, got {:?}", action_name(&other)),
    }
}

#[test]
fn open_failure_is_a_connection_error_and_keeps_no_link() {
    let mut c = Channel::new();
    c.step(ChannelEvent::Submit(red()));
    c.step(ChannelEvent::Ports(Ok(vec![controller("ttyACM0")])));
    let a = c.step(ChannelEvent::Opened(Err(b"busy".to_vec())));
    match a {
        ChannelAction::Finish(Err(SendError::Connection(msg))) => {
            assert_eq!(msg, b"busy".to_vec());
        }
        other => panic!("expected a connection failure, got {:?}", action_name(&other)),
    }
    assert!(!c.has_handle);
}

#[test]
fn io_failure_drops_link_and_next_send_rediscovers() {
    let mut c = Channel::new();
    c.step(ChannelEvent::Submit(red()));
    c.step(ChannelEvent::Ports(Ok(vec![controller("ttyACM0")])));
    c.step(ChannelEvent::Opened(Ok(())));
    assert!(c.has_handle);
    let a = c.step(ChannelEvent::Wrote(Err(b"device unplugged".to_vec())));
    match a {
        ChannelAction::Finish(Err(SendError::Io(msg))) => {
            let resp = response_for(&Err(SendError::Io(msg)));
            assert_eq!(
                resp,
                b"{\"success\":false,\"error\":\"i/o error: device unplugged\"}".to_vec()
            );
        }
        other => panic!("expected an i/o failure, got {:?}", action_name(&other)),
    }
    assert!(!c.has_handle);
    let a = c.step(ChannelEvent::Submit(red()));
    assert!(matches!(a, ChannelAction::Enumerate));
}

#[test]
fn events_outside_a_send_do_nothing() {
    let mut c = Channel::new();
    assert!(matches!(c.step(ChannelEvent::Wrote(Ok(()))), ChannelAction::Nothing));
    assert!(matches!(
        c.step(ChannelEvent::Ports(Ok(vec![controller("ttyACM0")]))),
        ChannelAction::Nothing
    ));
    assert!(matches!(c.step(ChannelEvent::Opened(Ok(()))), ChannelAction::Nothing));
    assert!(!c.has_handle);
    assert!(matches!(c.step(ChannelEvent::Submit(red())), ChannelAction::Enumerate));
}

fn action_name(a: &ChannelAction) -> &'static str {
    match a {
        ChannelAction::Enumerate => "enumerate",
        ChannelAction::Open(_) => "open",
        ChannelAction::Write(_) => "write",
        ChannelAction::Finish(_) => "finish",
        ChannelAction::Nothing => "nothing",
    }
}
