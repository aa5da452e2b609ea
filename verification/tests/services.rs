use hashbench::backend::{accept_step, connection_step, AcceptAction, AcceptEvent, ConnectionAction, ConnectionEvent};
use hashbench::datagram::{
    client_receiver_step, forwarder_step, sender_receiver_step, ForwarderAction, ForwarderEvent,
    Listener, ListenerAction, ListenerEvent, ReceiverAction, ReceiverEvent,
};
use hashbench::hashing::hash_reply;

#[test]
fn accept_loop_decisions() {
    assert!(matches!(accept_step(&AcceptEvent::Cancelled), AcceptAction::Shutdown));
    assert!(matches!(accept_step(&AcceptEvent::Accepted), AcceptAction::Serve));
    assert!(matches!(accept_step(&AcceptEvent::AcceptFailed), AcceptAction::Fail));
}

#[test]
fn connection_decisions() {
    assert!(matches!(connection_step(&ConnectionEvent::Cancelled), ConnectionAction::Close));
    assert!(matches!(connection_step(&ConnectionEvent::ReadFailed), ConnectionAction::ReadAgain));
    assert!(matches!(connection_step(&ConnectionEvent::Read(Vec::new())), ConnectionAction::ReadAgain));
    match connection_step(&ConnectionEvent::Read(b"r\nHost: x\n\nabc".to_vec())) {
        ConnectionAction::Respond(response) => {
            let mut hasher = fnv::FnvHasher::default();
            std::hash::Hasher::write(&mut hasher, b"abc");
            let hash = std::hash::Hasher::finish(&hasher);
            assert_eq!(response, format!("HTTP/1.1 200 OK\r\nHost: x\r\n\r\n{}", hash));
        }
        _ => panic!("expected a response"),
    }
}

#[test]
fn forwarder_decisions() {
    assert!(matches!(forwarder_step(&ForwarderEvent::Cancelled), ForwarderAction::Finish));
    assert!(matches!(forwarder_step(&ForwarderEvent::RecvFailed), ForwarderAction::Fail));
    match forwarder_step(&ForwarderEvent::Datagram(b"payload".to_vec())) {
        ForwarderAction::Reply(reply) => assert_eq!(reply, hash_reply(b"payload")),
        _ => panic!("expected a reply"),
    }
}

#[test]
fn listener_empties_buffer_after_successful_send() {
    let mut listener = Listener::new();
    match listener.step(&ListenerEvent::Datagram(b"one".to_vec())) {
        ListenerAction::Send(out) => assert_eq!(out, hash_reply(b"one")),
        _ => panic!("expected a send"),
    }
    assert!(matches!(listener.step(&ListenerEvent::Sent), ListenerAction::CountSentAndReceive));
    assert_eq!(listener.pending_len(), 0);
    match listener.step(&ListenerEvent::Datagram(b"two".to_vec())) {
        ListenerAction::Send(out) => assert_eq!(out, hash_reply(b"two")),
        _ => panic!("expected a send"),
    }
}

#[test]
fn listener_resends_replies_after_failed_send() {
    let mut listener = Listener::new();
    listener.step(&ListenerEvent::Datagram(b"one".to_vec()));
    assert!(matches!(listener.step(&ListenerEvent::SendFailed), ListenerAction::Receive));
    assert!(matches!(listener.step(&ListenerEvent::RecvFailed), ListenerAction::Receive));
    match listener.step(&ListenerEvent::Datagram(b"two".to_vec())) {
        ListenerAction::Send(out) => {
            let mut expected = hash_reply(b"one");
            expected.extend(hash_reply(b"two"));
            assert_eq!(out, expected);
        }
        _ => panic!("expected a send"),
    }
    assert_eq!(listener.pending_len(), 16);
}

#[test]
fn receiver_decisions() {
    assert!(matches!(sender_receiver_step(&ReceiverEvent::Cancelled), ReceiverAction::Stop));
    assert!(matches!(sender_receiver_step(&ReceiverEvent::RecvFailed), ReceiverAction::Stop));
    assert!(matches!(sender_receiver_step(&ReceiverEvent::Received), ReceiverAction::CountAndReceive));
    assert!(matches!(client_receiver_step(&ReceiverEvent::RecvFailed), ReceiverAction::Receive));
    assert!(matches!(client_receiver_step(&ReceiverEvent::Received), ReceiverAction::CountAndReceive));
}
