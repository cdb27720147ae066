use cosmic_randr::ChannelState;
use cosmic_randr::Message;
use cosmic_randr::RecvPoll;

#[test]
fn channel_delivers_in_order() {
    let mut c = ChannelState::new();
    c.send(Message::ManagerDone);
    c.send(Message::ConfigurationSucceeded);
    assert_eq!(c.try_recv(), Some(Message::ManagerDone));
    assert_eq!(c.try_recv(), Some(Message::ConfigurationSucceeded));
    assert_eq!(c.try_recv(), None);
}

#[test]
fn channel_send_after_close_is_noop() {
    let mut c = ChannelState::new();
    c.close();
    c.send(Message::ManagerDone);
    assert_eq!(c.poll_recv(), RecvPoll::EndOfStream);
}

#[test]
fn channel_end_of_stream_exactly_after_drain() {
    let mut c = ChannelState::new();
    c.send(Message::ManagerDone);
    c.send(Message::ManagerFinished);
    c.close();
    // Never end-of-stream while messages remain queued.
    assert_eq!(c.poll_recv(), RecvPoll::Ready(Message::ManagerDone));
    assert_eq!(c.poll_recv(), RecvPoll::Ready(Message::ManagerFinished));
    // End-of-stream exactly once the queue is exhausted, and from then on.
    assert_eq!(c.poll_recv(), RecvPoll::EndOfStream);
    assert_eq!(c.poll_recv(), RecvPoll::EndOfStream);
}

#[test]
fn channel_waits_while_sender_alive() {
    let mut c = ChannelState::new();
    assert_eq!(c.poll_recv(), RecvPoll::WouldWait);
    c.send(Message::Unsupported);
    assert_eq!(c.poll_recv(), RecvPoll::Ready(Message::Unsupported));
    assert_eq!(c.poll_recv(), RecvPoll::WouldWait);
}
