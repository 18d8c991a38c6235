use polkadot_network::{ChannelPoll, RedirectReceiver, RedirectStage, RedirectStep};

#[test]
fn redirect_receiver_follows_the_real_channel() {
    let mut r = RedirectReceiver::new();
    assert_eq!(r.on_poll(ChannelPoll::Pending), RedirectStep::NotReady);
    assert_eq!(r.stage(), RedirectStage::Outer);
    assert_eq!(r.on_poll(ChannelPoll::Ready), RedirectStep::PollInner);
    assert_eq!(r.stage(), RedirectStage::Inner);
    assert_eq!(r.on_poll(ChannelPoll::Pending), RedirectStep::NotReady);
    assert_eq!(r.on_poll(ChannelPoll::Ready), RedirectStep::Resolved);
    assert_eq!(r.stage(), RedirectStage::Finished);
}

#[test]
fn redirect_receiver_fails_when_either_side_hangs_up() {
    let mut r = RedirectReceiver::new();
    assert_eq!(r.on_poll(ChannelPoll::HungUp), RedirectStep::Failed);
    assert_eq!(r.stage(), RedirectStage::Finished);
    let mut r = RedirectReceiver::new();
    r.on_poll(ChannelPoll::Ready);
    assert_eq!(r.on_poll(ChannelPoll::HungUp), RedirectStep::Failed);
    assert_eq!(r.stage(), RedirectStage::Finished);
}
