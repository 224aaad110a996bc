use zenith_backend::payoff::{check_payoff_legs, check_payoff_steps};
use zenith_backend::spot_feed::{spot_feed_step, SpotFeedAction, SpotFeedEvent};

#[test]
fn the_snapshot_is_sent_on_connect() {
    let action = spot_feed_step(SpotFeedEvent::Connected("{\"prices\":{}}".to_string()));
    assert!(matches!(action, SpotFeedAction::Send(p) if p == "{\"prices\":{}}"));
}

#[test]
fn broadcast_payloads_are_forwarded_unchanged() {
    let action = spot_feed_step(SpotFeedEvent::Broadcast("tick".to_string()));
    assert!(matches!(action, SpotFeedAction::Send(p) if p == "tick"));
}

#[test]
fn a_lagging_client_carries_on_without_a_resync() {
    assert!(matches!(spot_feed_step(SpotFeedEvent::Lagged), SpotFeedAction::Continue));
}

#[test]
fn client_chatter_is_ignored() {
    assert!(matches!(spot_feed_step(SpotFeedEvent::ClientOther), SpotFeedAction::Continue));
}

#[test]
fn the_feed_stops_on_close_error_or_failed_send() {
    for event in [
        SpotFeedEvent::ChannelClosed,
        SpotFeedEvent::ClientClose,
        SpotFeedEvent::ClientError,
        SpotFeedEvent::SendFailed,
    ] {
        assert!(matches!(spot_feed_step(event), SpotFeedAction::Stop));
    }
}

#[test]
fn a_payoff_needs_legs() {
    let e = check_payoff_legs(0).unwrap_err();
    assert_eq!(e.status, 400);
    assert_eq!(e.message, "legs must not be empty");
    assert!(check_payoff_legs(1).is_ok());
    assert!(check_payoff_legs(4).is_ok());
}

#[test]
fn a_payoff_needs_positive_steps() {
    let e = check_payoff_steps(0).unwrap_err();
    assert_eq!(e.status, 400);
    assert_eq!(e.message, "steps must be positive");
    assert!(check_payoff_steps(1).is_ok());
    assert!(check_payoff_steps(200).is_ok());
}
