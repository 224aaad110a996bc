use zenith_backend::alerts::{alert_deletion_outcome, parse_alert_condition, AlertCondition};
use zenith_backend::error::{unknown_underlying, AppError};
use zenith_backend::market::expiry_calendar;
use zenith_backend::pagination::{has_more, page_bounds, DEFAULT_LIST_LIMIT, MAX_LIST_LIMIT};
use zenith_backend::payoff::default_steps;
use zenith_backend::positions::{parse_leg_kinds, settle, OptionKind, PositionStatus, Side};
use zenith_backend::rate_limit_key::BearerOrIpKeyExtractor;
use zenith_backend::request_id::{new_id, MakeRequestUuid};
use zenith_backend::strategies::strategy_leg_count_ok;
use zenith_backend::watchlist::watchlist_removal_outcome;

#[test]
fn page_bounds_default_and_clamp() {
    let b = page_bounds(None, None);
    assert_eq!((b.limit, b.offset), (DEFAULT_LIST_LIMIT, 0));
    let b = page_bounds(Some(999_999), Some(-5));
    assert_eq!((b.limit, b.offset), (MAX_LIST_LIMIT, 0));
    assert_eq!(MAX_LIST_LIMIT, 200);
    let b = page_bounds(Some(0), Some(4));
    assert_eq!((b.limit, b.offset), (1, 4));
    let b = page_bounds(Some(2), Some(2));
    assert_eq!((b.limit, b.offset), (2, 2));
}

#[test]
fn has_more_means_rows_remain_past_the_page() {
    assert!(has_more(0, 2, 3));
    assert!(!has_more(2, 1, 3));
    assert!(!has_more(0, 0, 0));
    assert!(!has_more(i64::MAX, 0, 5));
}

#[test]
fn expiry_calendar_lists_seven_expiries() {
    let now = 1_000;
    let entries = expiry_calendar(now);
    let days: Vec<u32> = entries.iter().map(|e| e.days_to_expiry).collect();
    assert_eq!(days, vec![7, 14, 21, 30, 60, 90, 180]);
    assert_eq!(entries[3].label, "30D");
    assert_eq!(entries[6].label, "180D");
    assert_eq!(entries[0].timestamp, 1_000 + 7 * 86_400);
}

#[test]
fn request_ids_are_hyphenated_uuid_v4() {
    let mut maker = MakeRequestUuid;
    let id = maker.make_request_id();
    assert_eq!(id.len(), 36);
    assert_eq!(id.matches('-').count(), 4);
    assert_eq!(id.as_bytes()[14], b'4');
    assert_ne!(maker.make_request_id(), id);
    assert_ne!(new_id(), new_id());
}

#[test]
fn rate_limit_key_prefers_the_bearer_token() {
    let k = BearerOrIpKeyExtractor;
    assert_eq!(k.extract_key(Some("Bearer tok"), Some("127.0.0.1")).as_deref(), Some("token:tok"));
    assert_eq!(k.extract_key(Some("Basic x"), Some("127.0.0.1")).as_deref(), Some("ip:127.0.0.1"));
    assert_eq!(k.extract_key(None, Some("10.0.0.2")).as_deref(), Some("ip:10.0.0.2"));
    assert_eq!(k.extract_key(None, None), None);
}

#[test]
fn unknown_underlying_is_a_404_naming_it() {
    let e: AppError = unknown_underlying("DOGE");
    assert_eq!(e.status, 404);
    assert_eq!(e.message, "unknown underlying \"DOGE\"");
    assert!(e.message.contains("DOGE"));
    let e = AppError::new(418, "teapot".to_string());
    assert_eq!((e.status, e.message.as_str()), (418, "teapot"));
}

#[test]
fn alert_conditions_are_above_or_below() {
    assert_eq!(parse_alert_condition("above").ok(), Some(AlertCondition::Above));
    assert_eq!(parse_alert_condition("below").ok(), Some(AlertCondition::Below));
    let e = parse_alert_condition("sideways").err().unwrap();
    assert_eq!(e.status, 400);
    assert!(e.message.contains("above"));
    assert!(alert_deletion_outcome(1).is_ok());
    let e = alert_deletion_outcome(0).err().unwrap();
    assert_eq!((e.status, e.message.as_str()), (404, "no alert with that id for this wallet"));
}

#[test]
fn watchlist_removal_of_a_missing_symbol_is_a_404() {
    assert!(watchlist_removal_outcome("BTC", 1).is_ok());
    let e = watchlist_removal_outcome("BTC", 0).err().unwrap();
    assert_eq!(e.status, 404);
    assert_eq!(e.message, "\"BTC\" is not on this wallet's watchlist");
}

#[test]
fn leg_kinds_are_checked() {
    assert_eq!(parse_leg_kinds("call", "long"), Some((OptionKind::Call, Side::Long)));
    assert_eq!(parse_leg_kinds("put", "short"), Some((OptionKind::Put, Side::Short)));
    assert_eq!(parse_leg_kinds("Call", "long"), None);
    assert_eq!(parse_leg_kinds("put", "buy"), None);
}

#[test]
fn positions_settle_once() {
    assert_eq!(settle(PositionStatus::Open, false), Some(PositionStatus::Closed));
    assert_eq!(settle(PositionStatus::Open, true), Some(PositionStatus::Rolled));
    assert_eq!(settle(PositionStatus::Closed, false), None);
    assert_eq!(settle(PositionStatus::Rolled, true), None);
    assert_eq!(PositionStatus::parse("rolled"), Some(PositionStatus::Rolled));
    assert_eq!(PositionStatus::parse("pending"), None);
    assert_eq!(PositionStatus::Closed.as_text(), "closed");
}

#[test]
fn strategies_need_two_legs() {
    assert!(!strategy_leg_count_ok(0));
    assert!(!strategy_leg_count_ok(1));
    assert!(strategy_leg_count_ok(2));
}

#[test]
fn payoff_defaults_to_200_steps() {
    assert_eq!(default_steps(), 200);
}
