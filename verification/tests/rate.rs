use bobtimus::rate::{Quote, RateError, RateService};

fn quote(ask: u64, bid: u64, at: u64) -> Quote {
    Quote { ask, bid, observed_at: at }
}

#[test]
fn nothing_before_the_first_quote() {
    let service = RateService::new();
    assert_eq!(service.latest(), None);
    assert_eq!(service.fresh(0, u64::MAX), Err(RateError::StaleOrMissingRate));
    let mut subscription = service.subscribe();
    assert_eq!(subscription.next(&service), None);
}

#[test]
fn a_subscriber_sees_quotes_in_the_order_of_publication() {
    let mut service = RateService::new();
    assert_eq!(service.publish(quote(9, 8, 1)), Ok(()));
    let mut subscription = service.subscribe();
    assert_eq!(subscription.next(&service), None);
    assert_eq!(service.publish(quote(10, 9, 2)), Ok(()));
    assert_eq!(subscription.next(&service), Some(quote(10, 9, 2)));
    assert_eq!(subscription.next(&service), None);
    assert_eq!(service.publish(quote(11, 10, 3)), Ok(()));
    assert_eq!(subscription.next(&service), Some(quote(11, 10, 3)));
    assert_eq!(subscription.next(&service), None);
}

#[test]
fn a_slow_subscriber_still_sees_the_latest_quote() {
    let mut service = RateService::new();
    let mut slow = service.subscribe();
    let mut quick = service.subscribe();
    assert_eq!(service.publish(quote(10, 9, 1)), Ok(()));
    assert_eq!(quick.next(&service), Some(quote(10, 9, 1)));
    assert_eq!(service.publish(quote(11, 10, 2)), Ok(()));
    assert_eq!(service.publish(quote(12, 11, 3)), Ok(()));
    assert_eq!(slow.next(&service), Some(quote(12, 11, 3)));
    assert_eq!(quick.next(&service), Some(quote(12, 11, 3)));
    assert_eq!(service.latest(), Some(quote(12, 11, 3)));
}

#[test]
fn a_quote_must_ask_at_least_its_bid_and_bid_something() {
    let mut service = RateService::new();
    assert_eq!(service.publish(quote(1, 2, 0)), Err(RateError::InvalidQuote));
    assert_eq!(service.publish(quote(1, 0, 0)), Err(RateError::InvalidQuote));
    assert_eq!(service.publish(quote(0, 0, 0)), Err(RateError::InvalidQuote));
    assert_eq!(service.latest(), None);
    assert_eq!(service.publish(quote(1, 1, 0)), Ok(()));
    assert_eq!(service.latest(), Some(quote(1, 1, 0)));
    assert!(quote(2, 1, 0).is_valid());
    assert!(!quote(1, 2, 0).is_valid());
}

#[test]
fn a_quote_goes_stale_after_the_bound() {
    let mut service = RateService::new();
    assert_eq!(service.publish(quote(10, 9, 100)), Ok(()));
    assert_eq!(service.fresh(100, 0), Ok(quote(10, 9, 100)));
    assert_eq!(service.fresh(130, 30), Ok(quote(10, 9, 100)));
    assert_eq!(service.fresh(131, 30), Err(RateError::StaleOrMissingRate));
    assert_eq!(service.fresh(50, 0), Ok(quote(10, 9, 100)));
    assert_eq!(service.latest(), Some(quote(10, 9, 100)));
}
