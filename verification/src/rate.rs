//! The rate service: the latest quote, and subscriptions that follow it.

use vstd::prelude::*;

verus! {

/// A snapshot of the market: what the desk asks and what it bids for one
/// whole unit of the synthetic asset, in the smallest unit of the base
/// asset, and when that was observed.
#[derive(Clone, Copy, Debug, PartialEq, Eq, Structural)]
pub struct Quote {
    pub ask: u64,
    pub bid: u64,
    pub observed_at: u64,
}

/// Why the rate service refused a request.
#[derive(Clone, Copy, Debug, PartialEq, Eq, Structural)]
pub enum RateError {
    /// No quote has arrived yet, or the latest one is older than allowed.
    StaleOrMissingRate,
    /// The quote does not have `ask >= bid > 0`.
    InvalidQuote,
    /// The service has counted as many quotes as it can.
    Exhausted,
}

impl Quote {
    /// A quote asks at least what it bids, and bids more than nothing.
    pub open spec fn wf(&self) -> bool {
        self.ask >= self.bid && self.bid > 0
    }

    /// Whether the quote is well formed.
    pub fn is_valid(&self) -> (valid: bool)
        ensures
            valid == self.wf(),
    {
        self.ask >= self.bid && self.bid > 0
    }

    /// How old the quote is at `now`; nothing for a quote from the future.
    pub open spec fn age(&self, now: u64) -> int {
        if now >= self.observed_at {
            now - self.observed_at
        } else {
            0
        }
    }
}

/// Holds the latest quote and counts the quotes published so far.
pub struct RateService {
    pub latest: Option<Quote>,
    pub published: u64,
    /// Every quote published, oldest first.
    pub history: Ghost<Seq<Quote>>,
}

/// A subscriber's place in the sequence of published quotes.
pub struct Subscription {
    /// How many quotes had been published when the subscriber last looked.
    pub seen: u64,
    /// How many quotes had been published when the subscription was made.
    pub since: Ghost<nat>,
    /// The places in the history of the quotes observed so far, in the
    /// order in which they were observed.
    pub observed: Ghost<Seq<nat>>,
}

impl RateService {
    /// The count and the latest quote agree with the history, and every
    /// quote in it is well formed.
    pub open spec fn wf(&self) -> bool {
        &&& self.published == self.history@.len()
        &&& self.latest == if self.history@.len() == 0 {
            None
        } else {
            Some(self.history@.last())
        }
        &&& forall|i: int| 0 <= i < self.history@.len() ==> (#[trigger] self.history@[i]).wf()
    }

    /// A service that has not seen a quote yet.
    pub fn new() -> (service: Self)
        ensures
            service.wf(),
            service.history@.len() == 0,
    {
        RateService { latest: None, published: 0, history: Ghost(Seq::empty()) }
    }

    /// Makes the quote the latest one, for `latest` and for every subscriber.
    pub fn publish(&mut self, quote: Quote) -> (done: Result<(), RateError>)
        requires
            old(self).wf(),
        ensures
            final(self).wf(),
            !quote.wf() ==> done == Err::<(), RateError>(RateError::InvalidQuote),
            quote.wf() && old(self).published == u64::MAX ==> done == Err::<(), RateError>(
                RateError::Exhausted,
            ),
            done.is_err() ==> final(self).history@ == old(self).history@,
            quote.wf() && old(self).published < u64::MAX ==> done.is_ok() && final(self).history@
                == old(self).history@.push(quote),
    {
        if !quote.is_valid() {
            return Err(RateError::InvalidQuote);
        }
        if self.published == u64::MAX {
            return Err(RateError::Exhausted);
        }
        self.latest = Some(quote);
        self.published = self.published + 1;
        self.history = Ghost(self.history@.push(quote));
        Ok(())
    }

    /// The most recent quote, if one has arrived.
    pub fn latest(&self) -> (quote: Option<Quote>)
        requires
            self.wf(),
        ensures
            quote == if self.history@.len() == 0 {
                None
            } else {
                Some(self.history@.last())
            },
    {
        self.latest
    }

    /// The most recent quote, unless none has arrived or it is older at
    /// `now` than `max_age`.
    pub fn fresh(&self, now: u64, max_age: u64) -> (quote: Result<Quote, RateError>)
        requires
            self.wf(),
        ensures
            match quote {
                Ok(fresh) => self.history@.len() > 0 && fresh == self.history@.last() && fresh.age(
                    now,
                ) <= max_age && fresh.wf(),
                Err(why) => why == RateError::StaleOrMissingRate && (self.history@.len() == 0
                    || self.history@.last().age(now) > max_age),
            },
    {
        match self.latest {
            Some(quote) => {
                if now >= quote.observed_at && now - quote.observed_at > max_age {
                    Err(RateError::StaleOrMissingRate)
                } else {
                    Ok(quote)
                }
            },
            None => Err(RateError::StaleOrMissingRate),
        }
    }

    /// A subscription that starts now: it will observe quotes published
    /// from here on and none of the earlier ones.
    pub fn subscribe(&self) -> (subscription: Subscription)
        requires
            self.wf(),
        ensures
            subscription.follows(self),
            subscription.since@ == self.history@.len(),
            subscription.observed@.len() == 0,
    {
        Subscription {
            seen: self.published,
            since: Ghost(self.history@.len()),
            observed: Ghost(Seq::empty()),
        }
    }
}

impl Subscription {
    /// The subscriber has looked at no more than was published; what it
    /// observed was published after it subscribed and before it last
    /// looked, and it observed the quotes in the order of publication.
    pub open spec fn follows(&self, service: &RateService) -> bool {
        &&& self.since@ <= self.seen <= service.published
        &&& forall|k: int|
            0 <= k < self.observed@.len() ==> self.since@ <= (#[trigger] self.observed@[k])
                < self.seen
        &&& forall|a: int, b: int|
            0 <= a < b < self.observed@.len() ==> (#[trigger] self.observed@[a])
                < (#[trigger] self.observed@[b])
    }

    /// The next quote for this subscriber: the latest one, if it was
    /// published after the subscriber last looked. Quotes in between are
    /// passed over.
    pub fn next(&mut self, service: &RateService) -> (quote: Option<Quote>)
        requires
            service.wf(),
            old(self).follows(service),
        ensures
            final(self).follows(service),
            final(self).since@ == old(self).since@,
            final(self).seen == service.published,
            old(self).seen == service.published ==> quote.is_none() && final(self).observed@
                == old(self).observed@,
            old(self).seen < service.published ==> quote == Some(service.history@.last())
                && final(self).observed@ == old(self).observed@.push(
                (service.history@.len() - 1) as nat,
            ),
    {
        if self.seen == service.published {
            return None;
        }
        self.seen = service.published;
        self.observed = Ghost(self.observed@.push((service.history@.len() - 1) as nat));
        service.latest
    }
}

/// Publication order is kept: of two quotes that a subscriber observed, the
/// one it observed first was published first, and both were published
/// after it subscribed.
pub proof fn lemma_observed_in_publish_order(
    service: RateService,
    subscription: Subscription,
    first: int,
    second: int,
)
    requires
        service.wf(),
        subscription.follows(&service),
        0 <= first < second < subscription.observed@.len(),
    ensures
        subscription.since@ <= subscription.observed@[first] < subscription.observed@[second]
            < service.history@.len(),
{
}

/// A subscription stays valid when a quote is published, and the new quote
/// is then the next one that it observes.
pub proof fn lemma_publish_keeps_subscription(
    before: RateService,
    after: RateService,
    subscription: Subscription,
    quote: Quote,
)
    requires
        before.wf(),
        after.wf(),
        subscription.follows(&before),
        after.history@ == before.history@.push(quote),
    ensures
        subscription.follows(&after),
        subscription.seen < after.published,
        after.history@.last() == quote,
{
}

} // verus!
