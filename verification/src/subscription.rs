//! The delivery state of one subscription: what was last sent and when, and
//! the rule of each delivery mode.

use crate::protocol::value_opt_view;
use crate::types::SubscriptionMode;
use crate::value::{ValueView, WindValue};
use vstd::prelude::*;

verus! {

/// What a publisher remembers of one subscription of one client.
#[derive(Debug)]
pub struct ClientSubscription {
    pub mode: SubscriptionMode,
    /// When a value was last sent, on the publisher's monotonic clock in
    /// milliseconds.
    pub last_sent_at: Option<u64>,
    pub last_sent_value: Option<WindValue>,
}

/// The model of a [`ClientSubscription`].
pub struct SubscriptionView {
    pub mode: SubscriptionMode,
    pub last_sent_at: Option<u64>,
    pub last_sent_value: Option<ValueView>,
}

/// A published value as a subscription sees it: the time at which it is
/// offered, and the value.
pub struct Offer {
    pub at: u64,
    pub value: ValueView,
}

/// The time from `earlier` to `later`, and zero where `later` is not later.
pub open spec fn elapsed(earlier: u64, later: u64) -> int {
    if later >= earlier {
        later - earlier
    } else {
        0
    }
}

impl SubscriptionView {
    /// A subscription to which nothing has been sent.
    pub open spec fn fresh(mode: SubscriptionMode) -> SubscriptionView {
        SubscriptionView { mode, last_sent_at: None, last_sent_value: None }
    }

    /// Whether a value offered at `now` is to be sent.
    ///
    /// `Once`: only if nothing was sent yet. `OnChange`: only if the value
    /// is another than the last one sent. `Periodic`: if nothing was sent
    /// yet, or the interval has passed since the last sending.
    pub open spec fn should_send(self, now: u64, value: ValueView) -> bool {
        match self.mode {
            SubscriptionMode::Once => self.last_sent_at is None,
            SubscriptionMode::OnChange => self.last_sent_value != Some(value),
            SubscriptionMode::Periodic { interval_ms } => match self.last_sent_at {
                None => true,
                Some(last) => elapsed(last, now) >= interval_ms,
            },
        }
    }

    /// The subscription after `value` was sent at `now`.
    pub open spec fn mark_sent(self, now: u64, value: ValueView) -> SubscriptionView {
        SubscriptionView { last_sent_at: Some(now), last_sent_value: Some(value), ..self }
    }

    /// The subscription after a value was offered, and sent if it was due.
    pub open spec fn offered(self, offer: Offer) -> SubscriptionView {
        if self.should_send(offer.at, offer.value) {
            self.mark_sent(offer.at, offer.value)
        } else {
            self
        }
    }

    /// The subscription after a sequence of offers.
    pub open spec fn after(self, offers: Seq<Offer>) -> SubscriptionView
        decreases offers.len(),
    {
        if offers.len() == 0 {
            self
        } else {
            self.after(offers.drop_last()).offered(offers.last())
        }
    }

    /// The offers of a sequence that are sent, in order.
    pub open spec fn deliveries(self, offers: Seq<Offer>) -> Seq<Offer>
        decreases offers.len(),
    {
        if offers.len() == 0 {
            Seq::empty()
        } else {
            let before = self.deliveries(offers.drop_last());
            if self.after(offers.drop_last()).should_send(offers.last().at, offers.last().value) {
                before.push(offers.last())
            } else {
                before
            }
        }
    }
}

impl View for ClientSubscription {
    type V = SubscriptionView;

    open spec fn view(&self) -> SubscriptionView {
        SubscriptionView {
            mode: self.mode,
            last_sent_at: self.last_sent_at,
            last_sent_value: value_opt_view(self.last_sent_value),
        }
    }
}

impl ClientSubscription {
    /// A subscription to which nothing has been sent.
    pub fn new(mode: SubscriptionMode) -> (r: ClientSubscription)
        ensures
            r@ == SubscriptionView::fresh(mode),
    {
        ClientSubscription { mode, last_sent_at: None, last_sent_value: None }
    }

    /// Whether `next`, offered at `now`, is to be sent.
    pub fn should_send(&self, now: u64, next: &WindValue) -> (r: bool)
        ensures
            r == self@.should_send(now, next@),
    {
        match self.mode {
            SubscriptionMode::Once => self.last_sent_at.is_none(),
            SubscriptionMode::OnChange => match &self.last_sent_value {
                Some(last) => !crate::value::value_equal(last, next),
                None => true,
            },
            SubscriptionMode::Periodic { interval_ms } => match self.last_sent_at {
                None => true,
                Some(last) => {
                    let passed: u64 = if now >= last {
                        now - last
                    } else {
                        0
                    };
                    passed >= interval_ms
                },
            },
        }
    }

    /// Records that `sent` was sent at `now`.
    pub fn mark_sent(&mut self, now: u64, sent: &WindValue)
        ensures
            final(self)@ == old(self)@.mark_sent(now, sent@),
    {
        self.last_sent_at = Some(now);
        self.last_sent_value = Some(sent.clone());
    }
}

/// A sequence of values without its repeats: each value that is another
/// than the one before it, where `last` is taken to stand before the first.
pub open spec fn without_repeats(last: Option<ValueView>, values: Seq<ValueView>) -> Seq<ValueView>
    decreases values.len(),
{
    if values.len() == 0 {
        Seq::empty()
    } else {
        let before = without_repeats(last, values.drop_last());
        let previous = if values.len() == 1 {
            last
        } else {
            Some(values[values.len() - 2])
        };
        if previous != Some(values.last()) {
            before.push(values.last())
        } else {
            before
        }
    }
}

/// The values of a sequence of offers, in order.
pub open spec fn offered_values(offers: Seq<Offer>) -> Seq<ValueView> {
    Seq::new(offers.len(), |i: int| offers[i].value)
}

/// The last value that an on-change subscription has sent after a sequence
/// of offers is the last value offered, if any was.
pub proof fn lemma_on_change_last(s: SubscriptionView, offers: Seq<Offer>)
    requires
        s.mode is OnChange,
    ensures
        s.after(offers).mode is OnChange,
        s.after(offers).last_sent_value == if offers.len() == 0 {
            s.last_sent_value
        } else {
            Some(offers.last().value)
        },
    decreases offers.len(),
{
    if offers.len() > 0 {
        lemma_on_change_last(s, offers.drop_last());
    }
}

/// An on-change subscriber receives the published values without their
/// repeats: a value is delivered exactly when it is another than the one
/// published before it. So of `v1, v1, v2, v2, v3`, with `v1`, `v2`, `v3`
/// different, it receives `v1, v2, v3`.
pub proof fn law_on_change(s: SubscriptionView, offers: Seq<Offer>)
    requires
        s.mode is OnChange,
    ensures
        offered_values(s.deliveries(offers)) == without_repeats(
            s.last_sent_value,
            offered_values(offers),
        ),
    decreases offers.len(),
{
    let values = offered_values(offers);
    if offers.len() == 0 {
        assert(offered_values(s.deliveries(offers)) =~= Seq::empty());
    } else {
        let init = offers.drop_last();
        law_on_change(s, init);
        lemma_on_change_last(s, init);
        assert(offered_values(init) =~= values.drop_last());
        let before = s.deliveries(init);
        if s.after(init).should_send(offers.last().at, offers.last().value) {
            assert(offered_values(before.push(offers.last())) =~= offered_values(before).push(
                offers.last().value,
            ));
        }
    }
}

/// The example of [`law_on_change`] for a subscription to which nothing has
/// been sent.
pub proof fn law_on_change_example(
    v1: ValueView,
    v2: ValueView,
    v3: ValueView,
    t1: u64,
    t2: u64,
    t3: u64,
    t4: u64,
    t5: u64,
)
    requires
        v1 != v2,
        v2 != v3,
    ensures
        offered_values(
            SubscriptionView::fresh(SubscriptionMode::OnChange).deliveries(
                seq![
                    Offer { at: t1, value: v1 },
                    Offer { at: t2, value: v1 },
                    Offer { at: t3, value: v2 },
                    Offer { at: t4, value: v2 },
                    Offer { at: t5, value: v3 },
                ],
            ),
        ) == seq![v1, v2, v3],
{
    let s = SubscriptionView::fresh(SubscriptionMode::OnChange);
    let o5 = seq![
        Offer { at: t1, value: v1 },
        Offer { at: t2, value: v1 },
        Offer { at: t3, value: v2 },
        Offer { at: t4, value: v2 },
        Offer { at: t5, value: v3 },
    ];
    law_on_change(s, o5);
    let x5 = offered_values(o5);
    let x4 = x5.drop_last();
    let x3 = x4.drop_last();
    let x2 = x3.drop_last();
    let x1 = x2.drop_last();
    let x0 = x1.drop_last();
    assert(x5 =~= seq![v1, v1, v2, v2, v3]);
    assert(without_repeats(None, x0) =~= Seq::empty());
    assert(without_repeats(None, x1) =~= seq![v1]);
    assert(without_repeats(None, x2) =~= seq![v1]);
    assert(without_repeats(None, x3) =~= seq![v1, v2]);
    assert(without_repeats(None, x4) =~= seq![v1, v2]);
    assert(without_repeats(None, x5) =~= seq![v1, v2, v3]);
}

/// After any offers, a subscription has either sent nothing, or it last
/// sent at the time of its last delivery.
pub proof fn lemma_last_sent_at(s: SubscriptionView, offers: Seq<Offer>)
    ensures
        s.after(offers).mode == s.mode,
        s.deliveries(offers).len() == 0 ==> s.after(offers) == s,
        s.deliveries(offers).len() > 0 ==> s.after(offers).last_sent_at == Some(
            s.deliveries(offers).last().at,
        ),
    decreases offers.len(),
{
    if offers.len() > 0 {
        lemma_last_sent_at(s, offers.drop_last());
    }
}

/// For a periodic subscriber, two consecutive deliveries are at least the
/// interval apart; so is the first delivery from the sending before it.
pub proof fn law_periodic_spacing(s: SubscriptionView, offers: Seq<Offer>, k: int)
    requires
        s.mode is Periodic,
        0 <= k < s.deliveries(offers).len(),
    ensures
        k > 0 ==> elapsed(s.deliveries(offers)[k - 1].at, s.deliveries(offers)[k].at)
            >= s.mode->interval_ms,
        k == 0 && s.last_sent_at is Some ==> elapsed(
            s.last_sent_at->Some_0,
            s.deliveries(offers)[0].at,
        ) >= s.mode->interval_ms,
    decreases offers.len(),
{
    let init = offers.drop_last();
    let before = s.deliveries(init);
    lemma_last_sent_at(s, init);
    if k < before.len() {
        law_periodic_spacing(s, init, k);
    }
}

/// A once subscriber to which nothing has been sent receives the first
/// value offered and no other; one to which something has been sent
/// receives nothing.
pub proof fn law_once(s: SubscriptionView, offers: Seq<Offer>)
    requires
        s.mode is Once,
    ensures
        s.last_sent_at is Some ==> s.deliveries(offers) == Seq::<Offer>::empty(),
        s.last_sent_at is None && offers.len() > 0 ==> s.deliveries(offers) == seq![offers[0]],
        s.last_sent_at is None && offers.len() == 0 ==> s.deliveries(offers) == Seq::<
            Offer,
        >::empty(),
    decreases offers.len(),
{
    if offers.len() > 0 {
        let init = offers.drop_last();
        law_once(s, init);
        lemma_last_sent_at(s, init);
        if s.last_sent_at is None {
            if init.len() == 0 {
                assert(s.deliveries(offers) =~= seq![offers[0]]);
            } else {
                assert(init[0] == offers[0]);
                assert(s.deliveries(init).last() == offers[0]);
            }
        }
    }
}

/// Only what is offered is delivered: every delivery is one of the offers,
/// there are no more deliveries than offers, and without an offer nothing
/// is delivered, whatever the mode and however much time passes.
pub proof fn law_deliveries_are_offers(s: SubscriptionView, offers: Seq<Offer>, k: int)
    ensures
        s.deliveries(offers).len() <= offers.len(),
        offers.len() == 0 ==> s.deliveries(offers) == Seq::<Offer>::empty(),
        0 <= k < s.deliveries(offers).len() ==> offers.contains(s.deliveries(offers)[k]),
    decreases offers.len(),
{
    if offers.len() > 0 {
        let init = offers.drop_last();
        law_deliveries_are_offers(s, init, k);
        if 0 <= k < s.deliveries(offers).len() {
            if k < s.deliveries(init).len() {
                let at = choose|at: int| 0 <= at < init.len() && init[at] == s.deliveries(init)[k];
                assert(offers[at] == s.deliveries(init)[k]);
            } else {
                assert(offers[offers.len() - 1] == s.deliveries(offers)[k]);
            }
        }
    }
}

/// For a periodic subscriber with a positive interval, the delivery at
/// position `k` comes no sooner than `k` intervals after the first: over a
/// stretch of time there are at most as many deliveries as intervals fit in
/// it, and one.
pub proof fn law_periodic_count(s: SubscriptionView, offers: Seq<Offer>, k: int)
    requires
        s.mode is Periodic,
        s.mode->interval_ms > 0,
        0 <= k < s.deliveries(offers).len(),
    ensures
        s.deliveries(offers)[k].at >= s.deliveries(offers)[0].at + k * s.mode->interval_ms,
    decreases k,
{
    let t = s.mode->interval_ms as int;
    let d = s.deliveries(offers);
    if k > 0 {
        law_periodic_count(s, offers, k - 1);
        law_periodic_spacing(s, offers, k);
        assert(k * t == (k - 1) * t + t) by (nonlinear_arith);
        assert(elapsed(d[k - 1].at, d[k].at) >= t);
        assert(d[k].at >= d[k - 1].at + t);
        assert(d[k - 1].at >= d[0].at + (k - 1) * t);
    } else {
        assert(k * t == 0) by (nonlinear_arith)
            requires
                k == 0,
        ;
    }
}

} // verus!
