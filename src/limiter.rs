//! Bounce and complaint admission control: events are recorded per recipient
//! address and category, and a send is admitted only while every configured
//! rule's rolling count stays under its limit.
use vstd::prelude::*;

verus! {

/// The kind of a delivery-status event.
#[derive(Debug, Clone, Copy, PartialEq, Eq, Structural)]
pub enum Category {
    Complaint,
    HardBounce,
    SoftBounce,
    Delivery,
}

/// A rule: at most `limit` events within the last `period` seconds.
#[derive(Debug, Clone, Copy, PartialEq, Eq, Structural)]
pub struct BounceLimit {
    /// The length of the window, in seconds.
    pub period: u64,
    /// The number of events within the window at which sends are refused.
    pub limit: u8,
}

/// The rules per category, and the switch that turns limiting on.
#[derive(Debug, Clone)]
pub struct BounceLimits {
    /// Whether limiting is enabled; when it is not, every send is admitted
    /// and no event is kept.
    pub enabled: bool,
    /// Rules for complaints.
    pub complaint: Vec<BounceLimit>,
    /// Rules for hard (permanent) bounces.
    pub hard: Vec<BounceLimit>,
    /// Rules for soft (transient) bounces.
    pub soft: Vec<BounceLimit>,
}

/// A recorded event: address, category and timestamp in seconds.
pub type EventRecord = (Seq<char>, Category, u64);

/// The rules configured for category `c`; deliveries have none.
pub open spec fn rules_for(limits: BounceLimits, c: Category) -> Seq<BounceLimit> {
    match c {
        Category::Complaint => limits.complaint@,
        Category::HardBounce => limits.hard@,
        Category::SoftBounce => limits.soft@,
        Category::Delivery => Seq::empty(),
    }
}

/// An event at `t` lies in the window of length `period` that ends at `now`.
pub open spec fn in_window(t: u64, now: u64, period: u64) -> bool {
    t <= now && now < t + period
}

/// The event is one for `addr` and `c` inside the window.
pub open spec fn counts_toward(
    e: EventRecord,
    addr: Seq<char>,
    c: Category,
    now: u64,
    period: u64,
) -> bool {
    e.0 == addr && e.1 == c && in_window(e.2, now, period)
}

/// The number of events for `addr` and `c` inside the window.
pub open spec fn count(
    events: Seq<EventRecord>,
    addr: Seq<char>,
    c: Category,
    now: u64,
    period: u64,
) -> nat
    decreases events.len(),
{
    if events.len() == 0 {
        0
    } else {
        count(events.drop_last(), addr, c, now, period) + if counts_toward(
            events.last(),
            addr,
            c,
            now,
            period,
        ) {
            1nat
        } else {
            0nat
        }
    }
}

/// No rule of category `c` is at or over its limit for `addr` at `now`.
pub open spec fn allowed_for(
    limits: BounceLimits,
    events: Seq<EventRecord>,
    addr: Seq<char>,
    c: Category,
    now: u64,
) -> bool {
    !limits.enabled || forall|i: int|
        0 <= i < rules_for(limits, c).len() ==> count(
            events,
            addr,
            c,
            now,
            (#[trigger] rules_for(limits, c)[i]).period,
        ) < rules_for(limits, c)[i].limit
}

/// No rule of any category is at or over its limit for `addr` at `now`.
pub open spec fn allowed(
    limits: BounceLimits,
    events: Seq<EventRecord>,
    addr: Seq<char>,
    now: u64,
) -> bool {
    &&& allowed_for(limits, events, addr, Category::Complaint, now)
    &&& allowed_for(limits, events, addr, Category::HardBounce, now)
    &&& allowed_for(limits, events, addr, Category::SoftBounce, now)
    &&& allowed_for(limits, events, addr, Category::Delivery, now)
}

/// An event of category `c` at `t` can still count toward some rule of `c`
/// at `now` or later.
pub open spec fn is_live(limits: BounceLimits, c: Category, t: u64, now: u64) -> bool {
    exists|i: int|
        0 <= i < rules_for(limits, c).len() && now < t + (#[trigger] rules_for(limits, c)[i]).period
}

/// The events that are still live at `now`, in their order.
pub open spec fn live_events(limits: BounceLimits, events: Seq<EventRecord>, now: u64) -> Seq<
    EventRecord,
>
    decreases events.len(),
{
    if events.len() == 0 {
        Seq::empty()
    } else {
        let rest = live_events(limits, events.drop_last(), now);
        if is_live(limits, events.last().1, events.last().2, now) {
            rest.push(events.last())
        } else {
            rest
        }
    }
}

struct Recorded {
    address: String,
    category: Category,
    timestamp: u64,
}

/// The admission state: the rules and the events recorded so far.
pub struct BounceLimiter {
    limits: BounceLimits,
    events: Vec<Recorded>,
}

impl BounceLimiter {
    /// The rules this limiter applies.
    pub closed spec fn limits(&self) -> BounceLimits {
        self.limits
    }

    /// The events recorded, oldest first.
    pub closed spec fn events(&self) -> Seq<EventRecord> {
        self.events@.map_values(|r: Recorded| (r.address@, r.category, r.timestamp))
    }

    /// A limiter with these rules and no event.
    pub fn new(limits: BounceLimits) -> (r: BounceLimiter)
        ensures
            r.limits() == limits,
            r.events() == Seq::<EventRecord>::empty(),
    {
        let r = BounceLimiter { limits, events: Vec::new() };
        assert(r.events() =~= Seq::<EventRecord>::empty());
        r
    }

    /// Whether an event of `category` at `timestamp` is live at `now`.
    fn event_live(&self, category: Category, timestamp: u64, now: u64) -> (r: bool)
        ensures
            r == is_live(self.limits(), category, timestamp, now),
    {
        let rules = match category {
            Category::Complaint => &self.limits.complaint,
            Category::HardBounce => &self.limits.hard,
            Category::SoftBounce => &self.limits.soft,
            Category::Delivery => {
                return false;
            },
        };
        assert(rules@ == rules_for(self.limits(), category));
        let mut i: usize = 0;
        while i < rules.len()
            invariant
                rules@ == rules_for(self.limits(), category),
                0 <= i <= rules@.len(),
                forall|k: int| 0 <= k < i ==> !(now < timestamp + (#[trigger] rules@[k]).period),
            decreases rules@.len() - i,
        {
            if timestamp > now || now - timestamp < rules[i].period {
                assert(now < timestamp + rules@[i as int].period);
                return true;
            }
            i = i + 1;
        }
        false
    }

    /// Drops the events that no rule can count any longer at `now` or later.
    pub fn expire(&mut self, now: u64)
        ensures
            final(self).limits() == old(self).limits(),
            final(self).events() == live_events(old(self).limits(), old(self).events(), now),
    {
        let ghost ev = self.events();
        let mut kept: Vec<Recorded> = Vec::new();
        let n = self.events.len();
        let mut i: usize = 0;
        while i < n
            invariant
                n == self.events@.len(),
                ev == self.events(),
                0 <= i <= n,
                kept@.map_values(|r: Recorded| (r.address@, r.category, r.timestamp))
                    == live_events(self.limits(), ev.subrange(0, i as int), now),
            decreases n - i,
        {
            let e = &self.events[i];
            assert(ev.subrange(0, i + 1).drop_last() =~= ev.subrange(0, i as int));
            assert(ev[i as int] == (e.address@, e.category, e.timestamp));
            if self.event_live(e.category, e.timestamp, now) {
                let ghost before = kept@;
                kept.push(
                    Recorded {
                        address: e.address.clone(),
                        category: e.category,
                        timestamp: e.timestamp,
                    },
                );
                assert(kept@.map_values(|r: Recorded| (r.address@, r.category, r.timestamp))
                    =~= before.map_values(|r: Recorded| (r.address@, r.category, r.timestamp)).push(
                    ev[i as int],
                ));
            }
            i = i + 1;
        }
        assert(ev.subrange(0, n as int) =~= ev);
        self.events = kept;
    }

    /// Whether limiting is enabled.
    pub fn enabled(&self) -> (r: bool)
        ensures
            r == self.limits().enabled,
    {
        self.limits.enabled
    }

    /// Records one event. Duplicates count again. Nothing is kept while
    /// limiting is disabled.
    pub fn record_event(&mut self, address: &str, category: Category, timestamp: u64)
        ensures
            final(self).limits() == old(self).limits(),
            old(self).limits().enabled ==> final(self).events() == old(self).events().push(
                (address@, category, timestamp),
            ),
            !old(self).limits().enabled ==> final(self).events() == old(self).events(),
    {
        if self.limits.enabled {
            let ghost before = self.events();
            self.events.push(Recorded { address: address.to_owned(), category, timestamp });
            assert(self.events() =~= before.push((address@, category, timestamp)));
        }
    }

    /// The number of events for `address` and `category` inside the window
    /// of length `period` that ends at `now`.
    pub fn count_in_window(&self, address: &str, category: Category, now: u64, period: u64) -> (r:
        usize)
        ensures
            r == count(self.events(), address@, category, now, period),
    {
        let addr = address.to_owned();
        let ghost ev = self.events();
        let n = self.events.len();
        let mut c: usize = 0;
        let mut i: usize = 0;
        while i < n
            invariant
                n == self.events@.len(),
                ev == self.events(),
                addr@ == address@,
                0 <= c <= i <= n,
                c == count(ev.subrange(0, i as int), address@, category, now, period),
            decreases n - i,
        {
            let e = &self.events[i];
            assert(ev.subrange(0, i + 1).drop_last() =~= ev.subrange(0, i as int));
            assert(ev[i as int] == (e.address@, e.category, e.timestamp));
            if e.address == addr && e.category == category && e.timestamp <= now && now
                - e.timestamp < period {
                c = c + 1;
            }
            i = i + 1;
        }
        assert(ev.subrange(0, n as int) =~= ev);
        c
    }

    /// Whether every rule of `category` is under its limit for `address` at
    /// `now`; always true while limiting is disabled.
    pub fn is_allowed_for(&self, address: &str, category: Category, now: u64) -> (r: bool)
        ensures
            r == allowed_for(self.limits(), self.events(), address@, category, now),
    {
        if !self.limits.enabled {
            return true;
        }
        let rules = match category {
            Category::Complaint => &self.limits.complaint,
            Category::HardBounce => &self.limits.hard,
            Category::SoftBounce => &self.limits.soft,
            Category::Delivery => {
                return true;
            },
        };
        assert(rules@ == rules_for(self.limits(), category));
        let mut i: usize = 0;
        while i < rules.len()
            invariant
                rules@ == rules_for(self.limits(), category),
                self.limits().enabled,
                0 <= i <= rules@.len(),
                forall|k: int|
                    0 <= k < i ==> count(
                        self.events(),
                        address@,
                        category,
                        now,
                        (#[trigger] rules@[k]).period,
                    ) < rules@[k].limit,
            decreases rules@.len() - i,
        {
            let rule = rules[i];
            let c = self.count_in_window(address, category, now, rule.period);
            if c >= rule.limit as usize {
                assert(!(count(self.events(), address@, category, now, rules@[i as int].period)
                    < rules@[i as int].limit));
                return false;
            }
            i = i + 1;
        }
        true
    }

    /// Whether a send to `address` is admitted at `now`: no rule of any
    /// category is at or over its limit, or limiting is disabled.
    pub fn is_allowed(&self, address: &str, now: u64) -> (r: bool)
        ensures
            r == allowed(self.limits(), self.events(), address@, now),
    {
        self.is_allowed_for(address, Category::Complaint, now) && self.is_allowed_for(
            address,
            Category::HardBounce,
            now,
        ) && self.is_allowed_for(address, Category::SoftBounce, now) && self.is_allowed_for(
            address,
            Category::Delivery,
            now,
        )
    }
}

/// The count over two runs of events is the sum of their counts.
pub proof fn lemma_count_append(
    a: Seq<EventRecord>,
    b: Seq<EventRecord>,
    addr: Seq<char>,
    c: Category,
    now: u64,
    period: u64,
)
    ensures
        count(a + b, addr, c, now, period) == count(a, addr, c, now, period) + count(
            b,
            addr,
            c,
            now,
            period,
        ),
    decreases b.len(),
{
    if b.len() > 0 {
        assert((a + b).drop_last() =~= a + b.drop_last());
        lemma_count_append(a, b.drop_last(), addr, c, now, period);
    } else {
        assert(a + b =~= a);
    }
}

/// Events that all count toward the window give a count of their number;
/// events none of which does give zero.
pub proof fn lemma_count_uniform(
    events: Seq<EventRecord>,
    addr: Seq<char>,
    c: Category,
    now: u64,
    period: u64,
)
    ensures
        (forall|i: int| 0 <= i < events.len() ==> counts_toward(#[trigger] events[i], addr, c, now, period))
            ==> count(events, addr, c, now, period) == events.len(),
        (forall|i: int| 0 <= i < events.len() ==> !counts_toward(#[trigger] events[i], addr, c, now, period))
            ==> count(events, addr, c, now, period) == 0,
        count(events, addr, c, now, period) <= events.len(),
    decreases events.len(),
{
    if events.len() > 0 {
        let d = events.drop_last();
        assert forall|i: int| 0 <= i < d.len() implies d[i] == events[i] by {}
        lemma_count_uniform(d, addr, c, now, period);
        assert(events.last() == events[events.len() - 1]);
    }
}

/// Recording the same event `n` times at a timestamp inside the window raises
/// the count by exactly `n`: no recorded event is lost.
pub proof fn lemma_no_lost_updates(
    events: Seq<EventRecord>,
    addr: Seq<char>,
    c: Category,
    t: u64,
    n: nat,
    now: u64,
    period: u64,
)
    requires
        in_window(t, now, period),
    ensures
        count(events + Seq::new(n, |k: int| (addr, c, t)), addr, c, now, period) == count(
            events,
            addr,
            c,
            now,
            period,
        ) + n,
{
    let added = Seq::new(n, |k: int| (addr, c, t));
    lemma_count_append(events, added, addr, c, now, period);
    lemma_count_uniform(added, addr, c, now, period);
}

/// The events of `addr` in category `c` at each of `times`, in order.
pub open spec fn recorded(addr: Seq<char>, c: Category, times: Seq<u64>) -> Seq<EventRecord> {
    times.map_values(|t: u64| (addr, c, t))
}

/// With a rule `(period, limit)` among the rules of category `c`, recording
/// `limit` events of `c` for `addr` in time order makes `addr` refused from
/// the last of them until the window of the first has passed, whatever was
/// recorded before or is recorded after.
pub proof fn lemma_admission_refused(
    limits: BounceLimits,
    before: Seq<EventRecord>,
    addr: Seq<char>,
    c: Category,
    j: int,
    times: Seq<u64>,
    after: Seq<EventRecord>,
    now: u64,
)
    requires
        limits.enabled,
        0 <= j < rules_for(limits, c).len(),
        rules_for(limits, c)[j].limit as int == times.len(),
        times.len() > 0,
        forall|i: int, k: int| 0 <= i <= k < times.len() ==> times[i] <= times[k],
        times.last() <= now,
        now < times[0] + rules_for(limits, c)[j].period,
    ensures
        !allowed_for(limits, before + recorded(addr, c, times) + after, addr, c, now),
        !allowed(limits, before + recorded(addr, c, times) + after, addr, now),
{
    let rec = recorded(addr, c, times);
    let period = rules_for(limits, c)[j].period;
    lemma_count_append(before + rec, after, addr, c, now, period);
    lemma_count_append(before, rec, addr, c, now, period);
    assert forall|i: int| 0 <= i < rec.len() implies counts_toward(
        #[trigger] rec[i],
        addr,
        c,
        now,
        period,
    ) by {
        assert(times[0] <= times[i] && times[i] <= times[times.len() - 1]);
    }
    lemma_count_uniform(rec, addr, c, now, period);
    assert(count(before + rec + after, addr, c, now, period) >= rules_for(limits, c)[j].limit);
}

/// With a rule `(period, limit)` among the rules of category `c` and no
/// other event of `c` for `addr` than `limit` ones recorded in time order,
/// the rule holds again once the window of the first has passed, with no
/// further input; `c` then admits `addr` unless another of its rules is
/// violated.
pub proof fn lemma_admission_recovers(
    limits: BounceLimits,
    before: Seq<EventRecord>,
    addr: Seq<char>,
    c: Category,
    j: int,
    times: Seq<u64>,
    after: Seq<EventRecord>,
    now: u64,
)
    requires
        limits.enabled,
        0 <= j < rules_for(limits, c).len(),
        rules_for(limits, c)[j].limit as int == times.len(),
        times.len() > 0,
        forall|i: int| 0 <= i < before.len() ==> !((#[trigger] before[i]).0 == addr && before[i].1 == c),
        forall|i: int| 0 <= i < after.len() ==> !((#[trigger] after[i]).0 == addr && after[i].1 == c),
        now >= times[0] + rules_for(limits, c)[j].period,
    ensures
        ({
            let events = before + recorded(addr, c, times) + after;
            &&& count(events, addr, c, now, rules_for(limits, c)[j].period) < rules_for(
                limits,
                c,
            )[j].limit
            &&& (forall|k: int|
                0 <= k < rules_for(limits, c).len() && k != j ==> count(
                    events,
                    addr,
                    c,
                    now,
                    (#[trigger] rules_for(limits, c)[k]).period,
                ) < rules_for(limits, c)[k].limit) ==> allowed_for(limits, events, addr, c, now)
        }),
{
    let rec = recorded(addr, c, times);
    let period = rules_for(limits, c)[j].period;
    lemma_count_append(before + rec, after, addr, c, now, period);
    lemma_count_append(before, rec, addr, c, now, period);
    lemma_count_uniform(before, addr, c, now, period);
    lemma_count_uniform(after, addr, c, now, period);
    let rest = rec.subrange(1, rec.len() as int);
    assert(rec =~= seq![rec[0]] + rest);
    lemma_count_append(seq![rec[0]], rest, addr, c, now, period);
    lemma_count_uniform(seq![rec[0]], addr, c, now, period);
    lemma_count_uniform(rest, addr, c, now, period);
    assert(count(before + rec + after, addr, c, now, period) < rules_for(limits, c)[j].limit);
}

/// Expiring at `now` changes no count that a rule can ask for at `now` or
/// later, so no admission decision from `now` on changes.
pub proof fn lemma_expire_keeps_decisions(
    limits: BounceLimits,
    events: Seq<EventRecord>,
    now: u64,
    later: u64,
    addr: Seq<char>,
    c: Category,
)
    requires
        now <= later,
    ensures
        forall|i: int|
            0 <= i < rules_for(limits, c).len() ==> count(
                live_events(limits, events, now),
                addr,
                c,
                later,
                (#[trigger] rules_for(limits, c)[i]).period,
            ) == count(events, addr, c, later, rules_for(limits, c)[i].period),
        allowed_for(limits, live_events(limits, events, now), addr, c, later) == allowed_for(
            limits,
            events,
            addr,
            c,
            later,
        ),
{
    assert forall|i: int| 0 <= i < rules_for(limits, c).len() implies count(
        live_events(limits, events, now),
        addr,
        c,
        later,
        (#[trigger] rules_for(limits, c)[i]).period,
    ) == count(events, addr, c, later, rules_for(limits, c)[i].period) by {
        lemma_expire_keeps_count(limits, events, now, later, addr, c, i);
    }
}

proof fn lemma_expire_keeps_count(
    limits: BounceLimits,
    events: Seq<EventRecord>,
    now: u64,
    later: u64,
    addr: Seq<char>,
    c: Category,
    i: int,
)
    requires
        now <= later,
        0 <= i < rules_for(limits, c).len(),
    ensures
        count(live_events(limits, events, now), addr, c, later, rules_for(limits, c)[i].period)
            == count(events, addr, c, later, rules_for(limits, c)[i].period),
    decreases events.len(),
{
    let p = rules_for(limits, c)[i].period;
    if events.len() > 0 {
        let d = events.drop_last();
        let last = events.last();
        lemma_expire_keeps_count(limits, d, now, later, addr, c, i);
        let rest = live_events(limits, d, now);
        assert(rest.push(last).drop_last() =~= rest);
        if counts_toward(last, addr, c, later, p) {
            assert(now < last.2 + rules_for(limits, last.1)[i].period);
            assert(is_live(limits, last.1, last.2, now));
        }
    }
}

} // verus!
