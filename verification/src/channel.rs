//! A bounded, lossy broadcast channel for shapes.
//!
//! The channel fans every published shape out to up to two subscribers,
//! each with its own queue of at most five undelivered messages.  A
//! publish never blocks and never fails: when a subscriber's queue is
//! full, the oldest unread message is overwritten and that subscriber's
//! lag counter grows by one.  The next receive on a lagging subscriber
//! reports the lag once instead of a shape, then clears it.  Handles are
//! counted so that at most two subscribers and two publishers exist.
//!
//! The channel itself is a plain value: a scheduler drives it by calling
//! `publish` and `try_next` at its suspension points, and a `try_next`
//! that returns nothing is the point where a consumer would suspend.

use vstd::prelude::*;

use crate::shape::Shape;

verus! {

/// Number of undelivered messages each subscriber may hold.
pub const QUEUE_CAP: usize = 5;

/// Greatest number of concurrent subscribers.
pub const SUBS_CAP: usize = 2;

/// Greatest number of concurrent publishers.
pub const PUBS_CAP: usize = 2;

/// What a receive hands out: a shape, or the number of messages this
/// subscriber lost to overwrites since it last received.
#[derive(Clone, Copy, Debug, PartialEq, Eq, Structural)]
pub enum ChannelMessage {
    Message(Shape),
    Lag(u64),
}

/// Why a handle could not be created.
#[derive(Clone, Copy, Debug, PartialEq, Eq, Structural)]
pub enum ChannelError {
    MaxSubscribers,
    MaxPublishers,
}

struct SubState {
    pending: Vec<Shape>,
    lag: u64,
}

/// The state of one subscriber: its undelivered messages, oldest first,
/// and its pending lag report.
pub struct SubscriberView {
    pub pending: Seq<Shape>,
    pub lag: u64,
}

/// The state of the whole channel: one entry per subscriber, and the
/// number of publisher handles outstanding.
pub struct ChannelView {
    pub subs: Seq<SubscriberView>,
    pub pubs: nat,
}

impl View for SubState {
    type V = SubscriberView;

    closed spec fn view(&self) -> SubscriberView {
        SubscriberView { pending: self.pending@, lag: self.lag }
    }
}

/// The channel.
pub struct ShapeChannel {
    subs: Vec<SubState>,
    pubs: usize,
}

impl View for ShapeChannel {
    type V = ChannelView;

    closed spec fn view(&self) -> ChannelView {
        ChannelView { subs: self.subs@.map_values(|st: SubState| st@), pubs: self.pubs as nat }
    }
}

/// The bounds every reachable channel state satisfies.
pub open spec fn channel_wf(v: ChannelView) -> bool {
    &&& v.subs.len() <= SUBS_CAP as int
    &&& v.pubs <= PUBS_CAP as nat
    &&& forall|k: int|
        0 <= k < v.subs.len() ==> (#[trigger] v.subs[k]).pending.len() <= QUEUE_CAP as int
}

/// A lag count one higher, saturating at the counter's ceiling.
pub open spec fn sat_inc(l: u64) -> u64 {
    if l < u64::MAX {
        (l + 1) as u64
    } else {
        l
    }
}

/// One publish as seen by one subscriber: append when there is room,
/// otherwise overwrite the oldest unread message and count the loss.
pub open spec fn publish_sub(sv: SubscriberView, sh: Shape) -> SubscriberView {
    if sv.pending.len() < QUEUE_CAP as int {
        SubscriberView { pending: sv.pending.push(sh), lag: sv.lag }
    } else {
        SubscriberView { pending: sv.pending.drop_first().push(sh), lag: sat_inc(sv.lag) }
    }
}

/// One publish as seen by the whole channel: every subscriber receives
/// its own copy.
pub open spec fn spec_publish(v: ChannelView, sh: Shape) -> ChannelView {
    ChannelView { subs: v.subs.map_values(|sv: SubscriberView| publish_sub(sv, sh)), pubs: v.pubs }
}

/// A sequence of publishes as seen by one subscriber, oldest first.
pub open spec fn publish_sub_seq(sv: SubscriberView, msgs: Seq<Shape>) -> SubscriberView
    decreases msgs.len(),
{
    if msgs.len() == 0 {
        sv
    } else {
        publish_sub_seq(publish_sub(sv, msgs[0]), msgs.drop_first())
    }
}

impl ShapeChannel {
    /// A channel with no subscribers and no publishers.
    pub fn new() -> (c: Self)
        ensures
            c@.subs.len() == 0,
            c@.pubs == 0,
            channel_wf(c@),
    {
        let c = ShapeChannel { subs: Vec::new(), pubs: 0 };
        proof {
            assert(c@.subs =~= Seq::<SubscriberView>::empty());
        }
        c
    }

    /// Whether the channel is within its bounds.  Every state reachable
    /// through this interface is; an unverified driver can test it before
    /// relying on it.
    pub fn is_wf(&self) -> (r: bool)
        ensures
            r == channel_wf(self@),
    {
        if self.subs.len() > SUBS_CAP || self.pubs > PUBS_CAP {
            return false;
        }
        let n = self.subs.len();
        let mut k: usize = 0;
        while k < n
            invariant
                0 <= k <= n,
                n == self@.subs.len(),
                self@.subs.len() <= SUBS_CAP as int,
                self@.pubs <= PUBS_CAP as nat,
                forall|m: int|
                    0 <= m < k ==> (#[trigger] self@.subs[m]).pending.len() <= QUEUE_CAP as int,
            decreases n - k,
        {
            if self.subs[k].pending.len() > QUEUE_CAP {
                proof {
                    assert(self@.subs[k as int] == self.subs@[k as int]@);
                    assert(!channel_wf(self@));
                }
                return false;
            }
            k = k + 1;
        }
        true
    }

    /// Number of subscriber handles created so far.
    pub fn num_subscribers(&self) -> (r: usize)
        ensures
            r as int == self@.subs.len(),
    {
        self.subs.len()
    }

    /// Number of publisher handles created so far.
    pub fn num_publishers(&self) -> (r: usize)
        ensures
            r as nat == self@.pubs,
    {
        self.pubs
    }

    /// Create a subscriber with an empty queue and no lag; fails exactly
    /// when the subscriber bound is already reached.  The result is the
    /// new subscriber's index, to be passed to `try_next`.
    pub fn subscribe(&mut self) -> (r: Result<usize, ChannelError>)
        ensures
            old(self)@.subs.len() < SUBS_CAP as int ==> r == Ok::<usize, ChannelError>(
                (old(self)@.subs.len() as usize),
            ) && final(self)@.subs == old(self)@.subs.push(
                SubscriberView { pending: Seq::empty(), lag: 0 },
            ) && final(self)@.pubs == old(self)@.pubs,
            old(self)@.subs.len() >= SUBS_CAP as int ==> r == Err::<usize, ChannelError>(
                ChannelError::MaxSubscribers,
            ) && final(self)@ == old(self)@,
            channel_wf(old(self)@) ==> channel_wf(final(self)@),
    {
        if self.subs.len() < SUBS_CAP {
            let idx = self.subs.len();
            self.subs.push(SubState { pending: Vec::new(), lag: 0 });
            proof {
                assert(self@.subs =~= old(self)@.subs.push(
                    SubscriberView { pending: Seq::empty(), lag: 0 },
                ));
            }
            Ok(idx)
        } else {
            proof {
                assert(self@.subs =~= old(self)@.subs);
            }
            Err(ChannelError::MaxSubscribers)
        }
    }

    /// Register a publisher; fails exactly when the publisher bound is
    /// already reached.  Publishing itself goes through `publish`, which
    /// takes the channel exclusively, so concurrent publishers cannot
    /// interleave their writes.
    pub fn publisher(&mut self) -> (r: Result<usize, ChannelError>)
        ensures
            old(self)@.pubs < PUBS_CAP as nat ==> r == Ok::<usize, ChannelError>(
                (old(self)@.pubs as usize),
            ) && final(self)@.pubs == old(self)@.pubs + 1 && final(self)@.subs == old(self)@.subs,
            old(self)@.pubs >= PUBS_CAP as nat ==> r == Err::<usize, ChannelError>(
                ChannelError::MaxPublishers,
            ) && final(self)@ == old(self)@,
            channel_wf(old(self)@) ==> channel_wf(final(self)@),
    {
        if self.pubs < PUBS_CAP {
            let idx = self.pubs;
            self.pubs = self.pubs + 1;
            Ok(idx)
        } else {
            Err(ChannelError::MaxPublishers)
        }
    }

    /// Publish one shape to every subscriber.  Never blocks and never
    /// fails: a full queue loses its oldest message and counts the loss.
    pub fn publish(&mut self, sh: Shape)
        requires
            channel_wf(old(self)@),
        ensures
            final(self)@ == spec_publish(old(self)@, sh),
            channel_wf(final(self)@),
    {
        let n = self.subs.len();
        let mut k: usize = 0;
        while k < n
            invariant
                n as int == self@.subs.len(),
                self@.subs.len() == old(self)@.subs.len(),
                0 <= k <= n,
                self@.pubs == old(self)@.pubs,
                channel_wf(old(self)@),
                forall|m: int|
                    0 <= m < k ==> self@.subs[m] == publish_sub(
                        #[trigger] old(self)@.subs[m],
                        sh,
                    ),
                forall|m: int| k <= m < n ==> self@.subs[m] == #[trigger] old(self)@.subs[m],
            decreases n - k,
        {
            if self.subs[k].pending.len() >= QUEUE_CAP {
                self.subs[k].pending.remove(0);
                if self.subs[k].lag < u64::MAX {
                    self.subs[k].lag = self.subs[k].lag + 1;
                }
            }
            self.subs[k].pending.push(sh);
            k = k + 1;
        }
        proof {
            assert(self@.subs =~= spec_publish(old(self)@, sh).subs);
        }
    }

    /// Receive on subscriber `sub`: a pending lag report first, else the
    /// oldest undelivered shape, else nothing — the case in which a
    /// consumer suspends until a publish arrives.
    pub fn try_next(&mut self, sub: usize) -> (r: Option<ChannelMessage>)
        requires
            sub < old(self)@.subs.len(),
            channel_wf(old(self)@),
        ensures
            channel_wf(final(self)@),
            final(self)@.pubs == old(self)@.pubs,
            ({
                let sv = old(self)@.subs[sub as int];
                if sv.lag > 0 {
                    r == Some(ChannelMessage::Lag(sv.lag)) && final(self)@.subs == old(
                        self,
                    )@.subs.update(sub as int, SubscriberView { pending: sv.pending, lag: 0 })
                } else if sv.pending.len() > 0 {
                    r == Some(ChannelMessage::Message(sv.pending[0])) && final(self)@.subs == old(
                        self,
                    )@.subs.update(
                        sub as int,
                        SubscriberView { pending: sv.pending.drop_first(), lag: 0 },
                    )
                } else {
                    r is None && final(self)@ == old(self)@
                }
            }),
    {
        if self.subs[sub].lag > 0 {
            let l = self.subs[sub].lag;
            self.subs[sub].lag = 0;
            proof {
                assert(self@.subs =~= old(self)@.subs.update(
                    sub as int,
                    SubscriberView { pending: old(self)@.subs[sub as int].pending, lag: 0 },
                ));
            }
            Some(ChannelMessage::Lag(l))
        } else if self.subs[sub].pending.len() > 0 {
            let sh = self.subs[sub].pending.remove(0);
            proof {
                assert(old(self)@.subs[sub as int].pending.subrange(
                    1,
                    old(self)@.subs[sub as int].pending.len() as int,
                ) =~= old(self)@.subs[sub as int].pending.drop_first());
                assert(self@.subs =~= old(self)@.subs.update(
                    sub as int,
                    SubscriberView {
                        pending: old(self)@.subs[sub as int].pending.drop_first(),
                        lag: 0,
                    },
                ));
            }
            Some(ChannelMessage::Message(sh))
        } else {
            proof {
                assert(self@ == old(self)@);
            }
            None
        }
    }
}

proof fn lemma_publish_sub_seq_snoc(sv: SubscriberView, msgs: Seq<Shape>, m: Shape)
    ensures
        publish_sub_seq(sv, msgs.push(m)) == publish_sub(publish_sub_seq(sv, msgs), m),
    decreases msgs.len(),
{
    if msgs.len() == 0 {
        assert(msgs.push(m)[0] == m);
        assert(msgs.push(m).drop_first() =~= Seq::<Shape>::empty());
        assert(publish_sub_seq(sv, msgs.push(m)) == publish_sub_seq(
            publish_sub(sv, m),
            Seq::<Shape>::empty(),
        ));
        assert(publish_sub_seq(sv, msgs) == sv);
    } else {
        assert(msgs.push(m)[0] == msgs[0]);
        assert(msgs.push(m).drop_first() =~= msgs.drop_first().push(m));
        lemma_publish_sub_seq_snoc(publish_sub(sv, msgs[0]), msgs.drop_first(), m);
        assert(publish_sub_seq(sv, msgs.push(m)) == publish_sub_seq(
            publish_sub(sv, msgs[0]),
            msgs.drop_first().push(m),
        ));
        assert(publish_sub_seq(sv, msgs) == publish_sub_seq(
            publish_sub(sv, msgs[0]),
            msgs.drop_first(),
        ));
    }
}

/// A subscriber that has not yet received holds the publishes in publish
/// order: all of them while they fit its queue, and once they overflow,
/// exactly the newest `QUEUE_CAP` of them, the oldest having been
/// overwritten and counted.
pub proof fn lemma_delivery_order(msgs: Seq<Shape>)
    requires
        msgs.len() <= QUEUE_CAP as int + u64::MAX as int,
    ensures
        ({
            let sv = publish_sub_seq(SubscriberView { pending: Seq::empty(), lag: 0u64 }, msgs);
            &&& msgs.len() <= QUEUE_CAP as int ==> sv.pending == msgs && sv.lag == 0
            &&& msgs.len() > QUEUE_CAP as int ==> sv.pending == msgs.skip(
                msgs.len() - QUEUE_CAP as int,
            ) && sv.lag == msgs.len() - QUEUE_CAP as int
        }),
    decreases msgs.len(),
{
    let start = SubscriberView { pending: Seq::empty(), lag: 0u64 };
    if msgs.len() == 0 {
    } else {
        let pre = msgs.drop_last();
        let last = msgs.last();
        lemma_delivery_order(pre);
        lemma_publish_sub_seq_snoc(start, pre, last);
        assert(msgs =~= pre.push(last));
        let before = publish_sub_seq(start, pre);
        if pre.len() < QUEUE_CAP as int {
            assert(before.pending.push(last) =~= msgs);
        } else if pre.len() == QUEUE_CAP as int {
            assert(before.pending == pre);
            assert(pre.drop_first().push(last) =~= msgs.skip(1));
        } else {
            assert(before.pending == pre.skip(pre.len() - QUEUE_CAP as int));
            assert(before.pending.drop_first().push(last) =~= msgs.skip(
                msgs.len() - QUEUE_CAP as int,
            ));
        }
    }
}

/// Publishing more messages than a fresh subscriber's queue can hold
/// loses exactly the oldest surplus: the subscriber is left holding the
/// last `QUEUE_CAP` messages and a lag count equal to the number
/// overwritten — which the next `try_next` then reports as a `Lag`.
pub proof fn lemma_overflow_reports_lag(msgs: Seq<Shape>)
    requires
        QUEUE_CAP as int <= msgs.len() <= QUEUE_CAP as int + u64::MAX as int,
    ensures
        ({
            let sv = publish_sub_seq(SubscriberView { pending: Seq::empty(), lag: 0u64 }, msgs);
            &&& sv.lag == msgs.len() - QUEUE_CAP as int
            &&& sv.pending == msgs.skip(msgs.len() - QUEUE_CAP as int)
            &&& sv.pending.len() == QUEUE_CAP as int
        }),
{
    lemma_delivery_order(msgs);
    let sv = publish_sub_seq(SubscriberView { pending: Seq::empty(), lag: 0u64 }, msgs);
    if msgs.len() == QUEUE_CAP as int {
        assert(msgs.skip(0) =~= msgs);
    }
}

/// `publish` acts on every subscriber independently: after a publish,
/// subscriber `k` holds exactly `publish_sub` of its prior state.
pub proof fn lemma_publish_pointwise(v: ChannelView, sh: Shape, k: int)
    requires
        0 <= k < v.subs.len(),
    ensures
        spec_publish(v, sh).subs.len() == v.subs.len(),
        spec_publish(v, sh).subs[k] == publish_sub(v.subs[k], sh),
{
}

} // verus!
