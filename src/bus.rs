//! The registry of subscriptions and the relay pass that fans published
//! envelopes out to the interested subscribers.
use vstd::prelude::*;

use vstd::std_specs::cmp::PartialEqSpec;

use crate::queue::{open_queue, share, Inbox, Outbox};

verus! {

/// Sending handle of a bus queue.
pub type BusSender<M, I> = Outbox<BusMessage<M, I>>;

/// Receiving end of a bus queue.
pub type BusReceiver<M, I> = Inbox<BusMessage<M, I>>;

/// An envelope: the payload and the tag that decides who receives it.
#[derive(PartialEq)]
pub struct BusMessage<M: 'static + PartialEq + Clone + Send, I: 'static + PartialEq + Clone + Send> {
    pub message: M,
    pub ident: I,
}

impl<M: 'static + PartialEq + Clone + Send, I: 'static + PartialEq + Clone + Send> BusMessage<M, I> {
    /// Wraps a payload and its tag.
    pub fn new(message: M, ident: I) -> (r: Self)
        ensures
            r.message == message,
            r.ident == ident,
    {
        BusMessage { message, ident }
    }
}

impl<M: 'static + PartialEq + Clone + Send, I: 'static + PartialEq + Clone + Send> Clone for BusMessage<M, I> {
    /// A copy made of copies of the payload and of the tag.
    fn clone(&self) -> (r: Self)
        ensures
            copy_of(*self, r),
    {
        BusMessage { message: self.message.clone(), ident: self.ident.clone() }
    }
}

/// `b` is a copy of the envelope `a`: each part is a clone of `a`'s.
pub open spec fn copy_of<M: 'static + PartialEq + Clone + Send, I: 'static + PartialEq + Clone + Send>(
    a: BusMessage<M, I>,
    b: BusMessage<M, I>,
) -> bool {
    cloned(a.message, b.message) && cloned(a.ident, b.ident)
}

/// `copies` holds, position by position, a copy of each envelope of `originals`.
pub open spec fn copies_of<M: 'static + PartialEq + Clone + Send, I: 'static + PartialEq + Clone + Send>(
    originals: Seq<BusMessage<M, I>>,
    copies: Seq<BusMessage<M, I>>,
) -> bool {
    &&& copies.len() == originals.len()
    &&& forall|j: int| 0 <= j < copies.len() ==> copy_of(originals[j], #[trigger] copies[j])
}

/// Errors of the bus.
#[derive(Debug, Clone)]
pub enum BusError {
    /// The registry lock is poisoned or unavailable.
    Lock,
    /// The shared inbound queue has no sender left.
    RecvError(std::sync::mpsc::RecvError),
}

impl BusError {
    /// A short description of the error.
    pub fn describe(&self) -> (r: &'static str)
        ensures
            self is Lock ==> r@ == "Lock error"@,
            self is RecvError ==> r@ == "Recv Error"@,
    {
        proof {
            reveal_strlit("Lock error");
            reveal_strlit("Recv Error");
        }
        match self {
            BusError::Lock => "Lock error",
            BusError::RecvError(_) => "Recv Error",
        }
    }
}

impl From<std::sync::mpsc::RecvError> for BusError {
    fn from(err: std::sync::mpsc::RecvError) -> (r: BusError) {
        BusError::RecvError(err)
    }
}

impl vstd::std_specs::convert::FromSpecImpl<std::sync::mpsc::RecvError> for BusError {
    open spec fn obeys_from_spec() -> bool {
        true
    }

    open spec fn from_spec(err: std::sync::mpsc::RecvError) -> BusError {
        BusError::RecvError(err)
    }
}

/// Whether `tag` matches an entry of `interests`, by the tag type's `==`
/// with the entry on the left.
pub open spec fn interested<I: PartialEq>(interests: Seq<I>, tag: I) -> bool {
    exists|j: int| 0 <= j < interests.len() && #[trigger] interests[j].eq_spec(&tag)
}

/// The envelopes of `published`, from position `since` on, whose tag matches
/// `interests`, in publication order.
pub open spec fn matching_since<M: 'static + PartialEq + Clone + Send, I: 'static + PartialEq + Clone + Send>(
    published: Seq<BusMessage<M, I>>,
    since: int,
    interests: Seq<I>,
) -> Seq<BusMessage<M, I>> {
    published.subrange(since, published.len() as int).filter(
        |m: BusMessage<M, I>| interested(interests, m.ident),
    )
}

/// What became of one subscription in one relay pass.
#[derive(PartialEq, Eq, Structural, Clone, Copy, Debug)]
pub enum Delivery {
    /// The tag did not match: nothing was sent.
    Skipped,
    /// A copy of the envelope was queued.
    Delivered,
    /// The receiving end was gone: the subscription was removed.
    Dropped,
}

/// The elements of `s` whose outcome in `o` is not `Dropped`, in order.
pub open spec fn kept<A>(s: Seq<A>, o: Seq<Delivery>) -> Seq<A>
    decreases s.len(),
{
    if s.len() == 0 {
        Seq::empty()
    } else {
        let rest = kept(s.drop_first(), o.drop_first());
        if o[0] == Delivery::Dropped {
            rest
        } else {
            seq![s[0]] + rest
        }
    }
}

/// Position in `o` of the `k`-th outcome that is not `Dropped`.
pub open spec fn kept_index(o: Seq<Delivery>, k: int) -> int
    decreases o.len(),
{
    if o.len() == 0 {
        0
    } else if o[0] == Delivery::Dropped {
        1 + kept_index(o.drop_first(), k)
    } else if k == 0 {
        0
    } else {
        1 + kept_index(o.drop_first(), k - 1)
    }
}

/// The `k`-th kept element is the element of `s` at `kept_index(o, k)`,
/// whose outcome is not `Dropped`.
pub proof fn lemma_kept_index<A>(s: Seq<A>, o: Seq<Delivery>, k: int)
    requires
        s.len() == o.len(),
        0 <= k < kept(s, o).len(),
    ensures
        0 <= kept_index(o, k) < s.len(),
        o[kept_index(o, k)] != Delivery::Dropped,
        kept(s, o)[k] == s[kept_index(o, k)],
    decreases s.len(),
{
    if o[0] == Delivery::Dropped {
        lemma_kept_index(s.drop_first(), o.drop_first(), k);
    } else if k > 0 {
        lemma_kept_index(s.drop_first(), o.drop_first(), k - 1);
    }
}

/// Keeping by the same outcomes leaves sequences of one length at one length.
pub proof fn lemma_kept_len<A, B>(s: Seq<A>, t: Seq<B>, o: Seq<Delivery>)
    requires
        s.len() == t.len(),
    ensures
        kept(s, o).len() == kept(t, o).len(),
        kept(s, o).len() <= s.len(),
    decreases s.len(),
{
    if s.len() > 0 {
        lemma_kept_len(s.drop_first(), t.drop_first(), o.drop_first());
    }
}

/// Whether `tag` matches an entry of `interests`, comparing each entry with
/// the tag by the tag type's `==`.
pub fn matches_any<I: PartialEq>(interests: &Vec<I>, tag: &I) -> (r: bool)
    ensures
        I::obeys_eq_spec() ==> r == interested(interests@, *tag),
{
    let mut j: usize = 0;
    while j < interests.len()
        invariant
            j <= interests@.len(),
            I::obeys_eq_spec() ==> forall|k: int| 0 <= k < j ==> !(#[trigger] interests@[k].eq_spec(tag)),
        decreases interests@.len() - j,
    {
        if interests[j].eq(tag) {
            return true;
        }
        j += 1;
    }
    false
}

/// Removes, from the back, every element whose outcome is `Dropped`; the
/// others keep their order.
pub fn remove_dropped<T>(list: &mut Vec<T>, outcomes: &Vec<Delivery>)
    requires
        old(list)@.len() == outcomes@.len(),
    ensures
        final(list)@ == kept(old(list)@, outcomes@),
{
    let ghost orig = list@;
    let ghost o = outcomes@;
    let n = list.len();
    let mut i: usize = n;
    assert(orig.subrange(0, n as int) =~= orig);
    assert(orig.subrange(n as int, n as int) =~= Seq::<T>::empty());
    while i > 0
        invariant
            n == orig.len(),
            n == o.len(),
            o == outcomes@,
            i <= n,
            list@ == orig.subrange(0, i as int) + kept(
                orig.subrange(i as int, n as int),
                o.subrange(i as int, n as int),
            ),
        decreases i,
    {
        let ghost tail = kept(orig.subrange(i as int, n as int), o.subrange(i as int, n as int));
        assert(orig.subrange(i - 1, n as int).drop_first() =~= orig.subrange(i as int, n as int));
        assert(o.subrange(i - 1, n as int).drop_first() =~= o.subrange(i as int, n as int));
        if outcomes[i - 1] == Delivery::Dropped {
            remove_item(list, i - 1);
            assert(list@ =~= orig.subrange(0, i - 1) + tail);
        } else {
            assert(list@ =~= orig.subrange(0, i - 1) + (seq![orig[i - 1]] + tail));
        }
        i -= 1;
    }
    assert(list@ =~= kept(orig, o)) by {
        assert(orig.subrange(0, 0) =~= Seq::<T>::empty());
        assert(orig.subrange(0, n as int) =~= orig);
        assert(o.subrange(0, n as int) =~= o);
    }
}

/// The matching envelopes since a point grow by the envelope exactly when
/// its tag matches.
proof fn lemma_matching_push<M: 'static + PartialEq + Clone + Send, I: 'static + PartialEq + Clone + Send>(
    published: Seq<BusMessage<M, I>>,
    since: int,
    interests: Seq<I>,
    message: BusMessage<M, I>,
)
    requires
        0 <= since <= published.len(),
    ensures
        matching_since(published.push(message), since, interests) == if interested(
            interests,
            message.ident,
        ) {
            matching_since(published, since, interests).push(message)
        } else {
            matching_since(published, since, interests)
        },
{
    broadcast use Seq::lemma_filter_push;

    let p = published.push(message);
    assert(p.subrange(since, p.len() as int) =~= published.subrange(since, published.len() as int).push(message));
}

/// Removes the element at `index`, if there is one.
pub fn remove_item<T>(vec: &mut Vec<T>, index: usize) -> (r: Option<T>)
    ensures
        index < old(vec)@.len() ==> r == Some(old(vec)@[index as int]) && final(vec)@ == old(
            vec,
        )@.remove(index as int),
        index >= old(vec)@.len() ==> r is None && final(vec)@ == old(vec)@,
{
    if index < vec.len() {
        Some(vec.remove(index))
    } else {
        None
    }
}

/// A registered queue agrees with what was published: it is live, and
/// (where the tag type's `==` follows its spec) it has been handed a copy
/// of exactly the matching envelopes since the subscription was made.
spec fn entry_ok<M: 'static + PartialEq + Clone + Send, I: 'static + PartialEq + Clone + Send>(
    published: Seq<BusMessage<M, I>>,
    entry: (BusSender<M, I>, Vec<I>),
    since: int,
) -> bool {
    &&& 0 <= since <= published.len()
    &&& !entry.0.gone()
    &&& I::obeys_eq_spec() ==> copies_of(matching_since(published, since, entry.1@), entry.0.sent())
}

/// What one relay pass did to one queue: nothing when `Skipped`; one copy of
/// `m` queued when `Delivered`; a failed send, the receiving end being gone,
/// when `Dropped`.
pub open spec fn step_ok<M: 'static + PartialEq + Clone + Send, I: 'static + PartialEq + Clone + Send>(
    before: BusSender<M, I>,
    after: BusSender<M, I>,
    outcome: Delivery,
    m: BusMessage<M, I>,
) -> bool {
    &&& after.queue() == before.queue()
    &&& match outcome {
        Delivery::Skipped => after == before,
        Delivery::Delivered => {
            &&& !after.gone()
            &&& after.sent().len() == before.sent().len() + 1
            &&& after.sent().drop_last() == before.sent()
            &&& copy_of(m, after.sent().last())
        },
        Delivery::Dropped => after.gone() && after.sent() == before.sent(),
    }
}

/// Copies of the matching envelopes, extended by a copy of a matching one.
proof fn lemma_copies_push<M: 'static + PartialEq + Clone + Send, I: 'static + PartialEq + Clone + Send>(
    originals: Seq<BusMessage<M, I>>,
    copies: Seq<BusMessage<M, I>>,
    m: BusMessage<M, I>,
    c: BusMessage<M, I>,
)
    requires
        copies_of(originals, copies),
        copy_of(m, c),
    ensures
        copies_of(originals.push(m), copies.push(c)),
{
    assert forall|j: int| 0 <= j < copies.push(c).len() implies copy_of(
        originals.push(m)[j],
        #[trigger] copies.push(c)[j],
    ) by {
        if j < copies.len() {
            assert(copies.push(c)[j] == copies[j]);
        }
    }
}

/// A subscription as the contracts see it: its interests and the number of
/// envelopes that had been published when it was made.
pub struct Subscriber<I> {
    pub interests: Seq<I>,
    pub since: int,
}

/// The registry of one bus: every live subscription with its queue, and the
/// sending handle of the inbound queue that all publishers share.
#[verifier::reject_recursive_types(M)]
#[verifier::reject_recursive_types(I)]
pub struct Bus<M: 'static + PartialEq + Clone + Send, I: 'static + PartialEq + Clone + Send> {
    sender_list: Vec<(BusSender<M, I>, Vec<I>)>,
    sender: BusSender<M, I>,
    inbound: Option<BusReceiver<M, I>>,
    /// Every envelope relayed so far, in order.
    published: Ghost<Seq<BusMessage<M, I>>>,
    /// Per subscription: how many envelopes had been relayed when it was made.
    since: Ghost<Seq<int>>,
    /// The subscription queues as the last relay pass left them, before the
    /// dead ones were removed.
    last_pass: Ghost<Seq<BusSender<M, I>>>,
}

impl<M: 'static + PartialEq + Clone + Send, I: 'static + PartialEq + Clone + Send> Bus<M, I> {
    /// Every envelope relayed so far, in order.
    pub closed spec fn published(&self) -> Seq<BusMessage<M, I>> {
        self.published@
    }

    /// The live subscriptions, in registration order.
    pub closed spec fn subscribers(&self) -> Seq<Subscriber<I>> {
        Seq::new(
            self.sender_list@.len(),
            |i: int| Subscriber { interests: self.sender_list@[i].1@, since: self.since@[i] },
        )
    }

    /// The queue of the subscription at position `i`.
    pub closed spec fn outbound(&self, i: int) -> BusSender<M, I> {
        self.sender_list@[i].0
    }

    /// The queues of the live subscriptions, in registration order.
    pub closed spec fn outboxes(&self) -> Seq<BusSender<M, I>> {
        Seq::new(self.sender_list@.len(), |i: int| self.sender_list@[i].0)
    }

    /// The subscription queues, by position, as the last relay pass left
    /// them before the dead ones were removed.
    pub closed spec fn last_pass(&self) -> Seq<BusSender<M, I>> {
        self.last_pass@
    }

    /// The shared inbound queue that every publisher feeds.
    pub closed spec fn inbound_queue(&self) -> int {
        self.sender.queue()
    }

    /// Whether the bus still holds the receiving end of its inbound queue.
    pub closed spec fn holds_inbound(&self) -> bool {
        self.inbound is Some
    }

    /// The registry's invariant: one start point per subscription, each
    /// queue agreeing with what has been published since, and the held
    /// inbound receiver reading the queue the bus's sender feeds.
    pub closed spec fn wf(&self) -> bool {
        &&& self.sender_list@.len() == self.since@.len()
        &&& forall|i: int|
            0 <= i < self.sender_list@.len() ==> entry_ok(
                self.published@,
                #[trigger] self.sender_list@[i],
                self.since@[i],
            )
        &&& self.inbound is Some ==> self.inbound->0.queue() == self.sender.queue()
    }

    /// A bus with no subscription and nothing published; it holds the
    /// receiving end of its inbound queue until `take_inbound`.
    pub fn new() -> (r: Self)
        ensures
            r.wf(),
            r.subscribers().len() == 0,
            r.published().len() == 0,
            r.holds_inbound(),
    {
        let (sender, receiver) = open_queue();
        Bus {
            sender_list: Vec::new(),
            sender,
            inbound: Some(receiver),
            published: Ghost(Seq::empty()),
            since: Ghost(Seq::empty()),
            last_pass: Ghost(Seq::empty()),
        }
    }

    /// Hands out the receiving end of the inbound queue, to the relay loop.
    pub fn take_inbound(&mut self) -> (r: Option<BusReceiver<M, I>>)
        requires
            old(self).wf(),
        ensures
            r is Some <==> old(self).holds_inbound(),
            r is Some ==> r->0.queue() == old(self).inbound_queue(),
            !final(self).holds_inbound(),
            final(self).wf(),
            final(self).subscribers() == old(self).subscribers(),
            final(self).outboxes() == old(self).outboxes(),
            final(self).published() == old(self).published(),
            final(self).inbound_queue() == old(self).inbound_queue(),
    {
        let r = self.inbound.take();
        assert(self.outboxes() =~= old(self).outboxes());
        r
    }

    /// Registers a subscription with `idents` as its interests. Returns a
    /// new sending handle of the shared inbound queue and the receiving end
    /// of the subscription's own, new queue.
    pub fn channel(&mut self, idents: Vec<I>) -> (r: (BusSender<M, I>, BusReceiver<M, I>))
        requires
            old(self).wf(),
        ensures
            final(self).wf(),
            final(self).subscribers() == old(self).subscribers().push(
                Subscriber { interests: idents@, since: old(self).published().len() as int },
            ),
            final(self).published() == old(self).published(),
            final(self).outboxes().drop_last() == old(self).outboxes(),
            final(self).outbound(old(self).subscribers().len() as int).sent() == Seq::<
                BusMessage<M, I>,
            >::empty(),
            r.1.queue() == final(self).outbound(old(self).subscribers().len() as int).queue(),
            r.0.queue() == old(self).inbound_queue(),
            r.0.sent() == Seq::<BusMessage<M, I>>::empty(),
            !r.0.gone(),
            final(self).inbound_queue() == old(self).inbound_queue(),
            final(self).holds_inbound() == old(self).holds_inbound(),
    {
        let (out, receiver) = open_queue();
        let ghost start = self.published@.len() as int;
        proof {
            assert(matching_since(self.published@, start, idents@) =~= Seq::empty());
        }
        self.sender_list.push((out, idents));
        self.since = Ghost(self.since@.push(start));
        assert(entry_ok(self.published@, self.sender_list@[self.sender_list@.len() - 1], start));
        assert(self.subscribers() =~= old(self).subscribers().push(
            Subscriber { interests: idents@, since: start },
        ));
        assert(self.outboxes().drop_last() =~= old(self).outboxes());
        (share(&self.sender), receiver)
    }

    /// Number of live subscriptions.
    pub fn subscriber_count(&self) -> (r: usize)
        ensures
            r == self.subscribers().len(),
    {
        self.sender_list.len()
    }

    /// One pass of the relay: every subscription whose interests match the
    /// envelope's tag, in registration order, is handed a copy of it; those
    /// whose receiving end is gone are then removed, the rest keep their
    /// order. The outcome of each subscription is returned, by position.
    pub fn relay(&mut self, message: BusMessage<M, I>) -> (outcomes: Vec<Delivery>)
        requires
            old(self).wf(),
        ensures
            final(self).wf(),
            final(self).published() == old(self).published().push(message),
            outcomes@.len() == old(self).subscribers().len(),
            final(self).last_pass().len() == outcomes@.len(),
            forall|i: int|
                0 <= i < outcomes@.len() ==> step_ok(
                    old(self).outbound(i),
                    #[trigger] final(self).last_pass()[i],
                    outcomes@[i],
                    message,
                ),
            I::obeys_eq_spec() ==> forall|i: int|
                0 <= i < outcomes@.len() ==> (#[trigger] outcomes@[i] == Delivery::Skipped <==> !interested(
                    old(self).subscribers()[i].interests,
                    message.ident,
                )),
            final(self).subscribers() == kept(old(self).subscribers(), outcomes@),
            final(self).outboxes() == kept(final(self).last_pass(), outcomes@),
            final(self).inbound_queue() == old(self).inbound_queue(),
            final(self).holds_inbound() == old(self).holds_inbound(),
    {
        let ghost old_published = self.published@;
        self.published = Ghost(self.published@.push(message));
        let mut outcomes: Vec<Delivery> = Vec::new();
        let n = self.sender_list.len();
        let mut i: usize = 0;
        while i < n
            invariant
                n == self.sender_list@.len(),
                n == old(self).sender_list@.len(),
                self.since == old(self).since,
                self.sender == old(self).sender,
                self.inbound == old(self).inbound,
                self.published@ == old_published.push(message),
                old_published == old(self).published@,
                old(self).wf(),
                i <= n,
                outcomes@.len() == i,
                forall|j: int| 0 <= j < n ==> (#[trigger] self.sender_list@[j]).1 == old(self).sender_list@[j].1,
                forall|j: int| i <= j < n ==> #[trigger] self.sender_list@[j] == old(self).sender_list@[j],
                forall|j: int|
                    0 <= j < i ==> step_ok(
                        old(self).sender_list@[j].0,
                        (#[trigger] self.sender_list@[j]).0,
                        outcomes@[j],
                        message,
                    ),
                I::obeys_eq_spec() ==> forall|j: int|
                    0 <= j < i ==> (#[trigger] outcomes@[j] == Delivery::Skipped <==> !interested(
                        self.sender_list@[j].1@,
                        message.ident,
                    )),
                forall|j: int|
                    0 <= j < i && outcomes@[j] != Delivery::Dropped ==> entry_ok(
                        self.published@,
                        #[trigger] self.sender_list@[j],
                        self.since@[j],
                    ),
            decreases n - i,
        {
            let ghost before = self.sender_list@[i as int];
            proof {
                assert(entry_ok(old_published, old(self).sender_list@[i as int], self.since@[i as int]));
                lemma_matching_push(old_published, self.since@[i as int], before.1@, message);
            }
            let entry = &mut self.sender_list[i];
            if matches_any(&entry.1, &message.ident) {
                let copy = message.clone();
                let ghost c = copy;
                if entry.0.send(copy) {
                    proof {
                        if I::obeys_eq_spec() {
                            lemma_copies_push(
                                matching_since(old_published, self.since@[i as int], before.1@),
                                before.0.sent(),
                                message,
                                c,
                            );
                        }
                        assert(entry.0.sent().drop_last() =~= before.0.sent());
                    }
                    outcomes.push(Delivery::Delivered);
                } else {
                    outcomes.push(Delivery::Dropped);
                }
            } else {
                outcomes.push(Delivery::Skipped);
            }
            i += 1;
        }
        let ghost list = self.sender_list@;
        self.last_pass = Ghost(Seq::new(n as nat, |j: int| list[j].0));
        remove_dropped(&mut self.sender_list, &outcomes);
        self.since = Ghost(kept(old(self).since@, outcomes@));
        proof {
            let o = outcomes@;
            let olds = old(self).since@;
            lemma_kept_len(list, olds, o);
            lemma_kept_len(list, old(self).subscribers(), o);
            lemma_kept_len(list, self.last_pass@, o);
            assert forall|k: int| 0 <= k < self.sender_list@.len() implies entry_ok(
                self.published@,
                #[trigger] self.sender_list@[k],
                self.since@[k],
            ) by {
                lemma_kept_index(list, o, k);
                lemma_kept_index(olds, o, k);
            }
            assert forall|k: int| 0 <= k < self.sender_list@.len() implies #[trigger] self.subscribers()[k]
                == kept(old(self).subscribers(), o)[k] by {
                lemma_kept_index(list, o, k);
                lemma_kept_index(olds, o, k);
                lemma_kept_index(old(self).subscribers(), o, k);
            }
            assert(self.subscribers() =~= kept(old(self).subscribers(), o));
            assert forall|k: int| 0 <= k < self.sender_list@.len() implies #[trigger] self.outboxes()[k]
                == kept(self.last_pass@, o)[k] by {
                lemma_kept_index(list, o, k);
                lemma_kept_index(self.last_pass@, o, k);
            }
            assert(self.outboxes() =~= kept(self.last_pass@, o));
        }
        outcomes
    }
}

impl<M: 'static + PartialEq + Clone + Send, I: 'static + PartialEq + Clone + Send> Default for Bus<M, I> {
    fn default() -> (r: Self)
        ensures
            r.wf(),
            r.subscribers().len() == 0,
            r.published().len() == 0,
            r.holds_inbound(),
    {
        Bus::new()
    }
}

/// At every moment, each live subscription's queue has been handed a copy
/// of exactly the envelopes published since the subscription was made whose
/// tag matches its interests, in publication order, and its receiving end
/// has not been seen gone.
pub proof fn lemma_receives_matching_in_order<M: 'static + PartialEq + Clone + Send, I: 'static + PartialEq + Clone + Send>(
    bus: &Bus<M, I>,
    i: int,
)
    requires
        bus.wf(),
        I::obeys_eq_spec(),
        0 <= i < bus.subscribers().len(),
    ensures
        copies_of(
            matching_since(bus.published(), bus.subscribers()[i].since, bus.subscribers()[i].interests),
            bus.outbound(i).sent(),
        ),
        0 <= bus.subscribers()[i].since <= bus.published().len(),
        !bus.outbound(i).gone(),
{
    assert(entry_ok(bus.published@, bus.sender_list@[i], bus.since@[i]));
}

/// Two subscriptions made at the same moment with the same interests are
/// each handed a copy of the same envelopes, in the same order: each queue
/// gets its own copy.
pub proof fn lemma_same_interests_same_envelopes<M: 'static + PartialEq + Clone + Send, I: 'static + PartialEq + Clone + Send>(
    bus: &Bus<M, I>,
    i: int,
    j: int,
)
    requires
        bus.wf(),
        I::obeys_eq_spec(),
        0 <= i < bus.subscribers().len(),
        0 <= j < bus.subscribers().len(),
        bus.subscribers()[i] == bus.subscribers()[j],
    ensures
        copies_of(
            matching_since(bus.published(), bus.subscribers()[i].since, bus.subscribers()[i].interests),
            bus.outbound(i).sent(),
        ),
        copies_of(
            matching_since(bus.published(), bus.subscribers()[i].since, bus.subscribers()[i].interests),
            bus.outbound(j).sent(),
        ),
{
    lemma_receives_matching_in_order(bus, i);
    lemma_receives_matching_in_order(bus, j);
}

} // verus!
