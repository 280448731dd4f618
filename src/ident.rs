use vstd::prelude::*;
use vstd::std_specs::cmp::PartialEqSpec;

use crate::bus::{copies_of, interested, matching_since, Bus, BusMessage};

verus! {

/// Tag used by the domain messages: `All` matches every tag but `Nothing`,
/// `Nothing` matches nothing, and `Name(s)` matches `All` and the same name.
#[derive(Clone, Debug)]
pub enum Ident {
    All,
    Nothing,
    Name(String),
}

/// The matching relation of two tags, as `==` on `Ident` decides it.
pub open spec fn ident_matches(a: Ident, b: Ident) -> bool {
    match (a, b) {
        (Ident::All, Ident::All) => true,
        (Ident::All, Ident::Name(_)) => true,
        (Ident::Name(_), Ident::All) => true,
        (Ident::Name(x), Ident::Name(y)) => x@ == y@,
        _ => false,
    }
}

impl PartialEq for Ident {
    fn eq(&self, other: &Ident) -> (r: bool)
        ensures
            r == ident_matches(*self, *other),
    {
        match self {
            Ident::All => match other {
                Ident::All => true,
                Ident::Name(_) => true,
                Ident::Nothing => false,
            },
            Ident::Name(a) => match other {
                Ident::All => true,
                Ident::Name(b) => a.eq(b),
                Ident::Nothing => false,
            },
            Ident::Nothing => false,
        }
    }
}

impl vstd::std_specs::cmp::PartialEqSpecImpl for Ident {
    open spec fn obeys_eq_spec() -> bool {
        true
    }

    open spec fn eq_spec(&self, other: &Ident) -> bool {
        ident_matches(*self, *other)
    }
}

/// `Nothing` matches no tag, on either side, not even `Nothing`.
pub proof fn lemma_nothing_matches_no_tag(t: Ident)
    ensures
        !ident_matches(Ident::Nothing, t),
        !ident_matches(t, Ident::Nothing),
{
}

/// `All` matches every tag but `Nothing`, on either side.
pub proof fn lemma_all_matches_every_tag(t: Ident)
    requires
        !(t is Nothing),
    ensures
        ident_matches(Ident::All, t),
        ident_matches(t, Ident::All),
{
}

/// Filtering by a predicate that holds of every element keeps the sequence.
proof fn lemma_filter_keeps_all<A>(s: Seq<A>, pred: spec_fn(A) -> bool)
    requires
        forall|k: int| 0 <= k < s.len() ==> pred(#[trigger] s[k]),
    ensures
        s.filter(pred) == s,
    decreases s.len(),
{
    broadcast use Seq::lemma_filter_push;

    if s.len() > 0 {
        let init = s.drop_last();
        assert forall|k: int| 0 <= k < init.len() implies pred(#[trigger] init[k]) by {
            assert(init[k] == s[k]);
        }
        lemma_filter_keeps_all(init, pred);
        assert(init.push(s.last()) =~= s);
    }
}

/// A subscription with `All` among its interests is handed a copy of every
/// envelope published since it was made, in order, as long as none of them is tagged `Nothing`,
/// whatever its place among the other subscriptions.
pub proof fn lemma_all_receives_everything<M: 'static + PartialEq + Clone + Send>(
    bus: &Bus<M, Ident>,
    i: int,
)
    requires
        bus.wf(),
        0 <= i < bus.subscribers().len(),
        bus.subscribers()[i].interests.contains(Ident::All),
        forall|k: int|
            bus.subscribers()[i].since <= k < bus.published().len() ==> !((
            #[trigger] bus.published()[k]).ident is Nothing),
    ensures
        copies_of(
            bus.published().subrange(bus.subscribers()[i].since, bus.published().len() as int),
            bus.outbound(i).sent(),
        ),
{
    crate::bus::lemma_receives_matching_in_order(bus, i);
    let sub = bus.subscribers()[i];
    let p = bus.published();
    let rest = p.subrange(sub.since, p.len() as int);
    let pred = |m: BusMessage<M, Ident>| interested(sub.interests, m.ident);
    let j = choose|j: int| 0 <= j < sub.interests.len() && sub.interests[j] == Ident::All;
    assert forall|k: int| 0 <= k < rest.len() implies pred(#[trigger] rest[k]) by {
        assert(rest[k] == p[sub.since + k]);
        assert(sub.interests[j].eq_spec(&rest[k].ident));
    }
    lemma_filter_keeps_all(rest, pred);
    assert(matching_since(p, sub.since, sub.interests) == rest.filter(pred));
}

/// A subscription whose interests are all `Nothing` (or empty) is never
/// handed any envelope, whatever the envelopes' tags.
pub proof fn lemma_nothing_receives_nothing<M: 'static + PartialEq + Clone + Send>(
    bus: &Bus<M, Ident>,
    i: int,
)
    requires
        bus.wf(),
        0 <= i < bus.subscribers().len(),
        forall|j: int|
            0 <= j < bus.subscribers()[i].interests.len() ==> (#[trigger] bus.subscribers()[i].interests[j]) is Nothing,
    ensures
        bus.outbound(i).sent() == Seq::<BusMessage<M, Ident>>::empty(),
{
    crate::bus::lemma_receives_matching_in_order(bus, i);
    let sub = bus.subscribers()[i];
    let p = bus.published();
    let rest = p.subrange(sub.since, p.len() as int);
    let pred = |m: BusMessage<M, Ident>| interested(sub.interests, m.ident);
    assert forall|k: int| 0 <= k < rest.len() implies !pred(#[trigger] rest[k]) by {
        assert forall|j: int| 0 <= j < sub.interests.len() implies !(#[trigger] sub.interests[j]).eq_spec(&rest[k].ident) by {
            assert(sub.interests[j] is Nothing);
        }
    }
    rest.lemma_all_neg_filter_empty(pred);
    assert(matching_since(p, sub.since, sub.interests) == rest.filter(pred));
    assert(bus.outbound(i).sent() =~= Seq::<BusMessage<M, Ident>>::empty());
}

} // verus!
