//! Reading an outbox: what a call added to it, told apart by what it is for.

use vstd::prelude::*;

use crate::env::{Effect, EnvView};
use crate::types::{Address, DataKey};
use crate::withdraw_event_emission::Event;

verus! {

/// What an effect is for.
pub enum Purpose {
    /// It moves or tries to move something of value, or replaces the code.
    Move,
    /// It tells the world.
    Notice,
    /// It keeps stored entries alive.
    Upkeep,
}

/// What an effect is for.
pub open spec fn purpose(effect: Effect<Seq<u8>>) -> Purpose {
    match effect {
        Effect::Publish { .. } => Purpose::Notice,
        Effect::ExtendInstanceTtl { .. } => Purpose::Upkeep,
        Effect::ExtendPersistentTtl { .. } => Purpose::Upkeep,
        _ => Purpose::Move,
    }
}

/// The effects that are for `p`, in order.
pub open spec fn picked(effects: Seq<Effect<Seq<u8>>>, p: Purpose) -> Seq<Effect<Seq<u8>>>
    decreases effects.len(),
{
    if effects.len() == 0 {
        Seq::empty()
    } else if purpose(effects.last()) == p {
        picked(effects.drop_last(), p).push(effects.last())
    } else {
        picked(effects.drop_last(), p)
    }
}

/// `f` is a later point of the invocation `e`: time, place and bounds are the same, and nothing
/// is taken back from the outbox.
pub open spec fn goes_on(e: EnvView, f: EnvView) -> bool {
    &&& f.limits == e.limits
    &&& f.now == e.now
    &&& f.contract == e.contract
    &&& e.outbox.len() <= f.outbox.len()
    &&& f.outbox.take(e.outbox.len() as int) == e.outbox
}

/// What came into the outbox between `e` and `f`.
pub open spec fn news(e: EnvView, f: EnvView) -> Seq<Effect<Seq<u8>>> {
    f.outbox.skip(e.outbox.len() as int)
}

/// What a call moves, in order.
pub open spec fn moves(e: EnvView, f: EnvView) -> Seq<Effect<Seq<u8>>> {
    picked(news(e, f), Purpose::Move)
}

/// What a call publishes, in order.
pub open spec fn notices(e: EnvView, f: EnvView) -> Seq<Effect<Seq<u8>>> {
    picked(news(e, f), Purpose::Notice)
}

/// What a call keeps alive, in order.
pub open spec fn upkeep(e: EnvView, f: EnvView) -> Seq<Effect<Seq<u8>>> {
    picked(news(e, f), Purpose::Upkeep)
}

/// A payment in the campaign's token.
pub open spec fn payment(token: Address, from: Address, to: Address, amount: int) -> Effect<
    Seq<u8>,
> {
    Effect::Transfer { token, from, to, amount: amount as i128 }
}

/// The publication of an event.
pub open spec fn notice(event: Event<Seq<u8>>) -> Effect<Seq<u8>> {
    Effect::Publish { event }
}

/// The upkeep of what every call reads: below 100,000 ledgers it is brought to 535,000.
pub open spec fn instance_upkeep() -> Effect<Seq<u8>> {
    Effect::ExtendInstanceTtl { threshold: 100_000, extend_to: 535_000 }
}

/// The upkeep of a single entry.
pub open spec fn entry_upkeep(key: DataKey) -> Effect<Seq<u8>> {
    Effect::ExtendPersistentTtl { key, threshold: 100_000, extend_to: 535_000 }
}

/// A refused call leaves what is stored and the outbox as they were.
pub open spec fn nothing_done(e: EnvView, f: EnvView) -> bool {
    &&& f.campaign == e.campaign
    &&& f.outbox == e.outbox
    &&& f.limits == e.limits
    &&& f.now == e.now
    &&& f.contract == e.contract
}

/// Nothing is for anything in an empty list.
pub broadcast proof fn lemma_picked_empty(p: Purpose)
    ensures
        #[trigger] picked(Seq::empty(), p) == Seq::<Effect<Seq<u8>>>::empty(),
{
}

/// One more effect is added to those of its kind.
pub broadcast proof fn lemma_picked_push(
    effects: Seq<Effect<Seq<u8>>>,
    effect: Effect<Seq<u8>>,
    p: Purpose,
)
    ensures
        #[trigger] picked(effects.push(effect), p) == (if purpose(effect) == p {
            picked(effects, p).push(effect)
        } else {
            picked(effects, p)
        }),
{
    assert(effects.push(effect).drop_last() =~= effects);
}

/// Lists that are joined are told apart one by one.
pub broadcast proof fn lemma_picked_add(
    a: Seq<Effect<Seq<u8>>>,
    b: Seq<Effect<Seq<u8>>>,
    p: Purpose,
)
    ensures
        #[trigger] picked(a + b, p) == picked(a, p) + picked(b, p),
    decreases b.len(),
{
    if b.len() == 0 {
        assert(a + b =~= a);
        assert(picked(a, p) + picked(b, p) =~= picked(a, p));
    } else {
        assert((a + b).drop_last() =~= a + b.drop_last());
        lemma_picked_add(a, b.drop_last(), p);
        assert(picked(a, p) + picked(b.drop_last(), p).push(b.last()) =~= (picked(a, p) + picked(
            b.drop_last(),
            p,
        )).push(b.last()));
    }
}

/// The effect at place `i`, if there is one and it is for `p`.
pub open spec fn picked_at(effects: Seq<Effect<Seq<u8>>>, i: int, p: Purpose) -> Seq<
    Effect<Seq<u8>>,
> {
    if 0 <= i < effects.len() && purpose(effects[i]) == p {
        seq![effects[i]]
    } else {
        Seq::empty()
    }
}

/// A short list is told apart place by place.
pub proof fn lemma_picked_short(effects: Seq<Effect<Seq<u8>>>)
    requires
        effects.len() <= 4,
    ensures
        forall|p: Purpose| #[trigger]
            picked(effects, p) == picked_at(effects, 0, p) + picked_at(effects, 1, p) + picked_at(
                effects,
                2,
                p,
            ) + picked_at(effects, 3, p),
{
    assert forall|p: Purpose| #[trigger]
        picked(effects, p) == picked_at(effects, 0, p) + picked_at(effects, 1, p) + picked_at(
            effects,
            2,
            p,
        ) + picked_at(effects, 3, p) by {
        reveal_with_fuel(picked, 5);
        assert(picked(effects, p) =~= picked_at(effects, 0, p) + picked_at(effects, 1, p)
            + picked_at(effects, 2, p) + picked_at(effects, 3, p));
    }
}

/// A list of effects that are all for one purpose is picked as a whole or not at all.
pub proof fn lemma_picked_uniform(effects: Seq<Effect<Seq<u8>>>, q: Purpose)
    requires
        forall|i: int| 0 <= i < effects.len() ==> purpose(#[trigger] effects[i]) == q,
    ensures
        forall|p: Purpose| #[trigger]
            picked(effects, p) == (if p == q {
                effects
            } else {
                Seq::empty()
            }),
    decreases effects.len(),
{
    if effects.len() > 0 {
        let before = effects.drop_last();
        assert forall|i: int| 0 <= i < before.len() implies purpose(#[trigger] before[i]) == q by {
            assert(before[i] == effects[i]);
        }
        lemma_picked_uniform(before, q);
        assert(effects.last() == effects[effects.len() - 1]);
        assert(before.push(effects.last()) =~= effects);
        assert forall|p: Purpose| #[trigger]
            picked(effects, p) == (if p == q {
                effects
            } else {
                Seq::empty()
            }) by {
            assert(picked(before, p) == (if p == q {
                before
            } else {
                Seq::empty()
            }));
        }
    }
}

pub broadcast group group_picked {
    lemma_picked_empty,
    lemma_picked_push,
    lemma_picked_add,
}

/// What was sent after `e` is the news.
pub proof fn lemma_news(e: EnvView, f: EnvView, sent: Seq<Effect<Seq<u8>>>)
    requires
        f.outbox == e.outbox + sent,
    ensures
        news(e, f) == sent,
        f.outbox.take(e.outbox.len() as int) == e.outbox,
{
    assert(news(e, f) =~= sent);
    assert(f.outbox.take(e.outbox.len() as int) =~= e.outbox);
}

} // verus!
