use vstd::prelude::*;
use crate::collision::{
    CollisionEvent, blast_hits, buffer_after_hit, clone_of, collision_step, entities_after_hit,
    expire_step,
    game_over_pair, resolve_events, splits,
};
use crate::game::{clean_step, lemma_backed_after_guard, tick_step};
use crate::session::{
    Entity, GameSession, KeyInput, activates, activation_count, activation_step, any_match,
    entity_evolves, evolves, lemma_evolves_trans, tags_wf, typeable, typing_step, word_of,
};
use crate::spawner::{clamp_step, difficulty_step, spawn_step};
use crate::words::AvailableWords;

verus! {

/// Consecutive sessions each reached from the one before by an operation of
/// this library: every such operation ensures `evolves`.
pub open spec fn is_trace(t: Seq<GameSession>) -> bool {
    forall|k: int| 0 <= k < t.len() - 1 ==> #[trigger] evolves(&t[k], &t[k + 1])
}

/// Entity `i` was activated between sessions `k` and `k + 1`.
pub open spec fn newly_activated(t: Seq<GameSession>, k: int, i: int) -> bool {
    &&& 0 <= i < t[k].entities@.len()
    &&& !t[k].entities@[i].trash.activated
    &&& t[k + 1].entities@[i].trash.activated
}

/// Entity `i` gave up splitting between sessions `k` and `k + 1`.
pub open spec fn lost_duplicate(t: Seq<GameSession>, k: int, i: int) -> bool {
    &&& 0 <= i < t[k].entities@.len()
    &&& t[k].entities@[i].duplicate
    &&& !t[k + 1].entities@[i].duplicate
}

/// Along a trace, every later session is reached from every earlier one
/// within the rules of `evolves`.
pub proof fn lemma_trace_evolves(t: Seq<GameSession>, j: int, k: int)
    requires
        is_trace(t),
        0 <= j <= k < t.len(),
    ensures
        evolves(&t[j], &t[k]),
    decreases k - j,
{
    if j == k {
        assert forall|i: int| 0 <= i < t[j].entities@.len() implies #[trigger] entity_evolves(
            t[j].entities@[i],
            t[k].entities@[i],
        ) by {}
    } else {
        lemma_trace_evolves(t, j, k - 1);
        assert(evolves(&t[k - 1], &t[k - 1 + 1]));
        lemma_evolves_trans(&t[j], &t[k - 1], &t[k]);
    }
}

/// After every tick, a typing buffer that is not empty is the start of the
/// word of some typeable trash: the buffer never stays on a dead prefix.
pub proof fn tick_leaves_buffer_backed(
    a: &GameSession,
    b: &GameSession,
    input: &KeyInput,
    events: Seq<CollisionEvent>,
    words: &AvailableWords,
    delta_ms: u64,
)
    requires
        tick_step(a, b, input, events, words, delta_ms),
    ensures
        b.buffer().len() > 0 ==> any_match(b.entities@, b.buffer()),
{
    let (s1, s2, s3, s4, s5, s6) = choose|
        s1: GameSession,
        s2: GameSession,
        s3: GameSession,
        s4: GameSession,
        s5: GameSession,
        s6: GameSession,
    |
        typing_step(a, &s1, input) && collision_step(&s1, &s2, events) && expire_step(
            &s2,
            &s3,
            s1.entities@.len() as int,
        ) && clean_step(&s3, &s4) && clamp_step(&s4, &s5) && spawn_step(
            &s5,
            &s6,
            words,
            delta_ms,
        ) && difficulty_step(&s6, b, delta_ms);
    lemma_backed_after_guard(&s4, &s5, &s6, b, words, delta_ms);
}

/// A trash is activated at most once in its lifetime: of all the steps of
/// a trace, at most one turns its activation on.
pub proof fn activation_happens_once(t: Seq<GameSession>, i: int, j: int, k: int)
    requires
        is_trace(t),
        0 <= j < k < t.len() - 1,
        newly_activated(t, j, i),
    ensures
        !newly_activated(t, k, i),
{
    lemma_trace_evolves(t, j + 1, k);
    assert(evolves(&t[j], &t[j + 1]));
    assert(entity_evolves(t[j + 1].entities@[i], t[k].entities@[i]));
}

/// In an activation pass, the entities that score are exactly those whose
/// activation turns on; each scores the buffer's length, which is its word's.
pub proof fn only_newly_activated_trash_scores(a: &GameSession, b: &GameSession, i: int)
    requires
        activation_step(a, b),
        0 <= i < a.entities@.len(),
    ensures
        activates(a.entities@[i], a.buffer()) <==> (!a.entities@[i].trash.activated
            && b.entities@[i].trash.activated),
{
}

/// The score never decreases along a trace.
pub proof fn score_never_decreases(t: Seq<GameSession>, j: int, k: int)
    requires
        is_trace(t),
        0 <= j <= k < t.len(),
    ensures
        t[j].score.0 <= t[k].score.0,
{
    lemma_trace_evolves(t, j, k);
}

/// Trash that has landed stays untypeable: it is never active or marked
/// again, so matching never looks at it.
pub proof fn landed_trash_stays_untypeable(t: Seq<GameSession>, i: int, j: int, k: int)
    requires
        is_trace(t),
        0 <= j <= k < t.len(),
        t[k].wf(),
        0 <= i < t[j].entities@.len(),
        !t[j].entities@[i].active,
    ensures
        !t[k].entities@[i].active,
        !t[k].entities@[i].marked,
        !typeable(t[k].entities@[i]),
{
    lemma_trace_evolves(t, j, k);
    assert(entity_evolves(t[j].entities@[i], t[k].entities@[i]));
    assert(tags_wf(t[k].entities@[i]));
}

/// A trash splits at most once: of all the steps of a trace, at most one
/// takes its ability to split away.
pub proof fn duplication_happens_once(t: Seq<GameSession>, i: int, j: int, k: int)
    requires
        is_trace(t),
        0 <= j < k < t.len() - 1,
        lost_duplicate(t, j, i),
    ensures
        !lost_duplicate(t, k, i),
{
    lemma_trace_evolves(t, j + 1, k);
    assert(evolves(&t[j], &t[j + 1]));
    assert(entity_evolves(t[j + 1].entities@[i], t[k].entities@[i]));
}

/// The impact that splits a trash also takes its ability to split away, and
/// its clone cannot split.
pub proof fn split_consumes_duplicate(es: Seq<Entity>, e: int, o: int)
    requires
        splits(es, e, o),
        !blast_hits(es, e, o),
    ensures
        !entities_after_hit(es, e, o)[e].duplicate,
        entities_after_hit(es, e, o).last() == clone_of(es[e]),
        !clone_of(es[e]).duplicate,
{
}

/// Once the trash has split, no later contact splits it again.
pub proof fn no_second_split(es: Seq<Entity>, e: int, o1: int, o2: int)
    requires
        splits(es, e, o1),
        !blast_hits(es, e, o1),
    ensures
        !splits(entities_after_hit(es, e, o1), e, o2),
{
}

/// Each completed word adds its length times the combo modifier, as long as
/// the score does not reach its largest value.
pub proof fn score_increment_exact(a: &GameSession, b: &GameSession)
    requires
        activation_step(a, b),
        a.score.0 + activation_count(a.entities@, a.buffer(), a.entities@.len() as int)
            * a.buffer().len() * a.combo_modifier.0 <= u64::MAX,
    ensures
        b.score.0 == a.score.0 + activation_count(a.entities@, a.buffer(), a.entities@.len() as int)
            * a.buffer().len() * a.combo_modifier.0,
        forall|i: int|
            0 <= i < a.entities@.len() && activates(#[trigger] a.entities@[i], a.buffer())
                ==> word_of(a.entities@[i]).len() == a.buffer().len(),
{
}

/// Once landed trash touches the game-over line, the events after that
/// contact in the same tick change nothing.
pub proof fn events_after_game_over_are_ignored(
    es: Seq<Entity>,
    buf: Seq<char>,
    evs: Seq<CollisionEvent>,
    later: Seq<CollisionEvent>,
)
    requires
        resolve_events(es, buf, evs).2,
    ensures
        resolve_events(es, buf, evs + later) == resolve_events(es, buf, evs),
    decreases evs.len(),
{
    assert((evs + later)[0] == evs[0]);
    assert((evs + later).drop_first() =~= evs.drop_first() + later);
    match evs[0] {
        CollisionEvent::Started(a, b) => {
            if !game_over_pair(es, a as int, b as int) {
                let es1 = entities_after_hit(es, a as int, b as int);
                let buf1 = buffer_after_hit(es, buf, a as int, b as int);
                let es2 = entities_after_hit(es1, b as int, a as int);
                let buf2 = buffer_after_hit(es1, buf1, b as int, a as int);
                events_after_game_over_are_ignored(es2, buf2, evs.drop_first(), later);
            }
        },
        CollisionEvent::Stopped(_, _) => {
            events_after_game_over_are_ignored(es, buf, evs.drop_first(), later);
        },
    }
}

} // verus!
