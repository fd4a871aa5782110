use vstd::prelude::*;
use crate::collision::{CollisionEvent, collision_step, expire_step};
use crate::session::{
    Entity, GameSession, KeyInput, TypingBuffer, any_match, backed, despawned, entity_evolves,
    evolves, lemma_evolves_trans, same_rest, tags_wf, typeable, typing_step, word_of,
};
use crate::session::EntityKind;
use crate::text::is_prefix;
use crate::spawner::{clamp_step, difficulty_step, spawn_step};
use crate::words::AvailableWords;

verus! {

/// The buffer guard: a buffer that no typeable word starts with any more
/// (its word landed or was blasted) is cleared; nothing else changes.
pub open spec fn clean_step(a: &GameSession, b: &GameSession) -> bool {
    &&& b.buffer() == if any_match(a.entities@, a.buffer()) {
        a.buffer()
    } else {
        Seq::<char>::empty()
    }
    &&& b.entities@ == a.entities@
    &&& same_rest(a, b)
}

/// One simulation tick, its stages in their required order: typing and
/// matching, collision resolution, the expiry of the blast sensors that were
/// there before it, the buffer guard, the velocity clamp, the spawner, the
/// difficulty ramp.
pub open spec fn tick_step(
    a: &GameSession,
    b: &GameSession,
    input: &KeyInput,
    events: Seq<CollisionEvent>,
    words: &AvailableWords,
    delta_ms: u64,
) -> bool {
    exists|
        s1: GameSession,
        s2: GameSession,
        s3: GameSession,
        s4: GameSession,
        s5: GameSession,
        s6: GameSession,
    |
        typing_step(a, &s1, input) && collision_step(&s1, &s2, events) && expire_step(
            &s2,
            &s3,
            s1.entities@.len() as int,
        ) && clean_step(&s3, &s4) && clamp_step(&s4, &s5) && spawn_step(
            &s5,
            &s6,
            words,
            delta_ms,
        ) && difficulty_step(&s6, b, delta_ms)
}

/// What follows the buffer guard in a tick keeps the buffer backed: it
/// neither changes the buffer nor takes a word or a tag from any entity.
pub proof fn lemma_backed_after_guard(
    s3: &GameSession,
    s4: &GameSession,
    s5: &GameSession,
    b: &GameSession,
    words: &AvailableWords,
    delta_ms: u64,
)
    requires
        backed(s3),
        clamp_step(s3, s4),
        spawn_step(s4, s5, words, delta_ms),
        difficulty_step(s5, b, delta_ms),
    ensures
        backed(b),
{
    if b.buffer().len() > 0 {
        let j = choose|j: int|
            0 <= j < s3.entities@.len() && typeable(s3.entities@[j]) && is_prefix(
                s3.buffer(),
                word_of(s3.entities@[j]),
            );
        assert(s4.entities@[j] == Entity { velocity: s4.entities@[j].velocity, ..s3.entities@[j] });
        if s4.spawn_timer.0.finishes(delta_ms) {
            assert(s5.entities@[j] == s5.entities@.drop_last()[j]);
        }
        assert(b.entities@[j] == s5.entities@[j]);
    }
}

impl GameSession {
    /// Clears a buffer that no typeable word starts with any more. No entity
    /// can then be marked, since marked words start with the buffer.
    pub fn clean_typing_buffer(&mut self)
        requires
            old(self).wf(),
        ensures
            final(self).wf(),
            evolves(old(self), final(self)),
            clean_step(old(self), final(self)),
            backed(final(self)),
    {
        if !self.any_word_starts_with(&self.typing_buffer.0) {
            self.typing_buffer = TypingBuffer(String::new());
        }
        proof {
            assert forall|j: int|
                0 <= j < old(self).entities@.len() implies #[trigger] entity_evolves(
                old(self).entities@[j],
                self.entities@[j],
            ) by {}
        }
    }

    /// Runs one tick of the game in the order that the stages require.
    pub fn tick(
        &mut self,
        input: &KeyInput,
        events: &Vec<CollisionEvent>,
        words: &AvailableWords,
        delta_ms: u64,
    )
        requires
            old(self).wf(),
            words.wf(),
        ensures
            final(self).wf(),
            evolves(old(self), final(self)),
            tick_step(old(self), final(self), input, events@, words, delta_ms),
            backed(final(self)),
    {
        self.typing(input);
        let ghost s1 = *self;
        let n0 = self.entities.len();
        self.handle_trash_collision(events);
        let ghost s2 = *self;
        self.remove_explosions(n0);
        let ghost s3 = *self;
        self.clean_typing_buffer();
        let ghost s4 = *self;
        self.clamp_duplicated_trash();
        let ghost s5 = *self;
        let _ = self.spawn_trash(words, delta_ms);
        let ghost s6 = *self;
        self.update_difficulty(delta_ms);
        proof {
            lemma_evolves_trans(old(self), &s1, &s2);
            lemma_evolves_trans(old(self), &s2, &s3);
            lemma_evolves_trans(old(self), &s3, &s4);
            lemma_evolves_trans(old(self), &s4, &s5);
            lemma_evolves_trans(old(self), &s5, &s6);
            lemma_evolves_trans(old(self), &s6, self);
            lemma_backed_after_guard(&s4, &s5, &s6, self, words, delta_ms);
            assert(typing_step(old(self), &s1, input) && collision_step(&s1, &s2, events@)
                && expire_step(&s2, &s3, s1.entities@.len() as int) && clean_step(&s3, &s4)
                && clamp_step(&s4, &s5) && spawn_step(&s5, &s6, words, delta_ms)
                && difficulty_step(&s6, self, delta_ms));
        }
    }

    /// Ends the play of a round: every entity but the game-over marker is
    /// despawned and the buffer cleared; score and combo stay for the
    /// round's summary.
    pub fn delete_all_play_entities(&mut self)
        requires
            old(self).wf(),
        ensures
            final(self).wf(),
            evolves(old(self), final(self)),
            final(self).entities@ == Seq::new(
                old(self).entities@.len(),
                |i: int|
                    if old(self).entities@[i].kind == EntityKind::GameOver {
                        old(self).entities@[i]
                    } else {
                        despawned(old(self).entities@[i])
                    },
            ),
            final(self).buffer().len() == 0,
            same_rest(old(self), final(self)),
    {
        self.typing_buffer = TypingBuffer(String::new());
        self.despawn_where(false);
    }

    /// Leaves the game-over screen: the game-over markers are despawned.
    pub fn delete_all_gameover_entities(&mut self)
        requires
            old(self).wf(),
        ensures
            final(self).wf(),
            evolves(old(self), final(self)),
            final(self).entities@ == Seq::new(
                old(self).entities@.len(),
                |i: int|
                    if old(self).entities@[i].kind == EntityKind::GameOver {
                        despawned(old(self).entities@[i])
                    } else {
                        old(self).entities@[i]
                    },
            ),
            final(self).typing_buffer.0 == old(self).typing_buffer.0,
            same_rest(old(self), final(self)),
    {
        self.despawn_where(true);
    }

    /// Despawns the game-over markers if `markers`, else every other entity.
    fn despawn_where(&mut self, markers: bool)
        requires
            old(self).wf(),
        ensures
            final(self).wf(),
            evolves(old(self), final(self)),
            final(self).entities@ == Seq::new(
                old(self).entities@.len(),
                |i: int|
                    if (old(self).entities@[i].kind == EntityKind::GameOver) == markers {
                        despawned(old(self).entities@[i])
                    } else {
                        old(self).entities@[i]
                    },
            ),
            final(self).typing_buffer.0 == old(self).typing_buffer.0,
            same_rest(old(self), final(self)),
    {
        let ghost es = self.entities@;
        let mut i: usize = 0;
        while i < self.entities.len()
            invariant
                i <= self.entities@.len(),
                self.entities@.len() == es.len(),
                es == old(self).entities@,
                self.typing_buffer.0 == old(self).typing_buffer.0,
                same_rest(old(self), self),
                forall|j: int|
                    0 <= j < es.len() ==> #[trigger] self.entities@[j] == if j < i && (es[j].kind
                        == EntityKind::GameOver) == markers {
                        despawned(es[j])
                    } else {
                        es[j]
                    },
            decreases es.len() - i,
        {
            if (self.entities[i].kind == EntityKind::GameOver) == markers {
                self.despawn_at(i);
            }
            i = i + 1;
        }
        proof {
            assert forall|j: int| 0 <= j < es.len() implies #[trigger] tags_wf(
                self.entities@[j],
            ) by {
                assert(tags_wf(es[j]));
            }
            assert forall|j: int| 0 <= j < es.len() implies #[trigger] entity_evolves(
                es[j],
                self.entities@[j],
            ) by {}
            assert forall|j: int|
                0 <= j < es.len() && (#[trigger] self.entities@[j]).marked implies is_prefix(
                self.buffer(),
                word_of(self.entities@[j]),
            ) by {
                assert(tags_wf(es[j]));
            }
        }
    }
}

} // verus!
