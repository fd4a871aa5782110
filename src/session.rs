use vstd::prelude::*;
use crate::text::{Key, apply_keys, char_len, is_prefix, starts_with, typed_candidate};
use crate::timer::{DifficultyTimer, Timer, TrashSpawnTimer};
use crate::trash::{PowerUp, RunState, Trash};

verus! {

/// Spawn period at the start of a round.
pub const INITIAL_TRASH_SPAWN_MS: u64 = 2000;

/// Period of the difficulty ramp.
pub const DIFFICULTY_INCREASE_MS: u64 = 10000;

/// Each ramp step shortens the spawn period by this much...
pub const SPAWN_MS_DECREMENT: u64 = 200;

/// ...unless the period is already at or below this floor.
pub const MIN_TRASH_SPAWN_MS: u64 = 1000;

/// Steps of the combo meter: it fills after this many accepted keystrokes.
pub const COMBO_METER_STEPS: u32 = 10;

/// A position or a velocity, in world units.
#[derive(Clone, Copy, Debug, PartialEq, Eq, Structural)]
pub struct Vector {
    pub x: i64,
    pub y: i64,
}

/// What an entity of the arena is.
#[derive(Clone, Copy, Debug, PartialEq, Eq, Structural)]
pub enum EntityKind {
    /// A falling object, typeable while it carries its word.
    Trash,
    /// A static side boundary.
    Wall,
    /// A static bottom boundary.
    Floor,
    /// The sensor whose contact with landed trash ends the round.
    GameOverLine,
    /// The short-lived sensor of an explosion power-up.
    Explosion,
    /// The marker spawned when the round ends.
    GameOver,
}

/// One entity of the arena. Tags are flags; the word is the trash's owned
/// text, removed with it.
pub struct Entity {
    pub kind: EntityKind,
    /// False once despawned; the slot keeps its index.
    pub alive: bool,
    /// The trash's data; other kinds carry a plain bottle here, unused.
    pub trash: Trash,
    /// The word to type, while the trash still shows one.
    pub word: Option<String>,
    /// Still typeable: has not landed.
    pub active: bool,
    /// Will split off one clone on its first qualifying impact.
    pub duplicate: bool,
    /// Its word starts with the committed typing buffer.
    pub marked: bool,
    pub position: Vector,
    pub velocity: Vector,
    pub gravity_scale: u32,
}

/// The committed text that the player has typed.
pub struct TypingBuffer(pub String);

/// Points scored this round; it only grows, saturating at `u64::MAX`.
#[derive(Clone, Copy, Debug, PartialEq, Eq, Structural)]
pub struct Score(pub u64);

/// The multiplier of each completed word's points; at least one.
#[derive(Clone, Copy, Debug, PartialEq, Eq, Structural)]
pub struct ComboModifier(pub u64);

/// The combo meter, in steps of a tenth: always below `COMBO_METER_STEPS`.
#[derive(Clone, Copy, Debug, PartialEq, Eq, Structural)]
pub struct ComboMeter(pub u32);

/// The keys of one tick: whether Ctrl is held, and the keys newly pressed
/// (a held Backspace is reported every tick), in a stable order.
pub struct KeyInput {
    pub ctrl_held: bool,
    pub keys: Vec<Key>,
}

/// The state of one round.
pub struct GameSession {
    pub entities: Vec<Entity>,
    pub typing_buffer: TypingBuffer,
    pub score: Score,
    pub combo_modifier: ComboModifier,
    pub combo_meter: ComboMeter,
    pub run_state: RunState,
    pub spawn_timer: TrashSpawnTimer,
    pub difficulty_timer: DifficultyTimer,
    /// Horizontal position of the latest spawn.
    pub previous_spawn_x: i64,
}

pub open spec fn word_of(e: Entity) -> Seq<char> {
    match e.word {
        Some(w) => w@,
        None => Seq::empty(),
    }
}

pub open spec fn is_live_trash(e: Entity) -> bool {
    e.alive && e.kind == EntityKind::Trash
}

/// Takes part in matching: live, active trash that still has its word.
pub open spec fn typeable(e: Entity) -> bool {
    is_live_trash(e) && e.active && e.word is Some
}

/// The tags that an entity may carry.
pub open spec fn tags_wf(e: Entity) -> bool {
    &&& !is_live_trash(e) ==> !e.active && !e.duplicate && !e.marked && e.word is None
    &&& e.marked ==> typeable(e)
}

pub open spec fn with_mark(e: Entity, m: bool) -> Entity {
    Entity { marked: m, ..e }
}

/// The entity after a recursive despawn: gone, with its word and tags.
pub open spec fn despawned(e: Entity) -> Entity {
    Entity { alive: false, active: false, duplicate: false, marked: false, word: None, ..e }
}

/// Some typeable entity's word starts with `text`.
pub open spec fn any_match(es: Seq<Entity>, text: Seq<char>) -> bool {
    exists|i: int| 0 <= i < es.len() && typeable(es[i]) && is_prefix(text, word_of(es[i]))
}

/// The combo after an accepted keystroke: a deletion leaves it; any other
/// keystroke adds a step, and a full meter raises the modifier and empties.
pub open spec fn combo_after(modifier: u64, meter: u32, deleted: bool) -> (u64, u32) {
    if deleted {
        (modifier, meter)
    } else if meter + 1 >= COMBO_METER_STEPS {
        (if modifier < u64::MAX {
            (modifier + 1) as u64
        } else {
            modifier
        }, 0)
    } else {
        (modifier, (meter + 1) as u32)
    }
}

/// A non-empty buffer is the start of some typeable word.
pub open spec fn backed(s: &GameSession) -> bool {
    s.buffer().len() > 0 ==> any_match(s.entities@, s.buffer())
}

/// Only the entity arena and the typing buffer may differ.
pub open spec fn same_rest(a: &GameSession, b: &GameSession) -> bool {
    &&& b.score == a.score
    &&& b.combo_modifier == a.combo_modifier
    &&& b.combo_meter == a.combo_meter
    &&& b.run_state == a.run_state
    &&& b.spawn_timer == a.spawn_timer
    &&& b.difficulty_timer == a.difficulty_timer
    &&& b.previous_spawn_x == a.previous_spawn_x
}

/// How an entity may change from one step to the next: tags, once lost,
/// stay lost; activation, once set, stays set.
pub open spec fn entity_evolves(a: Entity, b: Entity) -> bool {
    &&& b.kind == a.kind
    &&& !a.alive ==> !b.alive
    &&& !a.active ==> !b.active
    &&& !a.duplicate ==> !b.duplicate
    &&& a.trash.activated ==> b.trash.activated
}

/// How a session may change under any operation of this library.
pub open spec fn evolves(a: &GameSession, b: &GameSession) -> bool {
    &&& a.entities@.len() <= b.entities@.len()
    &&& forall|i: int|
        0 <= i < a.entities@.len() ==> #[trigger] entity_evolves(a.entities@[i], b.entities@[i])
    &&& a.score.0 <= b.score.0
}

/// One pass of the matching engine over a candidate buffer: marks follow the
/// candidate; it is committed when some typeable word starts with it, else
/// the buffer stays and the combo resets (and nothing stays marked).
pub open spec fn matching_step(
    a: &GameSession,
    b: &GameSession,
    candidate: Seq<char>,
    deleted: bool,
    accepted: bool,
) -> bool {
    &&& accepted == any_match(a.entities@, candidate)
    &&& b.buffer() == if accepted {
        candidate
    } else {
        a.buffer()
    }
    &&& b.entities@.len() == a.entities@.len()
    &&& forall|i: int|
        0 <= i < a.entities@.len() ==> #[trigger] b.entities@[i] == with_mark(
            a.entities@[i],
            typeable(a.entities@[i]) && is_prefix(candidate, word_of(a.entities@[i])),
        )
    &&& accepted ==> (b.combo_modifier.0, b.combo_meter.0) == combo_after(
        a.combo_modifier.0,
        a.combo_meter.0,
        deleted,
    )
    &&& !accepted ==> b.combo_modifier.0 == 1 && b.combo_meter.0 == 0
    &&& b.score == a.score
    &&& b.run_state == a.run_state
    &&& b.spawn_timer == a.spawn_timer
    &&& b.difficulty_timer == a.difficulty_timer
    &&& b.previous_spawn_x == a.previous_spawn_x
}

/// `x`, saturated at the largest score.
pub open spec fn saturated(x: int) -> int {
    if x > u64::MAX {
        u64::MAX as int
    } else {
        x
    }
}

/// The entity completes the buffer: typeable, not yet activated, with
/// exactly the buffer as word.
pub open spec fn activates(e: Entity, buffer: Seq<char>) -> bool {
    typeable(e) && !e.trash.activated && word_of(e) == buffer
}

/// An entity after its word was typed: activated; plain trash is despawned,
/// trash with a power-up loses only its word and mark and stays in play
/// until its power-up goes off.
pub open spec fn activated_form(e: Entity) -> Entity {
    let t = Trash { activated: true, ..e.trash };
    if e.trash.power_up == PowerUp::Nothing {
        despawned(Entity { trash: t, ..e })
    } else {
        Entity { trash: t, marked: false, word: None, ..e }
    }
}

/// How many of the first `n` entities the buffer activates.
pub open spec fn activation_count(es: Seq<Entity>, buffer: Seq<char>, n: int) -> nat
    decreases n,
{
    if n <= 0 {
        0
    } else {
        activation_count(es, buffer, n - 1) + if activates(es[n - 1], buffer) {
            1nat
        } else {
            0nat
        }
    }
}

/// One activation pass: every entity that the buffer completes is activated
/// and scores the word's length times the combo modifier; the buffer is then
/// cleared if anything was activated.
pub open spec fn activation_step(a: &GameSession, b: &GameSession) -> bool {
    let n = activation_count(a.entities@, a.buffer(), a.entities@.len() as int);
    &&& b.entities@.len() == a.entities@.len()
    &&& forall|i: int|
        0 <= i < a.entities@.len() ==> #[trigger] b.entities@[i] == if activates(
            a.entities@[i],
            a.buffer(),
        ) {
            activated_form(a.entities@[i])
        } else {
            a.entities@[i]
        }
    &&& b.score.0 == saturated(a.score.0 + n * a.buffer().len() * a.combo_modifier.0)
    &&& b.buffer() == if n > 0 {
        Seq::<char>::empty()
    } else {
        a.buffer()
    }
    &&& b.combo_modifier == a.combo_modifier
    &&& b.combo_meter == a.combo_meter
    &&& b.run_state == a.run_state
    &&& b.spawn_timer == a.spawn_timer
    &&& b.difficulty_timer == a.difficulty_timer
    &&& b.previous_spawn_x == a.previous_spawn_x
}

proof fn lemma_activation_count_zero(es: Seq<Entity>, buffer: Seq<char>, n: int, j: int)
    requires
        0 <= j < n,
        activation_count(es, buffer, n) == 0,
    ensures
        !activates(es[j], buffer),
    decreases n,
{
    if j < n - 1 {
        lemma_activation_count_zero(es, buffer, n - 1, j);
    }
}

/// Some key of the tick is Backspace.
pub open spec fn has_back(keys: Seq<Key>) -> bool {
    exists|k: int| 0 <= k < keys.len() && keys[k] == Key::Back
}

/// Ctrl with Backspace: clear the whole buffer.
pub open spec fn clear_requested(input: &KeyInput) -> bool {
    input.ctrl_held && has_back(input.keys@)
}

/// One tick of typing. Ctrl with Backspace clears the buffer and every mark,
/// and nothing else happens. Otherwise the keys are applied in order to the
/// buffer; if that changed it, the matching engine runs on the result and
/// the activation pass follows.
pub open spec fn typing_step(a: &GameSession, b: &GameSession, input: &KeyInput) -> bool {
    let candidate = apply_keys(a.buffer(), input.keys@);
    if clear_requested(input) {
        &&& b.buffer().len() == 0
        &&& b.entities@.len() == a.entities@.len()
        &&& forall|i: int|
            0 <= i < a.entities@.len() ==> #[trigger] b.entities@[i] == with_mark(
                a.entities@[i],
                false,
            )
        &&& same_rest(a, b)
    } else if candidate == a.buffer() {
        &&& b.buffer() == a.buffer()
        &&& b.entities@ == a.entities@
        &&& same_rest(a, b)
    } else {
        exists|mid: GameSession, accepted: bool|
            matching_step(a, &mid, candidate, has_back(input.keys@), accepted) && mid.wf()
                && activation_step(&mid, b)
    }
}

/// Two steps that each keep the rules of `evolves` keep them together.
pub proof fn lemma_evolves_trans(a: &GameSession, b: &GameSession, c: &GameSession)
    requires
        evolves(a, b),
        evolves(b, c),
    ensures
        evolves(a, c),
{
    assert forall|i: int| 0 <= i < a.entities@.len() implies #[trigger] entity_evolves(
        a.entities@[i],
        c.entities@[i],
    ) by {
        assert(entity_evolves(a.entities@[i], b.entities@[i]));
        assert(entity_evolves(b.entities@[i], c.entities@[i]));
    }
}

impl GameSession {
    pub open spec fn buffer(&self) -> Seq<char> {
        self.typing_buffer.0@
    }

    /// Every entity carries only the tags it may, and marked words start
    /// with the buffer.
    pub open spec fn wf(&self) -> bool {
        &&& forall|i: int| 0 <= i < self.entities@.len() ==> #[trigger] tags_wf(self.entities@[i])
        &&& forall|i: int|
            0 <= i < self.entities@.len() && (#[trigger] self.entities@[i]).marked ==> is_prefix(
                self.buffer(),
                word_of(self.entities@[i]),
            )
        &&& self.combo_meter.0 < COMBO_METER_STEPS
        &&& self.combo_modifier.0 >= 1
        &&& self.spawn_timer.0.wf()
        &&& self.difficulty_timer.0.wf()
    }

    /// A new round: no entities, nothing typed, no score, combo at one.
    pub fn new() -> (r: GameSession)
        ensures
            r.wf(),
            r.entities@.len() == 0,
            r.buffer().len() == 0,
            r.score.0 == 0,
            r.combo_modifier.0 == 1,
            r.combo_meter.0 == 0,
            r.run_state == RunState::Running,
            r.spawn_timer.0 == Timer::new_spec(INITIAL_TRASH_SPAWN_MS),
            r.difficulty_timer.0 == Timer::new_spec(DIFFICULTY_INCREASE_MS),
            r.previous_spawn_x == 0,
    {
        GameSession {
            entities: Vec::new(),
            typing_buffer: TypingBuffer(String::new()),
            score: Score(0),
            combo_modifier: ComboModifier(1),
            combo_meter: ComboMeter(0),
            run_state: RunState::Running,
            spawn_timer: TrashSpawnTimer(Timer::new(INITIAL_TRASH_SPAWN_MS)),
            difficulty_timer: DifficultyTimer(Timer::new(DIFFICULTY_INCREASE_MS)),
            previous_spawn_x: 0,
        }
    }

    /// Whether some typeable entity's word starts with `text`.
    pub fn any_word_starts_with(&self, text: &String) -> (r: bool)
        ensures
            r == any_match(self.entities@, text@),
    {
        let mut i: usize = 0;
        while i < self.entities.len()
            invariant
                i <= self.entities@.len(),
                forall|j: int|
                    0 <= j < i ==> !(typeable(#[trigger] self.entities@[j]) && is_prefix(
                        text@,
                        word_of(self.entities@[j]),
                    )),
            decreases self.entities@.len() - i,
        {
            let e = &self.entities[i];
            if e.alive && e.kind == EntityKind::Trash && e.active {
                if let Some(w) = &e.word {
                    if starts_with(w, text) {
                        return true;
                    }
                }
            }
            i = i + 1;
        }
        false
    }

    /// Sets every entity's mark: typeable, with a word that starts with the
    /// committed buffer.
    fn mark_matching(&mut self, text: &String)
        ensures
            final(self).entities@.len() == old(self).entities@.len(),
            forall|i: int|
                0 <= i < old(self).entities@.len() ==> #[trigger] final(self).entities@[i]
                    == with_mark(
                    old(self).entities@[i],
                    typeable(old(self).entities@[i]) && is_prefix(
                        text@,
                        word_of(old(self).entities@[i]),
                    ),
                ),
            final(self).typing_buffer.0 == old(self).typing_buffer.0,
            same_rest(old(self), final(self)),
    {
        let mut i: usize = 0;
        while i < self.entities.len()
            invariant
                i <= self.entities@.len(),
                self.entities@.len() == old(self).entities@.len(),
                self.typing_buffer.0 == old(self).typing_buffer.0,
                same_rest(old(self), self),
                forall|j: int|
                    0 <= j < self.entities@.len() ==> #[trigger] self.entities@[j] == if j < i {
                        with_mark(
                            old(self).entities@[j],
                            typeable(old(self).entities@[j]) && is_prefix(
                                text@,
                                word_of(old(self).entities@[j]),
                            ),
                        )
                    } else {
                        old(self).entities@[j]
                    },
            decreases self.entities@.len() - i,
        {
            let mut m = false;
            {
                let e = &self.entities[i];
                if e.alive && e.kind == EntityKind::Trash && e.active {
                    if let Some(w) = &e.word {
                        m = starts_with(w, text);
                    }
                }
            }
            self.entities[i].marked = m;
            i = i + 1;
        }
    }

    /// The matching engine on a changed candidate buffer: marks exactly the
    /// typeable entities whose words start with the candidate, then commits
    /// the candidate when one does, else keeps the buffer and resets the
    /// combo. `deleted` tells whether the keystroke deleted a character.
    pub fn update_on_wrong_letter(&mut self, candidate: String, deleted: bool) -> (accepted: bool)
        requires
            old(self).wf(),
        ensures
            final(self).wf(),
            evolves(old(self), final(self)),
            matching_step(old(self), final(self), candidate@, deleted, accepted),
            backed(old(self)) ==> backed(final(self)),
    {
        let accepted = self.any_word_starts_with(&candidate);
        let ghost before = *self;
        self.mark_matching(&candidate);
        if accepted {
            self.typing_buffer = TypingBuffer(candidate);
            if self.combo_meter.0 + 1 >= COMBO_METER_STEPS {
                if !deleted {
                    if self.combo_modifier.0 < u64::MAX {
                        self.combo_modifier = ComboModifier(self.combo_modifier.0 + 1);
                    }
                    self.combo_meter = ComboMeter(0);
                }
            } else if !deleted {
                self.combo_meter = ComboMeter(self.combo_meter.0 + 1);
            }
        } else {
            self.combo_modifier = ComboModifier(1);
            self.combo_meter = ComboMeter(0);
        }
        proof {
            assert forall|i: int| 0 <= i < self.entities@.len() implies #[trigger] tags_wf(
                self.entities@[i],
            ) by {
                assert(tags_wf(before.entities@[i]));
            }
            assert forall|i: int|
                0 <= i < self.entities@.len() && (#[trigger] self.entities@[i]).marked implies is_prefix(
                self.buffer(),
                word_of(self.entities@[i]),
            ) by {
                if !accepted {
                    assert(typeable(before.entities@[i]) && is_prefix(
                        candidate@,
                        word_of(before.entities@[i]),
                    ));
                }
            }
            if self.buffer().len() > 0 && backed(old(self)) {
                if accepted {
                    let j = choose|j: int|
                        0 <= j < before.entities@.len() && typeable(before.entities@[j])
                            && is_prefix(candidate@, word_of(before.entities@[j]));
                    assert(typeable(self.entities@[j]) && word_of(self.entities@[j]) == word_of(
                        before.entities@[j],
                    ));
                } else {
                    let j = choose|j: int|
                        0 <= j < before.entities@.len() && typeable(before.entities@[j])
                            && is_prefix(before.buffer(), word_of(before.entities@[j]));
                    assert(typeable(self.entities@[j]) && word_of(self.entities@[j]) == word_of(
                        before.entities@[j],
                    ));
                }
            }
            assert forall|i: int| 0 <= i < old(self).entities@.len() implies #[trigger] entity_evolves(
                old(self).entities@[i],
                self.entities@[i],
            ) by {
                assert(self.entities@[i] == with_mark(
                    old(self).entities@[i],
                    typeable(old(self).entities@[i]) && is_prefix(
                        candidate@,
                        word_of(old(self).entities@[i]),
                    ),
                ));
            }
        }
        accepted
    }

    /// Despawns entity `i` with its word and tags.
    pub(crate) fn despawn_at(&mut self, i: usize)
        requires
            i < old(self).entities@.len(),
        ensures
            final(self).entities@ == old(self).entities@.update(
                i as int,
                despawned(old(self).entities@[i as int]),
            ),
            final(self).typing_buffer.0 == old(self).typing_buffer.0,
            same_rest(old(self), final(self)),
    {
        self.entities[i].alive = false;
        self.entities[i].active = false;
        self.entities[i].duplicate = false;
        self.entities[i].marked = false;
        self.entities[i].word = None;
        proof {
            assert(self.entities@ =~= old(self).entities@.update(
                i as int,
                despawned(old(self).entities@[i as int]),
            ));
        }
    }

    /// Activates every entity whose word is exactly the buffer and that was
    /// not activated before: it scores the word's length times the combo
    /// modifier, plain trash is despawned, trash with a power-up keeps its body
    /// until the power-up goes off. The buffer is cleared if any was activated.
    pub fn activate_matching_trash(&mut self)
        requires
            old(self).wf(),
        ensures
            final(self).wf(),
            evolves(old(self), final(self)),
            activation_step(old(self), final(self)),
    {
        let ghost a = *self;
        let ghost buf = self.buffer();
        let len = char_len(&self.typing_buffer.0);
        let modifier = self.combo_modifier.0;
        let mut any = false;
        let mut i: usize = 0;
        proof {
            assert(activation_count(a.entities@, buf, 0) == 0);
            assert(0 * len * modifier == 0) by (nonlinear_arith);
            assert(saturated(a.score.0 + 0) == a.score.0);
        }
        while i < self.entities.len()
            invariant
                i <= self.entities@.len(),
                self.entities@.len() == a.entities@.len(),
                self.typing_buffer.0 == a.typing_buffer.0,
                buf == a.buffer(),
                len == buf.len(),
                modifier == a.combo_modifier.0,
                any == (activation_count(a.entities@, buf, i as int) > 0),
                self.score.0 == saturated(
                    a.score.0 + activation_count(a.entities@, buf, i as int) * len * modifier,
                ),
                self.combo_modifier == a.combo_modifier,
                self.combo_meter == a.combo_meter,
                self.run_state == a.run_state,
                self.spawn_timer == a.spawn_timer,
                self.difficulty_timer == a.difficulty_timer,
                self.previous_spawn_x == a.previous_spawn_x,
                forall|j: int|
                    0 <= j < self.entities@.len() ==> #[trigger] self.entities@[j] == if j < i
                        && activates(a.entities@[j], buf) {
                        activated_form(a.entities@[j])
                    } else {
                        a.entities@[j]
                    },
            decreases self.entities@.len() - i,
        {
            let mut act = false;
            {
                let e = &self.entities[i];
                if e.alive && e.kind == EntityKind::Trash && e.active && !e.trash.activated {
                    if let Some(w) = &e.word {
                        act = *w == self.typing_buffer.0;
                    }
                }
            }
            let ghost c = activation_count(a.entities@, buf, i as int);
            if act {
                let p = self.entities[i].trash.power_up;
                self.entities[i].trash.activated = true;
                if p == PowerUp::Nothing {
                    self.entities[i].alive = false;
                    self.entities[i].active = false;
                    self.entities[i].duplicate = false;
                }
                self.entities[i].marked = false;
                self.entities[i].word = None;
                proof {
                    assert(len as u128 * modifier as u128 <= 0xffff_ffff_ffff_ffffu128
                        * 0xffff_ffff_ffff_ffffu128) by (nonlinear_arith)
                        requires
                            len <= 0xffff_ffff_ffff_ffffu128,
                            modifier <= 0xffff_ffff_ffff_ffffu128,
                    ;
                }
                let gain: u128 = len as u128 * modifier as u128;
                let total: u128 = self.score.0 as u128 + gain;
                if total > u64::MAX as u128 {
                    self.score = Score(u64::MAX);
                } else {
                    self.score = Score(total as u64);
                }
                any = true;
                proof {
                    assert((c + 1) * len * modifier == c * len * modifier + len * modifier)
                        by (nonlinear_arith);
                    assert(len * modifier >= 0) by (nonlinear_arith)
                        requires
                            len >= 0,
                            modifier >= 0,
                    ;
                }
            }
            proof {
                assert(self.entities@[i as int] == if activates(a.entities@[i as int], buf) {
                    activated_form(a.entities@[i as int])
                } else {
                    a.entities@[i as int]
                });
            }
            i = i + 1;
        }
        if any {
            self.typing_buffer = TypingBuffer(String::new());
        }
        proof {
            let n = activation_count(a.entities@, buf, a.entities@.len() as int);
            if n == 0 {
                assert forall|j: int| 0 <= j < a.entities@.len() implies self.entities@[j]
                    == a.entities@[j] by {
                    lemma_activation_count_zero(a.entities@, buf, a.entities@.len() as int, j);
                }
                assert(self.entities@ =~= a.entities@);
            }
            assert forall|j: int| 0 <= j < self.entities@.len() implies #[trigger] tags_wf(
                self.entities@[j],
            ) by {
                assert(tags_wf(a.entities@[j]));
            }
            assert forall|j: int| 0 <= j < a.entities@.len() implies #[trigger] entity_evolves(
                a.entities@[j],
                self.entities@[j],
            ) by {
                assert(tags_wf(a.entities@[j]));
            }
            assert(n * len * modifier >= 0) by (nonlinear_arith)
                requires
                    n >= 0,
                    len >= 0,
                    modifier >= 0,
            ;
        }
    }

    /// Removes every mark.
    fn unmark_all(&mut self)
        ensures
            final(self).entities@.len() == old(self).entities@.len(),
            forall|i: int|
                0 <= i < old(self).entities@.len() ==> #[trigger] final(self).entities@[i]
                    == with_mark(old(self).entities@[i], false),
            final(self).typing_buffer.0 == old(self).typing_buffer.0,
            same_rest(old(self), final(self)),
    {
        let mut i: usize = 0;
        while i < self.entities.len()
            invariant
                i <= self.entities@.len(),
                self.entities@.len() == old(self).entities@.len(),
                self.typing_buffer.0 == old(self).typing_buffer.0,
                same_rest(old(self), self),
                forall|j: int|
                    0 <= j < self.entities@.len() ==> #[trigger] self.entities@[j] == if j < i {
                        with_mark(old(self).entities@[j], false)
                    } else {
                        old(self).entities@[j]
                    },
            decreases self.entities@.len() - i,
        {
            self.entities[i].marked = false;
            i = i + 1;
        }
    }

    /// Ingests the keys of one tick. Ctrl with Backspace clears the buffer and
    /// every mark, and nothing else happens this tick. Otherwise the keys are
    /// applied in order to a copy of the buffer; if that changed it, the
    /// matching engine runs on it, then the activation pass.
    pub fn typing(&mut self, input: &KeyInput)
        requires
            old(self).wf(),
        ensures
            final(self).wf(),
            evolves(old(self), final(self)),
            typing_step(old(self), final(self), input),
    {
        let mut back = false;
        let mut k: usize = 0;
        while k < input.keys.len()
            invariant
                k <= input.keys@.len(),
                back == exists|j: int| 0 <= j < k && input.keys@[j] == Key::Back,
            decreases input.keys@.len() - k,
        {
            if input.keys[k] == Key::Back {
                back = true;
            }
            k = k + 1;
        }
        if input.ctrl_held && back {
            self.typing_buffer = TypingBuffer(String::new());
            self.unmark_all();
            proof {
                assert forall|i: int| 0 <= i < self.entities@.len() implies #[trigger] tags_wf(
                    self.entities@[i],
                ) by {
                    assert(tags_wf(old(self).entities@[i]));
                }
                assert forall|i: int|
                    0 <= i < old(self).entities@.len() implies #[trigger] entity_evolves(
                    old(self).entities@[i],
                    self.entities@[i],
                ) by {
                    assert(self.entities@[i] == with_mark(old(self).entities@[i], false));
                }
            }
            return;
        }
        let candidate = typed_candidate(&self.typing_buffer.0, &input.keys);
        if candidate == self.typing_buffer.0 {
            proof {
                assert forall|i: int|
                    0 <= i < old(self).entities@.len() implies #[trigger] entity_evolves(
                    old(self).entities@[i],
                    self.entities@[i],
                ) by {}
            }
            return;
        }
        let accepted = self.update_on_wrong_letter(candidate, back);
        let ghost mid = *self;
        self.activate_matching_trash();
        proof {
            assert forall|i: int|
                0 <= i < old(self).entities@.len() implies #[trigger] entity_evolves(
                old(self).entities@[i],
                self.entities@[i],
            ) by {
                assert(entity_evolves(old(self).entities@[i], mid.entities@[i]));
                assert(entity_evolves(mid.entities@[i], self.entities@[i]));
            }
            assert(back == has_back(input.keys@));
            assert(matching_step(
                old(self),
                &mid,
                apply_keys(old(self).buffer(), input.keys@),
                has_back(input.keys@),
                accepted,
            ) && mid.wf() && activation_step(&mid, self));
        }
    }
}

} // verus!
