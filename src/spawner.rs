use vstd::prelude::*;
use crate::collision::{
    SETTLED_SPEED, TRASH_STARTING_SPEED, is_debris_at, speed_squared, speed_squared_of,
};
use crate::random::random_below;
use crate::session::{
    DIFFICULTY_INCREASE_MS, Entity, EntityKind, GameSession, INITIAL_TRASH_SPAWN_MS,
    MIN_TRASH_SPAWN_MS, SPAWN_MS_DECREMENT, Vector,
    entity_evolves, evolves, same_rest, tags_wf, word_of,
};
use crate::text::is_prefix;
use crate::timer::{DifficultyTimer, Timer, TrashSpawnTimer};
use crate::trash::{
    POWER_UP_DRAWS, PowerUp, TRASH_TYPE_COUNT, Trash, TrashType, fresh_trash, power_up_at,
    power_up_from_draw, trash_type_at, trash_type_from_draw,
};
use crate::words::AvailableWords;

verus! {

/// Width of the play area.
pub const WINDOW_WIDTH: i64 = 700;

/// Height of the play area; trash spawns at this height.
pub const WINDOW_HEIGHT: i64 = 800;

/// Side of a square border tile.
pub const BORDER_TILE_SIZE: i64 = 48;

/// Leftmost spawn position: a margin of two tiles inside the border.
pub const SPAWN_MIN_X: i64 = -254;

/// Spawn positions lie below this one.
pub const SPAWN_END_X: i64 = 254;

/// Two spawns in a row lie at least this far apart horizontally.
pub const SPAWN_SPACING: i64 = 30;

/// Debris faster than half the starting speed is clamped into
/// `-MAX_DEBRIS_SPEED_X..=MAX_DEBRIS_SPEED_X` by
/// `-MAX_DEBRIS_SPEED_Y..=MAX_DEBRIS_SPEED_Y`.
pub const MAX_DEBRIS_SPEED_X: i64 = 600;

pub const MAX_DEBRIS_SPEED_Y: i64 = 40;

/// Height of the game-over line.
pub const GAME_OVER_LINE_Y: i64 = 410;

/// Number of spawn positions left of the forbidden window around `prev`.
pub open spec fn slots_below(prev: i64) -> int {
    let top = if prev - SPAWN_SPACING < SPAWN_END_X - 1 {
        prev - SPAWN_SPACING
    } else {
        SPAWN_END_X - 1
    };
    if top < SPAWN_MIN_X {
        0
    } else {
        top - SPAWN_MIN_X + 1
    }
}

/// First spawn position right of the forbidden window around `prev`.
pub open spec fn first_slot_above(prev: i64) -> int {
    if prev + SPAWN_SPACING > SPAWN_MIN_X {
        prev + SPAWN_SPACING
    } else {
        SPAWN_MIN_X as int
    }
}

/// Number of spawn positions at least `SPAWN_SPACING` away from `prev`.
pub open spec fn spawn_slot_count(prev: i64) -> int {
    slots_below(prev) + if first_slot_above(prev) < SPAWN_END_X {
        SPAWN_END_X - first_slot_above(prev)
    } else {
        0
    }
}

/// The `r`-th of those positions, from the left.
pub open spec fn spawn_x_at(prev: i64, r: int) -> int {
    if r < slots_below(prev) {
        SPAWN_MIN_X + r
    } else {
        first_slot_above(prev) + (r - slots_below(prev))
    }
}

/// Whether `x` is a spawn position far enough from `prev`.
pub open spec fn good_spawn_x(prev: i64, x: int) -> bool {
    &&& SPAWN_MIN_X <= x < SPAWN_END_X
    &&& x <= prev - SPAWN_SPACING || x >= prev + SPAWN_SPACING
}

/// The spawn position that a draw in `0..spawn_slot_count(prev)` picks: the
/// positions far enough from the previous spawn, drawn uniformly, as
/// redrawing until one is far enough would.
pub fn spawn_x_from_draw(prev: i64, r: usize) -> (x: i64)
    requires
        r < spawn_slot_count(prev),
    ensures
        x == spawn_x_at(prev, r as int),
        good_spawn_x(prev, x as int),
{
    let p = prev as i128;
    let lo = SPAWN_MIN_X as i128;
    let end = SPAWN_END_X as i128;
    let gap = SPAWN_SPACING as i128;
    let top: i128 = if p - gap < end - 1 {
        p - gap
    } else {
        end - 1
    };
    let below: i128 = if top < lo {
        0
    } else {
        top - lo + 1
    };
    let first: i128 = if p + gap > lo {
        p + gap
    } else {
        lo
    };
    if (r as i128) < below {
        (lo + r as i128) as i64
    } else {
        (first + (r as i128 - below)) as i64
    }
}

/// Number of spawn positions far enough from `prev`; never zero.
pub fn spawn_slots(prev: i64) -> (n: usize)
    ensures
        n == spawn_slot_count(prev),
        n > 0,
{
    let p = prev as i128;
    let lo = SPAWN_MIN_X as i128;
    let end = SPAWN_END_X as i128;
    let gap = SPAWN_SPACING as i128;
    let top: i128 = if p - gap < end - 1 {
        p - gap
    } else {
        end - 1
    };
    let below: i128 = if top < lo {
        0
    } else {
        top - lo + 1
    };
    let first: i128 = if p + gap > lo {
        p + gap
    } else {
        lo
    };
    let above: i128 = if first < end {
        end - first
    } else {
        0
    };
    (below + above) as usize
}

/// A spawn position drawn uniformly among those far enough from `prev`.
pub fn get_random_coordinate(prev: i64) -> (x: i64)
    ensures
        good_spawn_x(prev, x as int),
{
    let r = random_below(spawn_slots(prev));
    spawn_x_from_draw(prev, r)
}

/// A freshly spawned trash: the given kind and power-up, carrying its word,
/// typeable and able to split once, at the top of the play area, falling.
pub open spec fn new_trash_entity(e: Entity, t: TrashType, p: PowerUp, x: int, word: Seq<char>) -> bool {
    &&& e.kind == EntityKind::Trash
    &&& e.alive
    &&& e.trash == Trash { power_up: p, ..fresh_trash(t) }
    &&& e.word is Some
    &&& word_of(e) == word
    &&& e.active
    &&& e.duplicate
    &&& !e.marked
    &&& e.position == Vector { x: x as i64, y: WINDOW_HEIGHT }
    &&& e.velocity == Vector { x: 0, y: (-TRASH_STARTING_SPEED) as i64 }
    &&& e.gravity_scale == 1
}

/// The velocity clamped into `-MAX_DEBRIS_SPEED_X..=MAX_DEBRIS_SPEED_X` by
/// `-MAX_DEBRIS_SPEED_Y..=MAX_DEBRIS_SPEED_Y`.
pub open spec fn clamped(v: Vector) -> Vector {
    Vector {
        x: if v.x < -MAX_DEBRIS_SPEED_X {
            (-MAX_DEBRIS_SPEED_X) as i64
        } else if v.x > MAX_DEBRIS_SPEED_X {
            MAX_DEBRIS_SPEED_X
        } else {
            v.x
        },
        y: if v.y < -MAX_DEBRIS_SPEED_Y {
            (-MAX_DEBRIS_SPEED_Y) as i64
        } else if v.y > MAX_DEBRIS_SPEED_Y {
            MAX_DEBRIS_SPEED_Y
        } else {
            v.y
        },
    }
}

/// Debris faster than half the starting speed.
pub open spec fn too_fast(es: Seq<Entity>, i: int) -> bool {
    is_debris_at(es, i) && speed_squared(es[i].velocity) > SETTLED_SPEED * SETTLED_SPEED
}

/// One tick of the velocity clamp: fast debris is slowed, nothing else.
pub open spec fn clamp_step(a: &GameSession, b: &GameSession) -> bool {
    &&& b.entities@ == Seq::new(
        a.entities@.len(),
        |i: int|
            if too_fast(a.entities@, i) {
                Entity { velocity: clamped(a.entities@[i].velocity), ..a.entities@[i] }
            } else {
                a.entities@[i]
            },
    )
    &&& b.typing_buffer.0 == a.typing_buffer.0
    &&& same_rest(a, b)
}

/// One tick of the spawner: the spawn timer advances; when it elapses, one
/// trash of some kind spawns at a position far enough from the previous one,
/// with no power-up or an explosion, carrying a word of the bank.
pub open spec fn spawn_step(a: &GameSession, b: &GameSession, words: &AvailableWords, delta_ms: u64) -> bool {
    &&& b.spawn_timer.0 == a.spawn_timer.0.ticked(delta_ms)
    &&& if a.spawn_timer.0.finishes(delta_ms) {
        &&& b.entities@.len() == a.entities@.len() + 1
        &&& b.entities@.drop_last() == a.entities@
        &&& good_spawn_x(a.previous_spawn_x, b.previous_spawn_x as int)
        &&& words.holds(word_of(b.entities@.last()))
        &&& exists|t: TrashType, p: PowerUp|
            (p == PowerUp::Nothing || p == PowerUp::Explosion) && new_trash_entity(
                b.entities@.last(),
                t,
                p,
                b.previous_spawn_x as int,
                word_of(b.entities@.last()),
            )
    } else {
        &&& b.entities@ == a.entities@
        &&& b.previous_spawn_x == a.previous_spawn_x
    }
    &&& b.typing_buffer.0 == a.typing_buffer.0
    &&& b.score == a.score
    &&& b.combo_modifier == a.combo_modifier
    &&& b.combo_meter == a.combo_meter
    &&& b.run_state == a.run_state
    &&& b.difficulty_timer == a.difficulty_timer
}

/// One tick of the difficulty ramp: its timer advances; when it elapses the
/// spawn period shortens by `SPAWN_MS_DECREMENT`, never below
/// `MIN_TRASH_SPAWN_MS`, and not at all once it is at or below that floor.
pub open spec fn difficulty_step(a: &GameSession, b: &GameSession, delta_ms: u64) -> bool {
    &&& b.difficulty_timer.0 == a.difficulty_timer.0.ticked(delta_ms)
    &&& b.spawn_timer.0.elapsed_ms == a.spawn_timer.0.elapsed_ms
    &&& b.spawn_timer.0.duration_ms == if a.difficulty_timer.0.finishes(delta_ms)
        && a.spawn_timer.0.duration_ms > MIN_TRASH_SPAWN_MS {
        if a.spawn_timer.0.duration_ms - SPAWN_MS_DECREMENT < MIN_TRASH_SPAWN_MS {
            MIN_TRASH_SPAWN_MS
        } else {
            (a.spawn_timer.0.duration_ms - SPAWN_MS_DECREMENT) as u64
        }
    } else {
        a.spawn_timer.0.duration_ms
    }
    &&& b.entities@ == a.entities@
    &&& b.typing_buffer.0 == a.typing_buffer.0
    &&& b.score == a.score
    &&& b.combo_modifier == a.combo_modifier
    &&& b.combo_meter == a.combo_meter
    &&& b.run_state == a.run_state
    &&& b.previous_spawn_x == a.previous_spawn_x
}

/// A static entity of the given kind at `(x, y)`.
pub open spec fn static_entity(k: EntityKind, x: i64, y: i64) -> Entity {
    Entity {
        kind: k,
        alive: true,
        trash: fresh_trash(TrashType::Bottle),
        word: None,
        active: false,
        duplicate: false,
        marked: false,
        position: Vector { x, y },
        velocity: Vector { x: 0, y: 0 },
        gravity_scale: 1,
    }
}

/// Pairs of floor tiles, mirrored about the middle.
pub const FLOOR_TILE_PAIRS: usize = 8;

/// Pairs of wall tiles, one on each side.
pub const WALL_TILE_PAIRS: usize = 87;

/// Height of the centre of the floor tiles and of the lowest wall tiles.
pub const BORDER_BASE_Y: i64 = 16;

/// Horizontal position of the right wall; the left one is its mirror.
pub const WALL_X: i64 = 334;

/// The floor: pairs of tiles at `x` and `-x`, one tile apart.
pub open spec fn floor_tiles() -> Seq<Entity> {
    Seq::new(
        (2 * FLOOR_TILE_PAIRS) as nat,
        |i: int|
            static_entity(
                EntityKind::Floor,
                if i % 2 == 0 {
                    (BORDER_TILE_SIZE * (i / 2)) as i64
                } else {
                    (-BORDER_TILE_SIZE * (i / 2)) as i64
                },
                BORDER_BASE_Y,
            ),
    )
}

/// The walls: pairs of tiles left and right, one tile apart upwards.
pub open spec fn wall_tiles() -> Seq<Entity> {
    Seq::new(
        (2 * WALL_TILE_PAIRS) as nat,
        |i: int|
            static_entity(
                EntityKind::Wall,
                if i % 2 == 0 {
                    (-WALL_X) as i64
                } else {
                    WALL_X
                },
                (BORDER_BASE_Y + BORDER_TILE_SIZE * (i / 2)) as i64,
            ),
    )
}

pub(crate) fn make_static(k: EntityKind, x: i64, y: i64) -> (e: Entity)
    ensures
        e == static_entity(k, x, y),
{
    Entity {
        kind: k,
        alive: true,
        trash: Trash::bottle(),
        word: None,
        active: false,
        duplicate: false,
        marked: false,
        position: Vector { x, y },
        velocity: Vector { x: 0, y: 0 },
        gravity_scale: 1,
    }
}

impl GameSession {
    /// Spawns a trash from draws already made: a position draw in
    /// `0..spawn_slot_count`, a kind draw in `0..TRASH_TYPE_COUNT`, a
    /// power-up draw in `0..POWER_UP_DRAWS`, and its word.
    pub fn spawn_trash_with(
        &mut self,
        x_draw: usize,
        type_draw: usize,
        power_draw: usize,
        word: String,
    )
        requires
            old(self).wf(),
            x_draw < spawn_slot_count(old(self).previous_spawn_x),
            type_draw < TRASH_TYPE_COUNT,
            power_draw < POWER_UP_DRAWS,
        ensures
            final(self).wf(),
            evolves(old(self), final(self)),
            final(self).entities@.len() == old(self).entities@.len() + 1,
            final(self).entities@.drop_last() == old(self).entities@,
            new_trash_entity(
                final(self).entities@.last(),
                trash_type_at(type_draw as int),
                power_up_at(power_draw as int),
                spawn_x_at(old(self).previous_spawn_x, x_draw as int),
                word@,
            ),
            final(self).previous_spawn_x == spawn_x_at(old(self).previous_spawn_x, x_draw as int),
            final(self).typing_buffer.0 == old(self).typing_buffer.0,
            final(self).score == old(self).score,
            final(self).combo_modifier == old(self).combo_modifier,
            final(self).combo_meter == old(self).combo_meter,
            final(self).run_state == old(self).run_state,
            final(self).spawn_timer == old(self).spawn_timer,
            final(self).difficulty_timer == old(self).difficulty_timer,
    {
        let x = spawn_x_from_draw(self.previous_spawn_x, x_draw);
        self.previous_spawn_x = x;
        let t = trash_type_from_draw(type_draw);
        let p = power_up_from_draw(power_draw);
        let mut trash = Trash::get_by_type(t);
        if p != PowerUp::Nothing {
            trash.power_up = p;
        }
        let ghost es = self.entities@;
        self.entities.push(
            Entity {
                kind: EntityKind::Trash,
                alive: true,
                trash,
                word: Some(word),
                active: true,
                duplicate: true,
                marked: false,
                position: Vector { x, y: WINDOW_HEIGHT },
                velocity: Vector { x: 0, y: -TRASH_STARTING_SPEED },
                gravity_scale: 1,
            },
        );
        proof {
            assert(self.entities@.drop_last() =~= es);
            assert forall|i: int| 0 <= i < self.entities@.len() implies #[trigger] tags_wf(
                self.entities@[i],
            ) by {
                if i < es.len() {
                    assert(tags_wf(es[i]));
                }
            }
            assert forall|i: int| 0 <= i < es.len() implies #[trigger] entity_evolves(
                es[i],
                self.entities@[i],
            ) by {}
        }
    }

    /// Advances the spawn timer; each time it elapses, one trash spawns with a
    /// random kind, a power-up (an explosion one time in ten), a random word
    /// of the bank and a position far enough from the previous one.
    pub fn spawn_trash(&mut self, words: &AvailableWords, delta_ms: u64) -> (spawned: bool)
        requires
            old(self).wf(),
            words.wf(),
        ensures
            final(self).wf(),
            evolves(old(self), final(self)),
            spawned == old(self).spawn_timer.0.finishes(delta_ms),
            spawn_step(old(self), final(self), words, delta_ms),
    {
        let finished = self.spawn_timer.0.tick(delta_ms);
        if !finished {
            proof {
                assert forall|i: int|
                    0 <= i < old(self).entities@.len() implies #[trigger] entity_evolves(
                    old(self).entities@[i],
                    self.entities@[i],
                ) by {}
            }
            return false;
        }
        let ghost mid = *self;
        let x_draw = random_below(spawn_slots(self.previous_spawn_x));
        let type_draw = random_below(TRASH_TYPE_COUNT);
        let power_draw = random_below(POWER_UP_DRAWS);
        let word = words.get_random_word();
        let ghost w = word@;
        self.spawn_trash_with(x_draw, type_draw, power_draw, word);
        proof {
            assert forall|i: int|
                0 <= i < old(self).entities@.len() implies #[trigger] entity_evolves(
                old(self).entities@[i],
                self.entities@[i],
            ) by {}
            assert(new_trash_entity(
                self.entities@.last(),
                trash_type_at(type_draw as int),
                power_up_at(power_draw as int),
                self.previous_spawn_x as int,
                word_of(self.entities@.last()),
            ));
        }
        true
    }

    /// Advances the difficulty timer; each time it elapses the spawn period
    /// shortens by `SPAWN_MS_DECREMENT`, floored at `MIN_TRASH_SPAWN_MS`.
    pub fn update_difficulty(&mut self, delta_ms: u64)
        requires
            old(self).wf(),
        ensures
            final(self).wf(),
            evolves(old(self), final(self)),
            difficulty_step(old(self), final(self), delta_ms),
    {
        let finished = self.difficulty_timer.0.tick(delta_ms);
        if finished && self.spawn_timer.0.duration_ms > MIN_TRASH_SPAWN_MS {
            let d = self.spawn_timer.0.duration_ms - SPAWN_MS_DECREMENT;
            if d < MIN_TRASH_SPAWN_MS {
                self.spawn_timer.0.set_duration(MIN_TRASH_SPAWN_MS);
            } else {
                self.spawn_timer.0.set_duration(d);
            }
        }
        proof {
            assert forall|i: int|
                0 <= i < old(self).entities@.len() implies #[trigger] entity_evolves(
                old(self).entities@[i],
                self.entities@[i],
            ) by {}
        }
    }

    /// Slows debris that moves faster than half the starting speed, clamping
    /// each component of its velocity to `MAX_DEBRIS_SPEED_X` and
    /// `MAX_DEBRIS_SPEED_Y` in size.
    pub fn clamp_duplicated_trash(&mut self)
        requires
            old(self).wf(),
        ensures
            final(self).wf(),
            evolves(old(self), final(self)),
            clamp_step(old(self), final(self)),
    {
        let ghost es = self.entities@;
        let mut i: usize = 0;
        while i < self.entities.len()
            invariant
                i <= self.entities@.len(),
                self.entities@.len() == es.len(),
                es == old(self).entities@,
                self.typing_buffer.0 == old(self).typing_buffer.0,
                same_rest(old(self), self),
                forall|j: int|
                    0 <= j < es.len() ==> #[trigger] self.entities@[j] == if j < i && too_fast(
                        es,
                        j,
                    ) {
                        Entity { velocity: clamped(es[j].velocity), ..es[j] }
                    } else {
                        es[j]
                    },
            decreases es.len() - i,
        {
            if self.is_debris(i) && speed_squared_of(self.entities[i].velocity) > (
            SETTLED_SPEED * SETTLED_SPEED) as u128 {
                let v = self.entities[i].velocity;
                let x = if v.x < -MAX_DEBRIS_SPEED_X {
                    -MAX_DEBRIS_SPEED_X
                } else if v.x > MAX_DEBRIS_SPEED_X {
                    MAX_DEBRIS_SPEED_X
                } else {
                    v.x
                };
                let y = if v.y < -MAX_DEBRIS_SPEED_Y {
                    -MAX_DEBRIS_SPEED_Y
                } else if v.y > MAX_DEBRIS_SPEED_Y {
                    MAX_DEBRIS_SPEED_Y
                } else {
                    v.y
                };
                self.entities[i].velocity = Vector { x, y };
            }
            i = i + 1;
        }
        proof {
            assert(self.entities@ =~= Seq::new(
                es.len(),
                |i: int|
                    if too_fast(es, i) {
                        Entity { velocity: clamped(es[i].velocity), ..es[i] }
                    } else {
                        es[i]
                    },
            ));
            assert forall|j: int| 0 <= j < es.len() implies #[trigger] tags_wf(
                self.entities@[j],
            ) by {
                assert(tags_wf(es[j]));
            }
            assert forall|j: int|
                0 <= j < es.len() && (#[trigger] self.entities@[j]).marked implies is_prefix(
                self.buffer(),
                word_of(self.entities@[j]),
            ) by {}
            assert forall|j: int| 0 <= j < es.len() implies #[trigger] entity_evolves(
                es[j],
                self.entities@[j],
            ) by {}
        }
    }

    /// The host's physics step moved entity `id` to `position` at `velocity`.
    pub fn set_motion(&mut self, id: usize, position: Vector, velocity: Vector)
        requires
            old(self).wf(),
            id < old(self).entities@.len(),
        ensures
            final(self).wf(),
            evolves(old(self), final(self)),
            final(self).entities@ == old(self).entities@.update(
                id as int,
                Entity { position, velocity, ..old(self).entities@[id as int] },
            ),
            final(self).typing_buffer.0 == old(self).typing_buffer.0,
            same_rest(old(self), final(self)),
    {
        let ghost es = self.entities@;
        self.entities[id].position = position;
        self.entities[id].velocity = velocity;
        proof {
            assert(self.entities@ =~= es.update(
                id as int,
                Entity { position, velocity, ..es[id as int] },
            ));
            assert forall|j: int| 0 <= j < es.len() implies #[trigger] tags_wf(
                self.entities@[j],
            ) by {
                assert(tags_wf(es[j]));
            }
            assert forall|j: int|
                0 <= j < es.len() && (#[trigger] self.entities@[j]).marked implies is_prefix(
                self.buffer(),
                word_of(self.entities@[j]),
            ) by {}
            assert forall|j: int| 0 <= j < es.len() implies #[trigger] entity_evolves(
                es[j],
                self.entities@[j],
            ) by {}
        }
    }

    /// Starts a round's play: lays out the floor tiles, the wall tiles, then
    /// the game-over line, and restarts both timers at their initial periods.
    pub fn setup(&mut self)
        requires
            old(self).wf(),
        ensures
            final(self).wf(),
            evolves(old(self), final(self)),
            final(self).entities@ == old(self).entities@ + floor_tiles() + wall_tiles() + seq![
                static_entity(EntityKind::GameOverLine, 0, GAME_OVER_LINE_Y),
            ],
            final(self).typing_buffer.0 == old(self).typing_buffer.0,
            final(self).spawn_timer.0 == Timer::new_spec(INITIAL_TRASH_SPAWN_MS),
            final(self).difficulty_timer.0 == Timer::new_spec(DIFFICULTY_INCREASE_MS),
            final(self).score == old(self).score,
            final(self).combo_modifier == old(self).combo_modifier,
            final(self).combo_meter == old(self).combo_meter,
            final(self).run_state == old(self).run_state,
            final(self).previous_spawn_x == old(self).previous_spawn_x,
    {
        let ghost es = self.entities@;
        self.create_borders();
        let ghost es1 = self.entities@;
        self.entities.push(make_static(EntityKind::GameOverLine, 0, GAME_OVER_LINE_Y));
        proof {
            assert(self.entities@ =~= es1.push(
                static_entity(EntityKind::GameOverLine, 0, GAME_OVER_LINE_Y),
            ));
            self.lemma_static_append(old(self), es);
        }
        self.spawn_timer = TrashSpawnTimer(Timer::new(INITIAL_TRASH_SPAWN_MS));
        self.difficulty_timer = DifficultyTimer(Timer::new(DIFFICULTY_INCREASE_MS));
    }

    /// Adds the floor and wall tiles.
    pub fn create_borders(&mut self)
        requires
            old(self).wf(),
        ensures
            final(self).wf(),
            evolves(old(self), final(self)),
            final(self).entities@ == old(self).entities@ + floor_tiles() + wall_tiles(),
            final(self).typing_buffer.0 == old(self).typing_buffer.0,
            same_rest(old(self), final(self)),
    {
        let ghost es = self.entities@;
        let mut t: usize = 0;
        while t < FLOOR_TILE_PAIRS
            invariant
                t <= FLOOR_TILE_PAIRS,
                es == old(self).entities@,
                self.entities@ == es + floor_tiles().subrange(0, 2 * t as int),
                self.typing_buffer.0 == old(self).typing_buffer.0,
                same_rest(old(self), self),
            decreases FLOOR_TILE_PAIRS - t,
        {
            let x = BORDER_TILE_SIZE * t as i64;
            self.entities.push(make_static(EntityKind::Floor, x, BORDER_BASE_Y));
            self.entities.push(make_static(EntityKind::Floor, -x, BORDER_BASE_Y));
            proof {
                assert(self.entities@ =~= es + floor_tiles().subrange(0, 2 * (t + 1)));
            }
            t = t + 1;
        }
        let ghost es1 = self.entities@;
        proof {
            assert(floor_tiles().subrange(0, 2 * FLOOR_TILE_PAIRS as int) =~= floor_tiles());
        }
        let mut t: usize = 0;
        while t < WALL_TILE_PAIRS
            invariant
                t <= WALL_TILE_PAIRS,
                es1 == es + floor_tiles(),
                self.entities@ == es1 + wall_tiles().subrange(0, 2 * t as int),
                self.typing_buffer.0 == old(self).typing_buffer.0,
                same_rest(old(self), self),
            decreases WALL_TILE_PAIRS - t,
        {
            let y = BORDER_BASE_Y + BORDER_TILE_SIZE * t as i64;
            self.entities.push(make_static(EntityKind::Wall, -WALL_X, y));
            self.entities.push(make_static(EntityKind::Wall, WALL_X, y));
            proof {
                assert(self.entities@ =~= es1 + wall_tiles().subrange(0, 2 * (t + 1)));
            }
            t = t + 1;
        }
        proof {
            assert(wall_tiles().subrange(0, 2 * WALL_TILE_PAIRS as int) =~= wall_tiles());
            self.lemma_static_append(old(self), es);
        }
    }

    /// Appending static entities keeps the session well formed.
    pub(crate) proof fn lemma_static_append(&self, a: &GameSession, es: Seq<Entity>)
        requires
            a.wf(),
            es == a.entities@,
            es.len() <= self.entities@.len(),
            forall|i: int| 0 <= i < es.len() ==> self.entities@[i] == es[i],
            forall|i: int|
                es.len() <= i < self.entities@.len() ==> (#[trigger] self.entities@[i]).kind
                    != EntityKind::Trash && !self.entities@[i].active
                    && !self.entities@[i].duplicate && !self.entities@[i].marked
                    && self.entities@[i].word is None,
            self.typing_buffer.0 == a.typing_buffer.0,
            same_rest(a, self),
        ensures
            self.wf(),
            evolves(a, self),
    {
        assert forall|j: int| 0 <= j < self.entities@.len() implies #[trigger] tags_wf(
            self.entities@[j],
        ) by {
            if j < es.len() {
                assert(tags_wf(es[j]));
            }
        }
        assert forall|j: int|
            0 <= j < self.entities@.len() && (#[trigger] self.entities@[j]).marked implies is_prefix(
            self.buffer(),
            word_of(self.entities@[j]),
        ) by {
            if j < es.len() {
                assert(self.entities@[j] == a.entities@[j]);
            }
        }
        assert forall|j: int| 0 <= j < es.len() implies #[trigger] entity_evolves(
            es[j],
            self.entities@[j],
        ) by {}
    }
}

} // verus!
