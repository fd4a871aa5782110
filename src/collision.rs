use vstd::prelude::*;
use crate::session::{
    Entity, EntityKind, GameSession, Vector, despawned, entity_evolves, evolves, lemma_evolves_trans,
    same_rest,
    tags_wf, word_of,
};
use crate::text::is_prefix;
use crate::spawner::{make_static, static_entity};
use crate::trash::{PowerUp, PowerUpEvent, RunState, Trash, TrashType, fresh_trash};

verus! {

/// Speed at which trash is spawned, falling.
pub const TRASH_STARTING_SPEED: i64 = 100;

/// Debris slower than this has settled: half the starting speed.
pub const SETTLED_SPEED: i64 = 50;

/// Half extent of an explosion's blast sensor; the host sizes the sensor's
/// collider with it.
pub const EXPLOSION_HALF_EXTENT: u32 = 50;

/// A split-off clone appears this far above its origin...
pub const DUPLICATE_OFFSET_Y: i64 = 10;

/// ...and falls under this much stronger gravity.
pub const DUPLICATE_GRAVITY_SCALE: u32 = 40;

/// A collision reported by the physics step, between two entity indices.
#[derive(Clone, Copy, Debug, PartialEq, Eq, Structural)]
pub enum CollisionEvent {
    Started(usize, usize),
    Stopped(usize, usize),
}

pub open spec fn live_kind(es: Seq<Entity>, id: int, k: EntityKind) -> bool {
    0 <= id < es.len() && es[id].alive && es[id].kind == k
}

pub open spec fn is_trash_at(es: Seq<Entity>, id: int) -> bool {
    live_kind(es, id, EntityKind::Trash)
}

pub open spec fn is_active_at(es: Seq<Entity>, id: int) -> bool {
    is_trash_at(es, id) && es[id].active
}

/// Landed trash: live, no longer active.
pub open spec fn is_debris_at(es: Seq<Entity>, id: int) -> bool {
    is_trash_at(es, id) && !es[id].active
}

pub open spec fn speed_squared(v: Vector) -> int {
    v.x * v.x + v.y * v.y
}

/// Slower than `SETTLED_SPEED`.
pub open spec fn is_settled(v: Vector) -> bool {
    speed_squared(v) < SETTLED_SPEED * SETTLED_SPEED
}

/// Landed trash touches the game-over line.
pub open spec fn game_over_pair(es: Seq<Entity>, a: int, b: int) -> bool {
    &&& live_kind(es, a, EntityKind::GameOverLine) || live_kind(es, b, EntityKind::GameOverLine)
    &&& is_debris_at(es, a) || is_debris_at(es, b)
}

/// The power-up of an activated, still active trash goes off: an explosion
/// destroys it through a blast, a link asks for its linked trash.
pub open spec fn power_up_event(es: Seq<Entity>, e: int) -> PowerUpEvent {
    if is_active_at(es, e) && es[e].trash.activated {
        match es[e].trash.power_up {
            PowerUp::Explosion => PowerUpEvent::EntityDestroyed,
            PowerUp::Link => PowerUpEvent::DestroyLinked,
            PowerUp::Nothing => PowerUpEvent::Nothing,
        }
    } else {
        PowerUpEvent::Nothing
    }
}

/// On a contact, the power-up goes off unless one side is the game-over
/// line.
pub open spec fn hit_power_up_event(es: Seq<Entity>, e: int, o: int) -> PowerUpEvent {
    if !live_kind(es, e, EntityKind::GameOverLine) && !live_kind(es, o, EntityKind::GameOverLine) {
        power_up_event(es, e)
    } else {
        PowerUpEvent::Nothing
    }
}

/// The marker that records the end of the round.
pub open spec fn game_over_marker() -> Entity {
    Entity {
        kind: EntityKind::GameOver,
        alive: true,
        trash: fresh_trash(TrashType::Bottle),
        word: None,
        active: false,
        duplicate: false,
        marked: false,
        position: Vector { x: 0, y: 0 },
        velocity: Vector { x: 0, y: 0 },
        gravity_scale: 1,
    }
}

/// Trash caught in a blast.
pub open spec fn blast_hits(es: Seq<Entity>, e: int, o: int) -> bool {
    live_kind(es, o, EntityKind::Explosion) && is_trash_at(es, e)
}

/// Active trash has landed: on the floor, or on settled debris; never
/// against a wall.
pub open spec fn lands(es: Seq<Entity>, e: int, o: int) -> bool {
    &&& !live_kind(es, e, EntityKind::Wall) && !live_kind(es, o, EntityKind::Wall)
    &&& is_active_at(es, e)
    &&& live_kind(es, o, EntityKind::Floor) || (is_debris_at(es, o) && is_settled(es[o].velocity))
}

/// Trash that may still split does so on touching any live entity but a
/// boundary or the game-over line.
pub open spec fn splits(es: Seq<Entity>, e: int, o: int) -> bool {
    &&& is_trash_at(es, e) && es[e].duplicate
    &&& 0 <= o < es.len() && es[o].alive
    &&& !live_kind(es, o, EntityKind::Floor)
    &&& !live_kind(es, o, EntityKind::Wall)
    &&& !live_kind(es, o, EntityKind::GameOverLine)
}

/// A blast sensor at the given position.
pub open spec fn explosion_at(p: Vector) -> Entity {
    Entity {
        kind: EntityKind::Explosion,
        alive: true,
        trash: fresh_trash(TrashType::Bottle),
        word: None,
        active: false,
        duplicate: false,
        marked: false,
        position: p,
        velocity: Vector { x: 0, y: 0 },
        gravity_scale: 1,
    }
}

pub open spec fn raised(y: i64) -> i64 {
    if y <= i64::MAX - DUPLICATE_OFFSET_Y {
        (y + DUPLICATE_OFFSET_Y) as i64
    } else {
        i64::MAX
    }
}

/// The clone that trash splits into: same kind and size, no power-up, not
/// activated, untypeable, slightly higher, at rest, under strong gravity.
pub open spec fn clone_of(e: Entity) -> Entity {
    Entity {
        kind: EntityKind::Trash,
        alive: true,
        trash: Trash { power_up: PowerUp::Nothing, activated: false, ..e.trash },
        word: None,
        active: false,
        duplicate: false,
        marked: false,
        position: Vector { x: e.position.x, y: raised(e.position.y) },
        velocity: Vector { x: 0, y: 0 },
        gravity_scale: DUPLICATE_GRAVITY_SCALE,
    }
}

/// Landed trash keeps its body but loses its word and its typeable tags.
pub open spec fn text_removed(e: Entity) -> Entity {
    Entity { active: false, marked: false, word: None, ..e }
}

/// What becomes of `e` when it touches `o`.
pub open spec fn hit_entity(es: Seq<Entity>, e: int, o: int) -> Entity {
    if blast_hits(es, e, o) {
        despawned(es[e])
    } else {
        let x = if splits(es, e, o) {
            Entity { duplicate: false, ..es[e] }
        } else {
            es[e]
        };
        if lands(es, e, o) && hit_power_up_event(es, e, o) != PowerUpEvent::EntityDestroyed {
            text_removed(x)
        } else {
            x
        }
    }
}

/// The entities that `e` touching `o` spawns, in order: a blast, a clone.
pub open spec fn spawned_by_hit(es: Seq<Entity>, e: int, o: int) -> Seq<Entity> {
    (if hit_power_up_event(es, e, o) == PowerUpEvent::EntityDestroyed {
        seq![explosion_at(es[e].position)]
    } else {
        Seq::empty()
    }) + (if !blast_hits(es, e, o) && splits(es, e, o) {
        seq![clone_of(es[e])]
    } else {
        Seq::empty()
    })
}

/// The arena after `e` touched `o`.
pub open spec fn entities_after_hit(es: Seq<Entity>, e: int, o: int) -> Seq<Entity> {
    (if 0 <= e < es.len() {
        es.update(e, hit_entity(es, e, o))
    } else {
        es
    }) + spawned_by_hit(es, e, o)
}

/// The typing buffer goes when the marked trash is blasted or lands.
pub open spec fn hit_clears_buffer(es: Seq<Entity>, e: int, o: int) -> bool {
    0 <= e < es.len() && es[e].marked && (blast_hits(es, e, o) || lands(es, e, o))
}

pub open spec fn buffer_after_hit(es: Seq<Entity>, buf: Seq<char>, e: int, o: int) -> Seq<char> {
    if hit_clears_buffer(es, e, o) {
        Seq::empty()
    } else {
        buf
    }
}

/// The squared speed of `v`.
pub fn speed_squared_of(v: Vector) -> (r: u128)
    ensures
        r == speed_squared(v),
{
    let ax: u128 = if v.x < 0 {
        (0i128 - v.x as i128) as u128
    } else {
        v.x as u128
    };
    let ay: u128 = if v.y < 0 {
        (0i128 - v.y as i128) as u128
    } else {
        v.y as u128
    };
    proof {
        assert(ax * ax <= 0x8000_0000_0000_0000u128 * 0x8000_0000_0000_0000u128)
            by (nonlinear_arith)
            requires
                ax <= 0x8000_0000_0000_0000u128,
        ;
        assert(ay * ay <= 0x8000_0000_0000_0000u128 * 0x8000_0000_0000_0000u128)
            by (nonlinear_arith)
            requires
                ay <= 0x8000_0000_0000_0000u128,
        ;
        assert(ax * ax == v.x * v.x) by (nonlinear_arith)
            requires
                ax == v.x || ax == -v.x,
        ;
        assert(ay * ay == v.y * v.y) by (nonlinear_arith)
            requires
                ay == v.y || ay == -v.y,
        ;
    }
    ax * ax + ay * ay
}

/// Whether the speed is below `SETTLED_SPEED`.
pub fn is_settled_velocity(v: Vector) -> (r: bool)
    ensures
        r == is_settled(v),
{
    speed_squared_of(v) < (SETTLED_SPEED * SETTLED_SPEED) as u128
}

/// The arena, the buffer and whether the round ended, after the events in
/// order: a start of contact between landed trash and the game-over line
/// ends the round, spawning its marker, and nothing after it is looked at; any other start of
/// contact is handled for both sides in turn; an end of contact does nothing.
pub open spec fn resolve_events(es: Seq<Entity>, buf: Seq<char>, evs: Seq<CollisionEvent>) -> (
    Seq<Entity>,
    Seq<char>,
    bool,
)
    decreases evs.len(),
{
    if evs.len() == 0 {
        (es, buf, false)
    } else {
        match evs[0] {
            CollisionEvent::Started(a, b) => {
                if game_over_pair(es, a as int, b as int) {
                    (es.push(game_over_marker()), buf, true)
                } else {
                    let es1 = entities_after_hit(es, a as int, b as int);
                    let buf1 = buffer_after_hit(es, buf, a as int, b as int);
                    let es2 = entities_after_hit(es1, b as int, a as int);
                    let buf2 = buffer_after_hit(es1, buf1, b as int, a as int);
                    resolve_events(es2, buf2, evs.drop_first())
                }
            },
            CollisionEvent::Stopped(_, _) => resolve_events(es, buf, evs.drop_first()),
        }
    }
}

/// Blast sensors among the first `n` entities are gone: they lived through
/// one physics step.
pub open spec fn expire_explosions(es: Seq<Entity>, n: int) -> Seq<Entity> {
    Seq::new(
        es.len(),
        |i: int|
            if i < n && live_kind(es, i, EntityKind::Explosion) {
                despawned(es[i])
            } else {
                es[i]
            },
    )
}

/// The blast sensors among the first `n` entities go; nothing else changes.
pub open spec fn expire_step(a: &GameSession, b: &GameSession, n: int) -> bool {
    &&& b.entities@ == expire_explosions(a.entities@, n)
    &&& b.typing_buffer.0 == a.typing_buffer.0
    &&& same_rest(a, b)
}

/// One tick of collision resolution: nothing once the round has ended;
/// otherwise the events are resolved in order.
pub open spec fn collision_step(a: &GameSession, b: &GameSession, events: Seq<CollisionEvent>) -> bool {
    if a.run_state == RunState::Ended {
        &&& b.entities@ == a.entities@
        &&& b.buffer() == a.buffer()
        &&& same_rest(a, b)
    } else {
        let r = resolve_events(a.entities@, a.buffer(), events);
        &&& b.entities@ == r.0
        &&& b.buffer() == r.1
        &&& b.run_state == if r.2 {
            RunState::Ended
        } else {
            RunState::Running
        }
        &&& b.score == a.score
        &&& b.combo_modifier == a.combo_modifier
        &&& b.combo_meter == a.combo_meter
        &&& b.spawn_timer == a.spawn_timer
        &&& b.difficulty_timer == a.difficulty_timer
        &&& b.previous_spawn_x == a.previous_spawn_x
    }
}

impl GameSession {
    /// Whether entity `id` is live and of kind `k`.
    pub fn has_kind(&self, id: usize, k: EntityKind) -> (r: bool)
        ensures
            r == live_kind(self.entities@, id as int, k),
    {
        id < self.entities.len() && self.entities[id].alive && self.entities[id].kind == k
    }

    /// Whether entity `id` is live, active trash.
    pub fn is_active_trash(&self, id: usize) -> (r: bool)
        ensures
            r == is_active_at(self.entities@, id as int),
    {
        self.has_kind(id, EntityKind::Trash) && self.entities[id].active
    }

    /// Whether entity `id` is live trash that has landed.
    pub fn is_debris(&self, id: usize) -> (r: bool)
        ensures
            r == is_debris_at(self.entities@, id as int),
    {
        self.has_kind(id, EntityKind::Trash) && !self.entities[id].active
    }

    /// Whether landed trash and the game-over line are the two sides.
    pub fn is_game_over(&self, entity: usize, other: usize) -> (r: bool)
        ensures
            r == game_over_pair(self.entities@, entity as int, other as int),
    {
        (self.has_kind(entity, EntityKind::GameOverLine) || self.has_kind(
            other,
            EntityKind::GameOverLine,
        )) && (self.is_debris(entity) || self.is_debris(other))
    }

    /// Whether `entity` has landed on `other`.
    pub fn should_delete_text(&self, entity: usize, other: usize) -> (r: bool)
        ensures
            r == lands(self.entities@, entity as int, other as int),
    {
        if self.has_kind(entity, EntityKind::Wall) || self.has_kind(other, EntityKind::Wall) {
            return false;
        }
        if self.is_active_trash(entity) {
            if self.has_kind(other, EntityKind::Floor) {
                return true;
            }
            if self.is_debris(other) && is_settled_velocity(self.entities[other].velocity) {
                return true;
            }
        }
        false
    }

    /// Whether `entity` splits on touching `other`.
    pub fn should_duplicate_trash(&self, entity: usize, other: usize) -> (r: bool)
        ensures
            r == splits(self.entities@, entity as int, other as int),
    {
        self.has_kind(entity, EntityKind::Trash) && self.entities[entity].duplicate && other
            < self.entities.len() && self.entities[other].alive
            && !self.has_kind(other, EntityKind::Floor) && !self.has_kind(other, EntityKind::Wall)
            && !self.has_kind(other, EntityKind::GameOverLine)
    }

    /// Whether `other` is a blast that catches the trash `entity`.
    pub fn should_explode(&self, entity: usize, other: usize) -> (r: bool)
        ensures
            r == blast_hits(self.entities@, entity as int, other as int),
    {
        self.has_kind(other, EntityKind::Explosion) && self.has_kind(entity, EntityKind::Trash)
    }

    /// Sets off the power-up of `entity`, if it is active, activated trash
    /// with one: an explosion spawns a blast sensor where the trash is.
    pub fn handle_power_up_event(&mut self, entity: usize) -> (ev: PowerUpEvent)
        ensures
            ev == power_up_event(old(self).entities@, entity as int),
            final(self).entities@ == old(self).entities@ + if ev == PowerUpEvent::EntityDestroyed {
                seq![explosion_at(old(self).entities@[entity as int].position)]
            } else {
                Seq::<Entity>::empty()
            },
            final(self).typing_buffer.0 == old(self).typing_buffer.0,
            same_rest(old(self), final(self)),
    {
        if self.is_active_trash(entity) && self.entities[entity].trash.activated {
            match self.entities[entity].trash.power_up {
                PowerUp::Explosion => {
                    let position = self.entities[entity].position;
                    self.entities.push(
                        Entity {
                            kind: EntityKind::Explosion,
                            alive: true,
                            trash: Trash::bottle(),
                            word: None,
                            active: false,
                            duplicate: false,
                            marked: false,
                            position,
                            velocity: Vector { x: 0, y: 0 },
                            gravity_scale: 1,
                        },
                    );
                    proof {
                        assert(self.entities@ =~= old(self).entities@ + seq![
                            explosion_at(old(self).entities@[entity as int].position),
                        ]);
                    }
                    return PowerUpEvent::EntityDestroyed;
                },
                PowerUp::Link => {
                    proof {
                        assert(self.entities@ =~= old(self).entities@ + Seq::<Entity>::empty());
                    }
                    return PowerUpEvent::DestroyLinked;
                },
                PowerUp::Nothing => {},
            }
        }
        proof {
            assert(self.entities@ =~= old(self).entities@ + Seq::<Entity>::empty());
        }
        PowerUpEvent::Nothing
    }

    /// Takes the word and the typeable tags off trash `entity`; its body stays.
    pub fn remove_trash_text(&mut self, entity: usize)
        requires
            entity < old(self).entities@.len(),
        ensures
            final(self).entities@ == old(self).entities@.update(
                entity as int,
                text_removed(old(self).entities@[entity as int]),
            ),
            final(self).typing_buffer.0 == old(self).typing_buffer.0,
            same_rest(old(self), final(self)),
    {
        self.entities[entity].active = false;
        self.entities[entity].marked = false;
        self.entities[entity].word = None;
        proof {
            assert(self.entities@ =~= old(self).entities@.update(
                entity as int,
                text_removed(old(self).entities@[entity as int]),
            ));
        }
    }

    /// Trash `entity` gives up splitting and spawns its one clone.
    pub fn create_duplicated_trash_from_entity(&mut self, entity: usize)
        requires
            entity < old(self).entities@.len(),
        ensures
            final(self).entities@ == old(self).entities@.update(
                entity as int,
                Entity { duplicate: false, ..old(self).entities@[entity as int] },
            ).push(clone_of(old(self).entities@[entity as int])),
            final(self).typing_buffer.0 == old(self).typing_buffer.0,
            same_rest(old(self), final(self)),
    {
        self.entities[entity].duplicate = false;
        let t = self.entities[entity].trash;
        let p = self.entities[entity].position;
        let y = if p.y <= i64::MAX - DUPLICATE_OFFSET_Y {
            p.y + DUPLICATE_OFFSET_Y
        } else {
            i64::MAX
        };
        self.entities.push(
            Entity {
                kind: EntityKind::Trash,
                alive: true,
                trash: Trash { power_up: PowerUp::Nothing, activated: false, ..t },
                word: None,
                active: false,
                duplicate: false,
                marked: false,
                position: Vector { x: p.x, y },
                velocity: Vector { x: 0, y: 0 },
                gravity_scale: DUPLICATE_GRAVITY_SCALE,
            },
        );
        proof {
            assert(self.entities@ =~= old(self).entities@.update(
                entity as int,
                Entity { duplicate: false, ..old(self).entities@[entity as int] },
            ).push(clone_of(old(self).entities@[entity as int])));
        }
    }

    /// Applies the rules for `entity` touching `other`, in order: its
    /// power-up goes off, unless one side is the game-over line; a blast despawns it; landing takes its word, unless
    /// the power-up was an explosion; a first impact splits it. The buffer is
    /// cleared when the marked trash is blasted or lands.
    pub fn handle_trash_entity_collision(&mut self, entity: usize, other: usize) -> (ev:
        PowerUpEvent)
        requires
            old(self).wf(),
        ensures
            final(self).wf(),
            evolves(old(self), final(self)),
            ev == hit_power_up_event(old(self).entities@, entity as int, other as int),
            final(self).entities@ == entities_after_hit(
                old(self).entities@,
                entity as int,
                other as int,
            ),
            final(self).buffer() == buffer_after_hit(
                old(self).entities@,
                old(self).buffer(),
                entity as int,
                other as int,
            ),
            same_rest(old(self), final(self)),
    {
        let ghost es = self.entities@;
        let ghost e = entity as int;
        let ghost o = other as int;
        let blast = self.should_explode(entity, other);
        let land = self.should_delete_text(entity, other);
        let split = self.should_duplicate_trash(entity, other);
        let ev = if self.has_kind(entity, EntityKind::GameOverLine) || self.has_kind(
            other,
            EntityKind::GameOverLine,
        ) {
            PowerUpEvent::Nothing
        } else {
            self.handle_power_up_event(entity)
        };
        if blast {
            if self.entities[entity].marked {
                self.typing_buffer.0 = String::new();
            }
            self.despawn_at(entity);
            proof {
                assert(self.entities@ =~= entities_after_hit(es, e, o));
                self.lemma_hit_keeps_wf(old(self), e, o);
            }
            return ev;
        }
        if land && self.entities[entity].marked {
            self.typing_buffer.0 = String::new();
        }
        if split {
            self.create_duplicated_trash_from_entity(entity);
        }
        if ev != PowerUpEvent::EntityDestroyed && land {
            self.remove_trash_text(entity);
        }
        proof {
            assert(self.entities@ =~= entities_after_hit(es, e, o));
            self.lemma_hit_keeps_wf(old(self), e, o);
        }
        ev
    }

    proof fn lemma_hit_keeps_wf(&self, a: &GameSession, e: int, o: int)
        requires
            a.wf(),
            self.entities@ == entities_after_hit(a.entities@, e, o),
            self.buffer() == buffer_after_hit(a.entities@, a.buffer(), e, o),
            same_rest(a, self),
        ensures
            self.wf(),
            evolves(a, self),
    {
        let es = a.entities@;
        let n = es.len();
        assert forall|i: int| 0 <= i < self.entities@.len() implies #[trigger] tags_wf(
            self.entities@[i],
        ) by {
            if i < n {
                assert(tags_wf(es[i]));
            }
        }
        assert forall|i: int|
            0 <= i < self.entities@.len() && (#[trigger] self.entities@[i]).marked implies is_prefix(
            self.buffer(),
            word_of(self.entities@[i]),
        ) by {
            assert(tags_wf(es[i]));
        }
        assert forall|i: int| 0 <= i < n implies #[trigger] entity_evolves(
            es[i],
            self.entities@[i],
        ) by {
            assert(tags_wf(es[i]));
        }
    }

    /// Despawns the blast sensors among the first `n` entities.
    pub fn remove_explosions(&mut self, n: usize)
        requires
            old(self).wf(),
            n <= old(self).entities@.len(),
        ensures
            final(self).wf(),
            evolves(old(self), final(self)),
            expire_step(old(self), final(self), n as int),
    {
        let ghost es = self.entities@;
        let mut i: usize = 0;
        while i < n
            invariant
                i <= n,
                n <= es.len(),
                self.entities@.len() == es.len(),
                self.typing_buffer.0 == old(self).typing_buffer.0,
                same_rest(old(self), self),
                es == old(self).entities@,
                forall|j: int|
                    0 <= j < es.len() ==> #[trigger] self.entities@[j] == if j < i && live_kind(
                        es,
                        j,
                        EntityKind::Explosion,
                    ) {
                        despawned(es[j])
                    } else {
                        es[j]
                    },
            decreases n - i,
        {
            if self.has_kind(i, EntityKind::Explosion) {
                self.despawn_at(i);
            }
            i = i + 1;
        }
        proof {
            assert(self.entities@ =~= expire_explosions(es, n as int));
            assert forall|j: int| 0 <= j < es.len() implies #[trigger] tags_wf(
                self.entities@[j],
            ) by {
                assert(tags_wf(es[j]));
            }
            assert forall|j: int| 0 <= j < es.len() implies #[trigger] entity_evolves(
                es[j],
                self.entities@[j],
            ) by {}
            assert forall|j: int|
                0 <= j < es.len() && (#[trigger] self.entities@[j]).marked implies is_prefix(
                self.buffer(),
                word_of(self.entities@[j]),
            ) by {
                assert(tags_wf(es[j]));
            }
        }
    }

    /// Resolves the collisions that the last physics step reported, in order,
    /// while the round runs; a landed trash on the game-over line ends it at
    /// once and spawns the game-over marker.
    pub fn handle_trash_collision(&mut self, events: &Vec<CollisionEvent>)
        requires
            old(self).wf(),
        ensures
            final(self).wf(),
            evolves(old(self), final(self)),
            collision_step(old(self), final(self), events@),
    {
        if self.run_state == RunState::Ended {
            proof {
                assert forall|i: int|
                    0 <= i < old(self).entities@.len() implies #[trigger] entity_evolves(
                    old(self).entities@[i],
                    self.entities@[i],
                ) by {}
            }
            return;
        }
        let ghost goal = resolve_events(old(self).entities@, old(self).buffer(), events@);
        let mut over = false;
        let mut k: usize = 0;
        proof {
            assert(events@.subrange(0, events@.len() as int) =~= events@);
            assert forall|i: int|
                0 <= i < old(self).entities@.len() implies #[trigger] entity_evolves(
                old(self).entities@[i],
                self.entities@[i],
            ) by {}
        }
        while k < events.len() && !over
            invariant
                k <= events@.len(),
                self.wf(),
                evolves(old(self), self),
                same_rest(old(self), self),
                goal == resolve_events(old(self).entities@, old(self).buffer(), events@),
                over ==> goal == (self.entities@, self.buffer(), true),
                !over ==> goal == resolve_events(
                    self.entities@,
                    self.buffer(),
                    events@.subrange(k as int, events@.len() as int),
                ),
            decreases events@.len() - k,
        {
            let ghost rest = events@.subrange(k as int, events@.len() as int);
            proof {
                assert(rest.drop_first() =~= events@.subrange(k + 1, events@.len() as int));
                assert(rest[0] == events@[k as int]);
            }
            match events[k] {
                CollisionEvent::Started(a, b) => {
                    if self.is_game_over(a, b) {
                        let ghost s0 = *self;
                        self.entities.push(make_static(EntityKind::GameOver, 0, 0));
                        proof {
                            assert(static_entity(EntityKind::GameOver, 0, 0) == game_over_marker());
                            self.lemma_static_append(&s0, s0.entities@);
                            lemma_evolves_trans(old(self), &s0, self);
                        }
                        over = true;
                    } else {
                        let ghost s0 = *self;
                        let _ = self.handle_trash_entity_collision(a, b);
                        let ghost s1 = *self;
                        let _ = self.handle_trash_entity_collision(b, a);
                        proof {
                            lemma_evolves_trans(old(self), &s0, &s1);
                            lemma_evolves_trans(old(self), &s1, self);
                        }
                    }
                },
                CollisionEvent::Stopped(_, _) => {},
            }
            k = k + 1;
        }
        if over {
            self.run_state = RunState::Ended;
        }
    }
}

} // verus!
