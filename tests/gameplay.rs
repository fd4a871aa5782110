use trash_typer::collision::CollisionEvent;
use trash_typer::session::{
    ComboMeter, ComboModifier, Entity, EntityKind, GameSession, KeyInput, Score, Vector,
};
use trash_typer::text::Key;
use trash_typer::trash::{PowerUp, PowerUpEvent, RunState, Trash};

fn spawn_word(s: &mut GameSession, word: &str, power_draw: usize) -> usize {
    s.spawn_trash_with(0, 0, power_draw, word.to_string());
    s.entities.len() - 1
}

fn add_static(s: &mut GameSession, kind: EntityKind, x: i64, y: i64) -> usize {
    s.entities.push(Entity {
        kind,
        alive: true,
        trash: Trash::bottle(),
        word: None,
        active: false,
        duplicate: false,
        marked: false,
        position: Vector { x, y },
        velocity: Vector { x: 0, y: 0 },
        gravity_scale: 1,
    });
    s.entities.len() - 1
}

fn add_debris(s: &mut GameSession, vx: i64, vy: i64) -> usize {
    s.entities.push(Entity {
        kind: EntityKind::Trash,
        alive: true,
        trash: Trash::pizza(),
        word: None,
        active: false,
        duplicate: false,
        marked: false,
        position: Vector { x: 0, y: 100 },
        velocity: Vector { x: vx, y: vy },
        gravity_scale: 1,
    });
    s.entities.len() - 1
}

fn press(s: &mut GameSession, keys: Vec<Key>) {
    s.typing(&KeyInput { ctrl_held: false, keys });
}

fn letter(c: char) -> Vec<Key> {
    vec![Key::Letter(c)]
}

#[test]
fn shared_prefix_then_exact_match() {
    let mut s = GameSession::new();
    let cat = spawn_word(&mut s, "cat", 0);
    let car = spawn_word(&mut s, "car", 0);
    press(&mut s, letter('c'));
    assert_eq!(s.typing_buffer.0, "c");
    assert!(s.entities[cat].marked && s.entities[car].marked);
    assert_eq!(s.combo_meter, ComboMeter(1));
    press(&mut s, letter('a'));
    assert_eq!(s.typing_buffer.0, "ca");
    assert!(s.entities[cat].marked && s.entities[car].marked);
    assert_eq!(s.combo_meter, ComboMeter(2));
    press(&mut s, letter('t'));
    assert_eq!(s.typing_buffer.0, "");
    assert_eq!(s.score, Score(3));
    assert!(s.entities[cat].trash.activated);
    assert!(!s.entities[cat].alive);
    assert!(s.entities[car].alive && !s.entities[car].trash.activated);
    assert!(!s.entities[car].marked);
}

#[test]
fn rejected_letter_resets_combo() {
    let mut s = GameSession::new();
    let dog = spawn_word(&mut s, "dog", 0);
    s.combo_modifier = ComboModifier(3);
    s.combo_meter = ComboMeter(5);
    press(&mut s, letter('c'));
    assert_eq!(s.typing_buffer.0, "");
    assert_eq!(s.combo_modifier, ComboModifier(1));
    assert_eq!(s.combo_meter, ComboMeter(0));
    assert!(s.entities[dog].alive && s.entities[dog].word.is_some());
}

#[test]
fn rejected_letter_keeps_committed_prefix() {
    let mut s = GameSession::new();
    let dog = spawn_word(&mut s, "dog", 0);
    press(&mut s, letter('d'));
    assert!(s.entities[dog].marked);
    press(&mut s, letter('x'));
    assert_eq!(s.typing_buffer.0, "d");
    assert!(!s.entities[dog].marked);
    assert_eq!(s.combo_modifier, ComboModifier(1));
}

#[test]
fn rejected_letter_leaves_nothing_marked() {
    let mut s = GameSession::new();
    let dog = spawn_word(&mut s, "dog", 0);
    press(&mut s, letter('c'));
    assert_eq!(s.typing_buffer.0, "");
    assert!(!s.entities[dog].marked);
    press(&mut s, letter('d'));
    assert!(s.entities[dog].marked);
}

#[test]
fn explosion_blast_clears_marked_victim() {
    let mut s = GameSession::new();
    let bomb = spawn_word(&mut s, "bomb", 9);
    assert_eq!(s.entities[bomb].trash.power_up, PowerUp::Explosion);
    let victim = spawn_word(&mut s, "victim", 0);
    press(&mut s, vec![Key::Letter('b'), Key::Letter('o'), Key::Letter('m'), Key::Letter('b')]);
    assert_eq!(s.score, Score(4));
    assert!(s.entities[bomb].alive && s.entities[bomb].active);
    assert!(s.entities[bomb].trash.activated && s.entities[bomb].word.is_none());
    let debris = add_debris(&mut s, 0, -200);
    let before = s.entities.len();
    s.handle_trash_collision(&vec![CollisionEvent::Started(bomb, debris)]);
    assert_eq!(s.entities.len(), before + 2);
    let blast = before;
    assert_eq!(s.entities[before + 1].kind, EntityKind::Trash);
    assert_eq!(s.entities[blast].kind, EntityKind::Explosion);
    assert!(s.entities[blast].alive);
    assert_eq!(s.entities[blast].position, s.entities[bomb].position);
    press(&mut s, letter('v'));
    assert!(s.entities[victim].marked);
    let n = s.entities.len();
    s.handle_trash_collision(&vec![CollisionEvent::Started(victim, blast)]);
    assert!(!s.entities[victim].alive);
    assert_eq!(s.typing_buffer.0, "");
    assert!(s.entities[blast].alive);
    s.remove_explosions(n);
    assert!(!s.entities[blast].alive);
}

#[test]
fn first_impact_splits_once() {
    let mut s = GameSession::new();
    let a = spawn_word(&mut s, "apple", 0);
    let b = add_debris(&mut s, 0, -200);
    s.entities[a].trash.power_up = PowerUp::Link;
    s.entities[a].position = Vector { x: 5, y: 300 };
    let before = s.entities.len();
    let ev = s.handle_trash_entity_collision(a, b);
    assert_eq!(ev, PowerUpEvent::Nothing);
    assert!(!s.entities[a].duplicate);
    assert_eq!(s.entities.len(), before + 1);
    let c = &s.entities[before];
    assert_eq!(c.kind, EntityKind::Trash);
    assert_eq!(c.position, Vector { x: 5, y: 310 });
    assert_eq!(c.velocity, Vector { x: 0, y: 0 });
    assert_eq!(c.gravity_scale, 40);
    assert_eq!(c.trash.power_up, PowerUp::Nothing);
    assert!(!c.trash.activated && !c.duplicate && !c.active && c.word.is_none());
    assert_eq!(c.trash.size, s.entities[a].trash.size);
    s.handle_trash_entity_collision(a, b);
    assert_eq!(s.entities.len(), before + 1);
}

#[test]
fn split_skips_boundaries() {
    let mut s = GameSession::new();
    let a = spawn_word(&mut s, "apple", 0);
    let wall = add_static(&mut s, EntityKind::Wall, -334, 16);
    let line = add_static(&mut s, EntityKind::GameOverLine, 0, 410);
    let n = s.entities.len();
    s.handle_trash_entity_collision(a, wall);
    s.handle_trash_entity_collision(a, line);
    assert_eq!(s.entities.len(), n);
    assert!(s.entities[a].duplicate);
}

#[test]
fn game_over_stops_the_tick() {
    let mut s = GameSession::new();
    let debris = add_debris(&mut s, 0, 0);
    let line = add_static(&mut s, EntityKind::GameOverLine, 0, 410);
    let a = spawn_word(&mut s, "apple", 0);
    let floor = add_static(&mut s, EntityKind::Floor, 0, 16);
    s.handle_trash_collision(&vec![
        CollisionEvent::Started(debris, line),
        CollisionEvent::Started(a, floor),
    ]);
    assert_eq!(s.run_state, RunState::Ended);
    assert!(s.entities[a].active && s.entities[a].word.is_some());
    assert_eq!(s.entities.len(), 5);
    assert_eq!(s.entities[4].kind, EntityKind::GameOver);
    assert!(s.entities[4].alive);
    s.handle_trash_collision(&vec![CollisionEvent::Started(a, floor)]);
    assert!(s.entities[a].active);
    assert_eq!(s.entities.len(), 5);
    s.delete_all_play_entities();
    assert!(s.entities[4].alive);
    assert!(s.entities[..4].iter().all(|e| !e.alive));
    s.delete_all_gameover_entities();
    assert!(!s.entities[4].alive);
}

#[test]
fn active_trash_on_line_is_no_game_over() {
    let mut s = GameSession::new();
    let line = add_static(&mut s, EntityKind::GameOverLine, 0, 410);
    let a = spawn_word(&mut s, "apple", 0);
    assert!(!s.is_game_over(a, line));
    s.handle_trash_collision(&vec![CollisionEvent::Started(line, a)]);
    assert_eq!(s.run_state, RunState::Running);
}

#[test]
fn landing_on_floor_removes_text_and_clears_marked_buffer() {
    let mut s = GameSession::new();
    let a = spawn_word(&mut s, "apple", 0);
    let floor = add_static(&mut s, EntityKind::Floor, 0, 16);
    press(&mut s, letter('a'));
    assert!(s.entities[a].marked);
    s.handle_trash_collision(&vec![CollisionEvent::Started(a, floor)]);
    assert!(s.entities[a].alive);
    assert!(!s.entities[a].active && !s.entities[a].marked && s.entities[a].word.is_none());
    assert_eq!(s.typing_buffer.0, "");
}

#[test]
fn landing_needs_settled_debris_and_no_wall() {
    let mut s = GameSession::new();
    let a = spawn_word(&mut s, "apple", 0);
    let moving = add_debris(&mut s, 0, -60);
    let settled = add_debris(&mut s, 30, 30);
    let wall = add_static(&mut s, EntityKind::Wall, 334, 16);
    assert!(!s.should_delete_text(a, moving));
    assert!(s.should_delete_text(a, settled));
    assert!(!s.should_delete_text(a, wall));
    assert!(!s.should_delete_text(moving, settled));
    s.handle_trash_entity_collision(a, moving);
    assert!(s.entities[a].active);
    s.handle_trash_entity_collision(a, settled);
    assert!(!s.entities[a].active);
}

#[test]
fn explosion_path_supersedes_text_removal() {
    let mut s = GameSession::new();
    let bomb = spawn_word(&mut s, "bomb", 9);
    let floor = add_static(&mut s, EntityKind::Floor, 0, 16);
    press(&mut s, vec![Key::Letter('b'), Key::Letter('o'), Key::Letter('m'), Key::Letter('b')]);
    let ev = s.handle_trash_entity_collision(bomb, floor);
    assert_eq!(ev, PowerUpEvent::EntityDestroyed);
    assert!(s.entities[bomb].active);
    assert_eq!(s.entities.last().unwrap().kind, EntityKind::Explosion);
}

#[test]
fn link_power_up_reports_destroy_linked() {
    let mut s = GameSession::new();
    let a = spawn_word(&mut s, "ab", 0);
    s.entities[a].trash.power_up = PowerUp::Link;
    press(&mut s, vec![Key::Letter('a'), Key::Letter('b')]);
    assert!(s.entities[a].alive && s.entities[a].trash.activated && s.entities[a].word.is_none());
    let n = s.entities.len();
    assert_eq!(s.handle_power_up_event(a), PowerUpEvent::DestroyLinked);
    assert_eq!(s.entities.len(), n);
}

#[test]
fn stopped_events_do_nothing() {
    let mut s = GameSession::new();
    let a = spawn_word(&mut s, "apple", 0);
    let floor = add_static(&mut s, EntityKind::Floor, 0, 16);
    let sensor = add_static(&mut s, EntityKind::Explosion, 0, 200);
    s.handle_trash_collision(&vec![CollisionEvent::Stopped(a, floor)]);
    assert!(s.entities[a].active && s.entities[a].duplicate);
    assert!(s.entities[sensor].alive);
    assert_eq!(s.entities.len(), 3);
}

#[test]
fn one_started_event_is_both_one_sided_hits() {
    let mut s = GameSession::new();
    let w1 = add_static(&mut s, EntityKind::Wall, -334, 16);
    let w2 = add_static(&mut s, EntityKind::Wall, 334, 16);
    let sensor = add_static(&mut s, EntityKind::Explosion, 0, 200);
    s.handle_trash_collision(&vec![CollisionEvent::Started(w1, w2)]);
    assert!(s.entities[sensor].alive);
    assert_eq!(s.entities.len(), 3);
}

#[test]
fn stale_ids_are_skipped() {
    let mut s = GameSession::new();
    let a = spawn_word(&mut s, "apple", 0);
    s.handle_trash_collision(&vec![CollisionEvent::Started(a, 99), CollisionEvent::Started(98, 97)]);
    assert!(s.entities[a].active);
    assert!(s.entities[a].duplicate);
    assert_eq!(s.entities.len(), 1);
}

#[test]
fn ctrl_backspace_clears_buffer_and_marks() {
    let mut s = GameSession::new();
    let a = spawn_word(&mut s, "apple", 0);
    press(&mut s, letter('a'));
    press(&mut s, letter('p'));
    s.typing(&KeyInput { ctrl_held: true, keys: vec![Key::Back] });
    assert_eq!(s.typing_buffer.0, "");
    assert!(!s.entities[a].marked);
    assert_eq!(s.combo_meter, ComboMeter(2));
}

#[test]
fn backspace_pops_without_combo_step() {
    let mut s = GameSession::new();
    spawn_word(&mut s, "apple", 0);
    press(&mut s, letter('a'));
    press(&mut s, letter('p'));
    press(&mut s, vec![Key::Back]);
    assert_eq!(s.typing_buffer.0, "a");
    assert_eq!(s.combo_meter, ComboMeter(2));
    press(&mut s, vec![Key::Back]);
    assert_eq!(s.typing_buffer.0, "");
    press(&mut s, vec![Key::Back]);
    assert_eq!(s.typing_buffer.0, "");
}

#[test]
fn full_combo_meter_raises_modifier() {
    let mut s = GameSession::new();
    spawn_word(&mut s, "abcdefghijkl", 0);
    for c in "abcdefghi".chars() {
        press(&mut s, letter(c));
    }
    assert_eq!(s.combo_meter, ComboMeter(9));
    assert_eq!(s.combo_modifier, ComboModifier(1));
    press(&mut s, letter('j'));
    assert_eq!(s.combo_meter, ComboMeter(0));
    assert_eq!(s.combo_modifier, ComboModifier(2));
    press(&mut s, letter('k'));
    press(&mut s, letter('l'));
    assert_eq!(s.score, Score(24));
}

#[test]
fn duplicate_live_words_both_score() {
    let mut s = GameSession::new();
    let a = spawn_word(&mut s, "cat", 0);
    let b = spawn_word(&mut s, "cat", 0);
    press(&mut s, vec![Key::Letter('c'), Key::Letter('a'), Key::Letter('t')]);
    assert_eq!(s.score, Score(6));
    assert!(!s.entities[a].alive && !s.entities[b].alive);
}

#[test]
fn activated_trash_does_not_score_again() {
    let mut s = GameSession::new();
    let bomb = spawn_word(&mut s, "ab", 9);
    press(&mut s, vec![Key::Letter('a'), Key::Letter('b')]);
    assert_eq!(s.score, Score(2));
    s.entities[bomb].word = Some("ab".to_string());
    s.typing_buffer.0 = "ab".to_string();
    s.activate_matching_trash();
    assert_eq!(s.score, Score(2));
    assert_eq!(s.typing_buffer.0, "ab");
}

#[test]
fn score_grows_by_length_times_modifier() {
    let mut s = GameSession::new();
    spawn_word(&mut s, "tree", 0);
    s.combo_modifier = ComboModifier(3);
    press(&mut s, vec![Key::Letter('t'), Key::Letter('r'), Key::Letter('e'), Key::Letter('e')]);
    assert_eq!(s.score, Score(12));
}

#[test]
fn score_saturates() {
    let mut s = GameSession::new();
    spawn_word(&mut s, "ab", 0);
    s.score = Score(u64::MAX - 1);
    press(&mut s, vec![Key::Letter('a'), Key::Letter('b')]);
    assert_eq!(s.score, Score(u64::MAX));
}

#[test]
fn landed_trash_is_never_marked_again() {
    let mut s = GameSession::new();
    let a = spawn_word(&mut s, "apple", 0);
    let floor = add_static(&mut s, EntityKind::Floor, 0, 16);
    s.handle_trash_collision(&vec![CollisionEvent::Started(a, floor)]);
    s.entities[a].word = Some("apple".to_string());
    spawn_word(&mut s, "axe", 0);
    press(&mut s, letter('a'));
    assert_eq!(s.typing_buffer.0, "a");
    assert!(!s.entities[a].marked);
    assert!(!s.entities[a].active);
}

#[test]
fn debris_is_clamped_when_fast() {
    let mut s = GameSession::new();
    let fast = add_debris(&mut s, -100, 300);
    let wide = add_debris(&mut s, 900, -70);
    let limit = add_debris(&mut s, 30, 40);
    let slow = add_debris(&mut s, 10, 10);
    let falling = add_debris(&mut s, -700, -90);
    let active = spawn_word(&mut s, "apple", 0);
    s.entities[active].velocity = Vector { x: 500, y: 500 };
    s.clamp_duplicated_trash();
    assert_eq!(s.entities[fast].velocity, Vector { x: -100, y: 40 });
    assert_eq!(s.entities[wide].velocity, Vector { x: 600, y: -40 });
    assert_eq!(s.entities[limit].velocity, Vector { x: 30, y: 40 });
    assert_eq!(s.entities[slow].velocity, Vector { x: 10, y: 10 });
    assert_eq!(s.entities[falling].velocity, Vector { x: -600, y: -40 });
    assert_eq!(s.entities[active].velocity, Vector { x: 500, y: 500 });
}

#[test]
fn set_motion_updates_one_entity() {
    let mut s = GameSession::new();
    let a = add_debris(&mut s, 0, 0);
    s.set_motion(a, Vector { x: 3, y: 4 }, Vector { x: -5, y: 6 });
    assert_eq!(s.entities[a].position, Vector { x: 3, y: 4 });
    assert_eq!(s.entities[a].velocity, Vector { x: -5, y: 6 });
}

#[test]
fn new_session_starts_clean() {
    let s = GameSession::new();
    assert!(s.entities.is_empty());
    assert_eq!(s.typing_buffer.0, "");
    assert_eq!(s.score, Score(0));
    assert_eq!(s.combo_modifier, ComboModifier(1));
    assert_eq!(s.combo_meter, ComboMeter(0));
    assert_eq!(s.run_state, RunState::Running);
    assert_eq!(s.spawn_timer.0.duration_ms, 2000);
    assert_eq!(s.difficulty_timer.0.duration_ms, 10000);
}
