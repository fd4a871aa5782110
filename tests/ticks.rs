use trash_typer::collision::CollisionEvent;
use trash_typer::session::{
    ComboMeter, Entity, EntityKind, GameSession, KeyInput, Score, Vector,
};
use trash_typer::text::Key;
use trash_typer::trash::{PowerUp, PowerUpEvent, RunState, Trash};
use trash_typer::words::AvailableWords;

fn floor(s: &mut GameSession) -> usize {
    s.entities.push(Entity {
        kind: EntityKind::Floor,
        alive: true,
        trash: Trash::bottle(),
        word: None,
        active: false,
        duplicate: false,
        marked: false,
        position: Vector { x: 0, y: 16 },
        velocity: Vector { x: 0, y: 0 },
        gravity_scale: 1,
    });
    s.entities.len() - 1
}

#[test]
fn tick_types_before_resolving_collisions() {
    let bank = AvailableWords::load("kiwi").unwrap();
    let mut s = GameSession::new();
    s.spawn_trash_with(0, 0, 0, "fig".to_string());
    let f = floor(&mut s);
    let input = KeyInput { ctrl_held: false, keys: vec![Key::Letter('f')] };
    s.tick(&input, &vec![CollisionEvent::Started(0, f)], &bank, 16);
    assert_eq!(s.typing_buffer.0, "");
    assert_eq!(s.combo_meter, ComboMeter(1));
    assert!(!s.entities[0].active && s.entities[0].word.is_none());
    assert_eq!(s.spawn_timer.0.elapsed_ms, 16);
    assert_eq!(s.difficulty_timer.0.elapsed_ms, 16);
}

#[test]
fn tick_spawns_when_the_timer_elapses() {
    let bank = AvailableWords::load("kiwi").unwrap();
    let mut s = GameSession::new();
    let input = KeyInput { ctrl_held: false, keys: vec![] };
    s.tick(&input, &vec![], &bank, 2000);
    assert_eq!(s.entities.len(), 1);
    assert_eq!(s.entities[0].word, Some("kiwi".to_string()));
    let input = KeyInput { ctrl_held: false, keys: vec![Key::Letter('k'), Key::Letter('i'), Key::Letter('w'), Key::Letter('i')] };
    s.tick(&input, &vec![], &bank, 1);
    assert_eq!(s.score, Score(4));
}

#[test]
fn tick_after_game_over_keeps_entities() {
    let bank = AvailableWords::load("kiwi").unwrap();
    let mut s = GameSession::new();
    s.spawn_trash_with(0, 0, 0, "fig".to_string());
    let f = floor(&mut s);
    s.run_state = RunState::Ended;
    let input = KeyInput { ctrl_held: false, keys: vec![] };
    s.tick(&input, &vec![CollisionEvent::Started(0, f)], &bank, 1);
    assert!(s.entities[0].active);
}

#[test]
fn clean_typing_buffer_only_drops_unbacked_text() {
    let mut s = GameSession::new();
    s.spawn_trash_with(0, 0, 0, "fig".to_string());
    s.typing(&KeyInput { ctrl_held: false, keys: vec![Key::Letter('f')] });
    s.clean_typing_buffer();
    assert_eq!(s.typing_buffer.0, "f");
    s.typing(&KeyInput { ctrl_held: false, keys: vec![Key::Letter('x')] });
    assert!(!s.entities[0].marked);
    s.clean_typing_buffer();
    assert_eq!(s.typing_buffer.0, "f");
    s.entities[0].word = Some("oak".to_string());
    s.clean_typing_buffer();
    assert_eq!(s.typing_buffer.0, "");
}

#[test]
fn tick_clears_a_buffer_whose_word_landed_unmarked() {
    let bank = AvailableWords::load("kiwi").unwrap();
    let mut s = GameSession::new();
    s.spawn_trash_with(0, 0, 0, "fig".to_string());
    let f = floor(&mut s);
    let type_keys = |k: Vec<Key>| KeyInput { ctrl_held: false, keys: k };
    s.tick(&type_keys(vec![Key::Letter('f')]), &vec![], &bank, 1);
    s.tick(&type_keys(vec![Key::Letter('q')]), &vec![], &bank, 1);
    assert_eq!(s.typing_buffer.0, "f");
    assert!(!s.entities[0].marked);
    s.tick(&type_keys(vec![]), &vec![CollisionEvent::Started(0, f)], &bank, 1);
    assert!(!s.entities[0].active);
    assert_eq!(s.typing_buffer.0, "");
}

#[test]
fn delete_all_play_entities_empties_the_arena() {
    let mut s = GameSession::new();
    s.setup();
    s.spawn_trash_with(0, 0, 0, "fig".to_string());
    s.typing(&KeyInput { ctrl_held: false, keys: vec![Key::Letter('f')] });
    s.delete_all_play_entities();
    assert!(s.entities.iter().all(|e| !e.alive && !e.marked && e.word.is_none()));
    assert_eq!(s.typing_buffer.0, "");
}

#[test]
fn power_up_stays_quiet_against_the_line() {
    let mut s = GameSession::new();
    s.spawn_trash_with(0, 0, 9, "ab".to_string());
    assert_eq!(s.entities[0].trash.power_up, PowerUp::Explosion);
    s.typing(&KeyInput { ctrl_held: false, keys: vec![Key::Letter('a'), Key::Letter('b')] });
    s.entities.push(Entity {
        kind: EntityKind::GameOverLine,
        alive: true,
        trash: Trash::bottle(),
        word: None,
        active: false,
        duplicate: false,
        marked: false,
        position: Vector { x: 0, y: 410 },
        velocity: Vector { x: 0, y: 0 },
        gravity_scale: 1,
    });
    let n = s.entities.len();
    assert_eq!(s.handle_trash_entity_collision(0, 1), PowerUpEvent::Nothing);
    assert_eq!(s.entities.len(), n);
    assert_eq!(s.handle_power_up_event(0), PowerUpEvent::EntityDestroyed);
    assert_eq!(s.entities.len(), n + 1);
    assert_eq!(s.entities[n].kind, EntityKind::Explosion);
    assert_eq!(s.entities[n].position, s.entities[0].position);
}

#[test]
fn tick_expires_only_older_blast_sensors() {
    let bank = AvailableWords::load("kiwi").unwrap();
    let mut s = GameSession::new();
    s.spawn_trash_with(0, 0, 9, "ab".to_string());
    let f = floor(&mut s);
    let none = KeyInput { ctrl_held: false, keys: vec![] };
    s.tick(&KeyInput { ctrl_held: false, keys: vec![Key::Letter('a'), Key::Letter('b')] }, &vec![], &bank, 1);
    s.tick(&none, &vec![CollisionEvent::Started(0, f)], &bank, 1);
    let blast = 2;
    assert_eq!(s.entities[blast].kind, EntityKind::Explosion);
    assert!(s.entities[blast].alive);
    s.tick(&none, &vec![CollisionEvent::Started(0, blast)], &bank, 1);
    assert!(!s.entities[0].alive);
    assert!(!s.entities[blast].alive);
}
