use trash_typer::session::{EntityKind, GameSession, Vector};
use trash_typer::spawner::{get_random_coordinate, spawn_slots, spawn_x_from_draw};
use trash_typer::timer::Timer;
use trash_typer::trash::{Extent, PowerUp, Trash, TrashType};
use trash_typer::words::AvailableWords;

#[test]
fn spawn_positions_skip_the_previous_window() {
    assert_eq!(spawn_slots(0), 449);
    assert_eq!(spawn_x_from_draw(0, 0), -254);
    assert_eq!(spawn_x_from_draw(0, 224), -30);
    assert_eq!(spawn_x_from_draw(0, 225), 30);
    assert_eq!(spawn_x_from_draw(0, 448), 253);
    assert_eq!(spawn_slots(-254), 478);
    assert_eq!(spawn_x_from_draw(-254, 0), -224);
    assert_eq!(spawn_slots(253), 478);
    assert_eq!(spawn_x_from_draw(253, 477), 223);
    assert_eq!(spawn_slots(10_000), 508);
}

#[test]
fn random_spawn_positions_keep_their_distance() {
    let mut prev: i64 = 0;
    for _ in 0..200 {
        let x = get_random_coordinate(prev);
        assert!((-254..254).contains(&x));
        assert!((x - prev).abs() >= 30);
        prev = x;
    }
}

#[test]
fn spawn_with_draws_builds_the_trash() {
    let mut s = GameSession::new();
    s.spawn_trash_with(225, 1, 9, "pie".to_string());
    assert_eq!(s.entities.len(), 1);
    let e = &s.entities[0];
    assert_eq!(e.kind, EntityKind::Trash);
    assert_eq!(e.trash.trash_type, TrashType::Pizza);
    assert_eq!(e.trash.size, Extent { x: 32, y: 16 });
    assert_eq!(e.trash.power_up, PowerUp::Explosion);
    assert!(!e.trash.activated);
    assert_eq!(e.word, Some("pie".to_string()));
    assert!(e.active && e.duplicate && !e.marked);
    assert_eq!(e.position, Vector { x: 30, y: 800 });
    assert_eq!(e.velocity, Vector { x: 0, y: -100 });
    assert_eq!(s.previous_spawn_x, 30);
    s.spawn_trash_with(0, 8, 3, "spray".to_string());
    assert_eq!(s.entities[1].trash.trash_type, TrashType::Spray);
    assert_eq!(s.entities[1].trash.power_up, PowerUp::Nothing);
    assert_eq!(s.entities[1].position.x, -254);
}

#[test]
fn spawn_timer_drives_spawns() {
    let bank = AvailableWords::load("apple\nbanana").unwrap();
    let mut s = GameSession::new();
    assert!(!s.spawn_trash(&bank, 1500));
    assert!(s.entities.is_empty());
    assert!(s.spawn_trash(&bank, 600));
    assert_eq!(s.entities.len(), 1);
    assert_eq!(s.spawn_timer.0.elapsed_ms, 100);
    let e = &s.entities[0];
    let w = e.word.clone().unwrap();
    assert!(w == "apple" || w == "banana");
    assert!(e.active && e.duplicate);
    assert!(e.trash.power_up == PowerUp::Nothing || e.trash.power_up == PowerUp::Explosion);
    assert_eq!(e.position.x, s.previous_spawn_x);
    assert!(s.previous_spawn_x.abs() >= 30);
}

#[test]
fn timer_carries_the_remainder() {
    let mut t = Timer::new(2000);
    assert!(!t.tick(1999));
    assert_eq!(t.elapsed_ms, 1999);
    assert!(t.tick(4002));
    assert_eq!(t.elapsed_ms, 1);
    t.set_duration(1);
    assert!(t.tick(0));
    assert_eq!(t.elapsed_ms, 0);
    let mut big = Timer::new(u64::MAX);
    assert!(!big.tick(u64::MAX - 1));
    assert!(big.tick(u64::MAX));
    assert_eq!(big.elapsed_ms, u64::MAX - 1);
}

#[test]
fn difficulty_ramp_stops_at_the_floor() {
    let mut s = GameSession::new();
    s.update_difficulty(9999);
    assert_eq!(s.spawn_timer.0.duration_ms, 2000);
    s.update_difficulty(1);
    assert_eq!(s.spawn_timer.0.duration_ms, 1800);
    for _ in 0..10 {
        s.update_difficulty(10000);
    }
    assert_eq!(s.spawn_timer.0.duration_ms, 1000);
    s.spawn_timer.0.set_duration(1100);
    s.update_difficulty(10000);
    assert_eq!(s.spawn_timer.0.duration_ms, 1000);
    s.update_difficulty(10000);
    assert_eq!(s.spawn_timer.0.duration_ms, 1000);
}

#[test]
fn setup_lays_out_the_play_area() {
    let mut s = GameSession::new();
    s.setup();
    assert_eq!(s.entities.len(), 16 + 174 + 1);
    let floors: Vec<_> = s.entities.iter().filter(|e| e.kind == EntityKind::Floor).collect();
    let walls: Vec<_> = s.entities.iter().filter(|e| e.kind == EntityKind::Wall).collect();
    assert_eq!(floors.len(), 16);
    assert_eq!(walls.len(), 174);
    assert_eq!(floors[14].position, Vector { x: 336, y: 16 });
    assert_eq!(floors[15].position, Vector { x: -336, y: 16 });
    assert_eq!(walls[0].position, Vector { x: -334, y: 16 });
    assert_eq!(walls[173].position, Vector { x: 334, y: 4144 });
    let line = s.entities.last().unwrap();
    assert_eq!(line.kind, EntityKind::GameOverLine);
    assert_eq!(line.position, Vector { x: 0, y: 410 });
}

#[test]
fn setup_restarts_both_timers() {
    let mut s = GameSession::new();
    for _ in 0..3 {
        s.update_difficulty(10000);
    }
    s.spawn_timer.0.tick(700);
    assert_eq!(s.spawn_timer.0.duration_ms, 1400);
    s.delete_all_play_entities();
    s.setup();
    assert_eq!(s.spawn_timer.0, Timer::new(2000));
    assert_eq!(s.difficulty_timer.0, Timer::new(10000));
}

#[test]
fn trash_kinds_have_their_sizes() {
    assert_eq!(Trash::get_by_type(TrashType::Bottle).size, Extent { x: 15, y: 16 });
    assert_eq!(Trash::get_by_type(TrashType::BigBox).size, Extent { x: 25, y: 24 });
    assert_eq!(Trash::get_by_type(TrashType::GlassBottle).size, Extent { x: 8, y: 25 });
    assert_eq!(Trash::get_by_type(TrashType::News).size, Extent { x: 26, y: 16 });
    assert_eq!(Trash::get_by_type(TrashType::Shampoo).size, Extent { x: 17, y: 22 });
    assert_eq!(Trash::get_by_type(TrashType::SmallCan).size, Extent { x: 11, y: 15 });
    assert_eq!(Trash::get_by_type(TrashType::Soda).size, Extent { x: 9, y: 17 });
    assert_eq!(Trash::get_by_type(TrashType::Spray).size, Extent { x: 8, y: 20 });
    let d = Trash::default();
    assert_eq!(d.trash_type, TrashType::Bottle);
    assert_eq!(d.power_up, PowerUp::Nothing);
    assert!(!d.activated);
    assert_eq!(TrashType::default(), TrashType::Bottle);
    assert_eq!(PowerUp::default(), PowerUp::Nothing);
}
