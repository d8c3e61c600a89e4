//! The per-tick systems and the fixed-point operations under them.
use netplay::components::EnemyController;
use netplay::components::EnemyTag;
use netplay::components::Follow;
use netplay::components::FollowMode;
use netplay::components::OwnedBy;
use netplay::components::PlayerController;
use netplay::components::PlayerTag;
use netplay::components::Speed;
use netplay::components::Time;
use netplay::components::TimerTag;
use netplay::components::Velocity;
use netplay::fixed::FX_ONE;
use netplay::fixed::Vec2;
use netplay::fixed::fx_add;
use netplay::fixed::fx_div_round;
use netplay::fixed::fx_mul;
use netplay::fixed::fx_sub;
use netplay::fixed::snap_axis;
use netplay::systems::EnemyControlSystem;
use netplay::systems::FollowSystem;
use netplay::systems::InputAxes;
use netplay::systems::PlayerControlSystem;
use netplay::systems::TimeSystem;
use netplay::systems::timer_text;
use netplay::world::EntityRec;
use netplay::world::World;

fn rec_at(x: i64, y: i64) -> EntityRec {
    let mut rec = EntityRec::empty();
    rec.transform = Some(Vec2 { x, y });
    rec
}

#[test]
fn fixed_point_operations() {
    assert_eq!(FX_ONE, 1000);
    assert_eq!(fx_add(400, 300), 700);
    assert_eq!(fx_add(i64::MAX, 1), i64::MAX);
    assert_eq!(fx_sub(i64::MIN, 1), i64::MIN);
    assert_eq!(fx_sub(400, 300), 100);
    // 10.0 * 0.3 = 3.0
    assert_eq!(fx_mul(10_000, 300), 3_000);
    assert_eq!(fx_mul(-10_000, 300), -3_000);
    // The product truncates toward zero.
    assert_eq!(fx_mul(1, 1), 0);
    assert_eq!(fx_mul(-1, 1), 0);
    // Rounding is half away from zero.
    assert_eq!(fx_div_round(1_500, 1_000), 2);
    assert_eq!(fx_div_round(-1_500, 1_000), -2);
    assert_eq!(fx_div_round(1_400, 1_000), 1);
    assert_eq!(fx_div_round(-1_400, 1_000), -1);
}

#[test]
fn grid_snap_values() {
    // 130 snaps to the 128-cell, 5 snaps to 0.
    assert_eq!(snap_axis(130_000, 128_000, 0), 128_000);
    assert_eq!(snap_axis(5_000, 128_000, 0), 0);
    assert_eq!(snap_axis(130_000, 128_000, 1), 256_000);
    assert_eq!(snap_axis(-130_000, 128_000, 0), -128_000);
    // A cell size that is not positive passes the position through.
    assert_eq!(snap_axis(130_000, 0, 3), 130_000);
    assert_eq!(snap_axis(130_000, -5, 3), 130_000);
}

#[test]
fn snap_to_grid_follow() {
    let mut w = World::new();
    let mut target = rec_at(130_000, 5_000);
    target.velocity = Some(Velocity(Vec2 { x: 0, y: 0 }));
    let target = w.spawn(target);

    let mut water = rec_at(7, 7);
    water.follow = Some(Follow::with_mode(
        target,
        FollowMode::SnapToGrid(Vec2 { x: 128_000, y: 128_000 }, 0, 0),
    ));
    let water = w.spawn(water);

    FollowSystem::run(&mut w);
    assert_eq!(w.get(water).unwrap().transform, Some(Vec2 { x: 128_000, y: 0 }));
    // The target itself does not move.
    assert_eq!(w.get(target).unwrap().transform, Some(Vec2 { x: 130_000, y: 5_000 }));
}

#[test]
fn stick_follow_copies_the_target_position() {
    let mut w = World::new();
    let mut target = rec_at(42, -17);
    target.velocity = Some(Velocity(Vec2 { x: 9, y: 9 }));
    let target = w.spawn(target);

    let mut camera = rec_at(0, 0);
    camera.follow = Some(Follow::new(target));
    let camera = w.spawn(camera);

    FollowSystem::run(&mut w);
    assert_eq!(w.get(camera).unwrap().transform, Some(Vec2 { x: 42, y: -17 }));
}

#[test]
fn tween_follow_adds_scaled_velocity() {
    let mut w = World::new();
    let mut target = rec_at(1_000, 2_000);
    target.velocity = Some(Velocity(Vec2 { x: 100, y: -40 }));
    let target = w.spawn(target);

    let mut label = rec_at(0, 0);
    label.follow = Some(Follow::with_mode(target, FollowMode::Tween(500)));
    let label = w.spawn(label);

    FollowSystem::run(&mut w);
    assert_eq!(w.get(label).unwrap().transform, Some(Vec2 { x: 1_050, y: 1_980 }));
}

#[test]
fn follower_without_a_target_is_left_unchanged() {
    let mut w = World::new();
    let mut orphan = rec_at(3, 4);
    orphan.follow = Some(Follow::new(999));
    let orphan = w.spawn(orphan);
    FollowSystem::run(&mut w);
    assert_eq!(w.get(orphan).unwrap().transform, Some(Vec2 { x: 3, y: 4 }));
}

#[test]
fn player_control_moves_and_records_velocity() {
    let mut w = World::new();
    let mut player = rec_at(0, 0);
    player.velocity = Some(Velocity(Vec2 { x: 0, y: 0 }));
    player.speed = Some(Speed(400_000));
    player.player_controller = Some(PlayerController::new(1));
    player.player_tag = Some(PlayerTag);
    let player = w.spawn(player);

    // Full right input for a tenth of a second at 400 units per second.
    let input = InputAxes { left: 0, right: 1_000, up: 0, down: 0 };
    PlayerControlSystem::run(&mut w, input, 100);
    let rec = w.get(player).unwrap();
    assert_eq!(rec.velocity, Some(Velocity(Vec2 { x: 400_000, y: 0 })));
    assert_eq!(rec.transform, Some(Vec2 { x: 40_000, y: 0 }));
}

#[test]
fn opposed_axes_cancel() {
    let mut w = World::new();
    let mut player = rec_at(5, 5);
    player.velocity = Some(Velocity(Vec2 { x: 1, y: 1 }));
    player.speed = Some(Speed(400_000));
    player.player_controller = Some(PlayerController::new(1));
    player.player_tag = Some(PlayerTag);
    let player = w.spawn(player);

    let input = InputAxes { left: 1_000, right: 1_000, up: 500, down: 500 };
    PlayerControlSystem::run(&mut w, input, 100);
    let rec = w.get(player).unwrap();
    assert_eq!(rec.velocity, Some(Velocity(Vec2 { x: 0, y: 0 })));
    assert_eq!(rec.transform, Some(Vec2 { x: 5, y: 5 }));
}

#[test]
fn enemy_control_integrates_velocity() {
    let mut w = World::new();
    let mut enemy = rec_at(1_000, 0);
    enemy.velocity = Some(Velocity(Vec2 { x: 10_000, y: -2_000 }));
    enemy.enemy_controller = Some(EnemyController::new(7));
    enemy.enemy_tag = Some(EnemyTag);
    let enemy = w.spawn(enemy);

    EnemyControlSystem::run(&mut w, 300);
    let rec = w.get(enemy).unwrap();
    assert_eq!(rec.transform, Some(Vec2 { x: 4_000, y: -600 }));
    // The velocity itself is externally supplied and untouched.
    assert_eq!(rec.velocity, Some(Velocity(Vec2 { x: 10_000, y: -2_000 })));
}

#[test]
fn countdown_decays_and_eliminates_at_zero() {
    let mut w = World::new();
    let mut timed = rec_at(0, 0);
    timed.time = Some(Time(1_000));
    let timed = w.spawn(timed);

    assert!(TimeSystem::run(&mut w, 400).is_empty());
    assert_eq!(w.get(timed).unwrap().time, Some(Time(600)));
    assert!(TimeSystem::run(&mut w, 400).is_empty());
    let removed = TimeSystem::run(&mut w, 400);
    assert_eq!(removed, vec![timed]);
    assert!(w.get(timed).is_none());
}

#[test]
fn timer_label_renders_its_subject() {
    let mut w = World::new();
    let mut subject = rec_at(0, 0);
    subject.time = Some(Time(65_500));
    let subject = w.spawn(subject);

    let mut label = rec_at(0, 0);
    label.timer_tag = Some(TimerTag);
    label.owned_by = Some(OwnedBy::new(subject));
    label.text = Some(String::new());
    let label = w.spawn(label);

    TimeSystem::run(&mut w, 500);
    // 65.0 seconds left renders as one minute, five seconds.
    assert_eq!(w.get(label).unwrap().text.as_deref(), Some("01:05"));
}

#[test]
fn orphaned_timer_label_keeps_its_last_text() {
    let mut w = World::new();
    let mut subject = rec_at(0, 0);
    subject.time = Some(Time(61_200));
    let subject = w.spawn(subject);

    let mut label = rec_at(0, 0);
    label.timer_tag = Some(TimerTag);
    label.owned_by = Some(OwnedBy::new(subject));
    label.text = Some(String::new());
    let label = w.spawn(label);

    TimeSystem::run(&mut w, 200);
    assert_eq!(w.get(label).unwrap().text.as_deref(), Some("01:01"));

    w.despawn(subject);
    TimeSystem::run(&mut w, 200);
    assert_eq!(w.get(label).unwrap().text.as_deref(), Some("01:01"));
}

#[test]
fn timer_text_formats_and_clamps() {
    assert_eq!(timer_text(65_000), "01:05");
    assert_eq!(timer_text(59_999), "00:59");
    assert_eq!(timer_text(60_000), "01:00");
    assert_eq!(timer_text(0), "00:00");
    assert_eq!(timer_text(-5_000), "00:00");
    assert_eq!(timer_text(999), "00:00");
    // The minute field grows beyond two places when it must.
    assert_eq!(timer_text(6_000_000), "100:00");
}
