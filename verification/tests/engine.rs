//! The reconciliation engine: joins, snapshots, disconnects, elimination,
//! heartbeat cadence and teardown.
use netplay::codec::DecodeError;
use netplay::components::FollowMode;
use netplay::components::Speed;
use netplay::components::Time;
use netplay::game::PLAYER_SPEED;
use netplay::game::WATER_GRID;
use netplay::fixed::Vec2;
use netplay::game::GameMessage;
use netplay::game::GameState;
use netplay::game::PlayerInfoFx;
use netplay::game::PlayerStateFx;
use netplay::game::SEND_STATE_DELAY;
use netplay::game::StateChange;
use netplay::systems::TimeSystem;
use netplay::world::World;

fn info(id: u32, name: &str, time: i64, x: i64, y: i64) -> PlayerInfoFx {
    PlayerInfoFx { id, name: name.to_string(), time, position: Vec2 { x, y } }
}

fn state(id: u32, time: i64, px: i64, py: i64, vx: i64, vy: i64) -> PlayerStateFx {
    PlayerStateFx { id, time, position: Vec2 { x: px, y: py }, velocity: Vec2 { x: vx, y: vy } }
}

fn session() -> (GameState, World) {
    let world = World::new();
    let gs = GameState::new(10, info(1, "me", 5000, 0, 0));
    (gs, world)
}

#[test]
fn new_player_twice_registers_one_entity() {
    let (mut gs, mut w) = session();
    let join = GameMessage::NewPlayer(info(7, "A", 5000, 0, 0));
    gs.on_process(&mut w, true, &vec![], &vec![Ok(join.clone())], 0);
    let e = gs.enemy_entity(7).expect("the first announce registers id 7");
    let rec = w.get(e).unwrap().clone();
    let next = w.next_handle();

    gs.on_process(&mut w, true, &vec![], &vec![Ok(join)], 0);
    assert_eq!(gs.enemy_entity(7), Some(e));
    assert_eq!(w.get(e).unwrap(), &rec);
    // The duplicate announce allocated nothing at all.
    assert_eq!(w.next_handle(), next);
}

#[test]
fn duplicate_announce_in_one_batch_registers_once() {
    let (mut gs, mut w) = session();
    let join = GameMessage::NewPlayer(info(7, "A", 5000, 0, 0));
    gs.on_process(&mut w, true, &vec![], &vec![Ok(join.clone()), Ok(join)], 0);
    let e = gs.enemy_entity(7).expect("the batch registers id 7");
    // One enemy, two labels: the duplicate allocated nothing.
    assert_eq!(w.next_handle(), e + 3);
}

#[test]
fn new_player_with_spent_countdown_is_ignored() {
    let (mut gs, mut w) = session();
    gs.on_process(&mut w, true, &vec![], &vec![Ok(GameMessage::NewPlayer(info(7, "A", 0, 0, 0)))], 0);
    assert_eq!(gs.enemy_entity(7), None);
}

#[test]
fn new_player_with_own_id_is_ignored() {
    let (mut gs, mut w) = session();
    gs.on_process(&mut w, true, &vec![], &vec![Ok(GameMessage::NewPlayer(info(1, "me", 5000, 0, 0)))], 0);
    assert_eq!(gs.enemy_entity(1), None);
    assert!(gs.no_enemies());
}

#[test]
fn own_state_and_disconnect_never_mutate_registry() {
    let (mut gs, mut w) = session();
    gs.on_process(&mut w, true, &vec![], &vec![Ok(GameMessage::NewPlayer(info(7, "A", 5000, 0, 0)))], 0);
    let e = gs.enemy_entity(7).unwrap();
    let rec = w.get(e).unwrap().clone();

    let echoes = vec![
        Ok(GameMessage::PlayerState(state(1, 1000, 5, 5, 1, 1))),
        Ok(GameMessage::PlayerDisconnected(1)),
    ];
    gs.on_process(&mut w, true, &vec![], &echoes, 0);
    assert_eq!(gs.enemy_entity(7), Some(e));
    assert_eq!(w.get(e).unwrap(), &rec);
}

#[test]
fn elimination_after_cumulative_decay() {
    let (mut gs, mut w) = session();
    gs.on_process(&mut w, true, &vec![], &vec![Ok(GameMessage::NewPlayer(info(7, "A", 400, 0, 0)))], 0);
    let e = gs.enemy_entity(7).unwrap();

    let removed = TimeSystem::run(&mut w, 300);
    assert!(removed.is_empty());
    assert_eq!(w.get(e).unwrap().time, Some(Time(100)));

    let removed = TimeSystem::run(&mut w, 300);
    assert_eq!(removed, vec![e]);
    assert!(w.get(e).is_none());

    gs.on_process(&mut w, true, &removed, &vec![], 0);
    assert!(!gs.owns(e));
    assert_eq!(gs.enemy_entity(7), None);
    assert!(gs.no_enemies());
}

#[test]
fn reannounce_after_reap_is_a_fresh_join() {
    let (mut gs, mut w) = session();
    gs.on_process(&mut w, true, &vec![], &vec![Ok(GameMessage::NewPlayer(info(7, "A", 400, 0, 0)))], 0);
    let e = gs.enemy_entity(7).unwrap();
    let removed = TimeSystem::run(&mut w, 400);
    assert_eq!(removed, vec![e]);

    // The reap and the re-announce arrive in the same tick: the reap is
    // ordered first, so the announce registers a fresh entity.
    gs.on_process(
        &mut w,
        true,
        &removed,
        &vec![Ok(GameMessage::NewPlayer(info(7, "A", 400, 0, 0)))],
        0,
    );
    let e2 = gs.enemy_entity(7).expect("the re-announce registers id 7 again");
    assert_ne!(e, e2);
}

#[test]
fn heartbeat_fires_on_crossing_and_does_not_double_fire() {
    let (mut gs, mut w) = session();
    gs.on_enter(&mut w);
    assert_eq!(gs.send_timer(), 0);

    // The accumulator starts spent, so the first tick sends.
    let out = gs.on_process(&mut w, true, &vec![], &vec![], 100);
    assert_eq!(out.change, StateChange::Stay);
    assert!(out.send.is_some());
    assert_eq!(gs.send_timer(), SEND_STATE_DELAY);

    // Below the interval: no send, the accumulator just falls.
    let out = gs.on_process(&mut w, true, &vec![], &vec![], 300);
    assert!(out.send.is_none());
    assert_eq!(gs.send_timer(), SEND_STATE_DELAY - 300);

    // The next tick crosses the interval: exactly one send, and a reset.
    let out = gs.on_process(&mut w, true, &vec![], &vec![], 300);
    assert!(out.send.is_some());
    assert_eq!(gs.send_timer(), SEND_STATE_DELAY);
}

#[test]
fn heartbeat_carries_the_local_state() {
    let (mut gs, mut w) = session();
    gs.on_enter(&mut w);
    let out = gs.on_process(&mut w, true, &vec![], &vec![], 100);
    let sent = out.send.expect("the first tick crosses the spent accumulator");
    assert_eq!(sent, state(1, 5000, 0, 0, 0, 0));
}

#[test]
fn scenario_join_update_disconnect() {
    let (mut gs, mut w) = session();
    gs.on_enter(&mut w);

    gs.on_process(&mut w, true, &vec![], &vec![Ok(GameMessage::NewPlayer(info(2, "A", 5000, 0, 0)))], 10);
    let e = gs.enemy_entity(2).expect("one entity created");
    let rec = w.get(e).unwrap();
    assert_eq!(rec.transform, Some(Vec2 { x: 0, y: 0 }));
    assert_eq!(rec.time, Some(Time(5000)));

    gs.on_process(
        &mut w,
        true,
        &vec![],
        &vec![Ok(GameMessage::PlayerState(state(2, 4500, 10000, 0, 10000, 0)))],
        10,
    );
    assert_eq!(gs.enemy_entity(2), Some(e));
    let rec = w.get(e).unwrap();
    assert_eq!(rec.transform, Some(Vec2 { x: 10000, y: 0 }));
    assert_eq!(rec.time, Some(Time(4500)));
    assert_eq!(rec.velocity.unwrap().0, Vec2 { x: 10000, y: 0 });

    gs.on_process(&mut w, true, &vec![], &vec![Ok(GameMessage::PlayerDisconnected(2))], 10);
    assert_eq!(gs.enemy_entity(2), None);
    assert!(w.get(e).is_none());
    assert!(gs.no_enemies());
}

#[test]
fn snapshot_for_unknown_id_is_ignored() {
    let (mut gs, mut w) = session();
    let next = w.next_handle();
    gs.on_process(&mut w, true, &vec![], &vec![Ok(GameMessage::PlayerState(state(9, 1, 1, 1, 1, 1)))], 0);
    assert!(gs.no_enemies());
    assert_eq!(w.next_handle(), next);
}

#[test]
fn decode_failure_is_isolated_from_the_batch() {
    let (mut gs, mut w) = session();
    let inbound = vec![
        Err(DecodeError::UnexpectedEnd),
        Ok(GameMessage::NewPlayer(info(9, "B", 5000, 0, 0))),
    ];
    gs.on_process(&mut w, true, &vec![], &inbound, 0);
    assert!(gs.enemy_entity(9).is_some());
}

#[test]
fn player_eat_adjusts_the_local_countdown_only() {
    let (mut gs, mut w) = session();
    gs.on_enter(&mut w);
    gs.on_process(&mut w, true, &vec![], &vec![Ok(GameMessage::NewPlayer(info(7, "A", 4000, 0, 0)))], 0);
    let enemy = gs.enemy_entity(7).unwrap();
    let player = gs.player().unwrap();

    gs.on_process(&mut w, true, &vec![], &vec![Ok(GameMessage::PlayerEat(250))], 0);
    assert_eq!(w.get(player).unwrap().time, Some(Time(5250)));
    assert_eq!(w.get(enemy).unwrap().time, Some(Time(4000)));

    // A negative amount is applied without clamping.
    gs.on_process(&mut w, true, &vec![], &vec![Ok(GameMessage::PlayerEat(-6000))], 0);
    assert_eq!(w.get(player).unwrap().time, Some(Time(-750)));
}

#[test]
fn spent_local_countdown_closes_and_returns_to_lobby() {
    let (mut gs, mut w) = session();
    gs.on_enter(&mut w);
    // The countdown is checked right after the messages apply, in the same
    // tick: eating the whole countdown away ends the session at once.
    let out = gs.on_process(&mut w, true, &vec![], &vec![Ok(GameMessage::PlayerEat(-6000))], 0);
    assert_eq!(out.change, StateChange::ReturnToLobby);
    assert!(out.close);
    assert!(out.send.is_none());
}

#[test]
fn dead_channel_returns_to_lobby_at_once() {
    let (mut gs, mut w) = session();
    gs.on_enter(&mut w);
    let out = gs.on_process(&mut w, false, &vec![], &vec![], 100);
    assert_eq!(out.change, StateChange::ReturnToLobby);
    assert!(!out.close);
    assert!(out.send.is_none());
}

#[test]
fn init_player_and_unknown_are_ignored_mid_session() {
    let (mut gs, mut w) = session();
    let next = w.next_handle();
    let inbound = vec![
        Ok(GameMessage::Unknown),
        Ok(GameMessage::InitPlayer(info(4, "X", 9000, 0, 0))),
    ];
    gs.on_process(&mut w, true, &vec![], &inbound, 0);
    assert!(gs.no_enemies());
    assert_eq!(w.next_handle(), next);
}

#[test]
fn entering_the_scene_builds_avatar_water_and_camera() {
    let (mut gs, mut w) = session();
    gs.on_enter(&mut w);
    let player = gs.player().expect("entering the scene creates the avatar");

    let rec = w.get(player).unwrap();
    assert_eq!(rec.transform, Some(Vec2 { x: 0, y: 0 }));
    assert_eq!(rec.time, Some(Time(5000)));
    assert_eq!(rec.speed, Some(Speed(PLAYER_SPEED)));
    assert!(rec.player_controller.is_some());
    assert!(rec.player_tag.is_some());

    // The two entities after the avatar's labels: the tiled water snapping to
    // the grid under the avatar, and the camera sticking to it.
    let water = player + 3;
    let camera = player + 4;
    let follow = w.get(water).unwrap().follow.expect("the water follows the avatar");
    assert_eq!(follow.entity, player);
    assert_eq!(
        follow.mode,
        FollowMode::SnapToGrid(Vec2 { x: WATER_GRID, y: WATER_GRID }, 0, 0)
    );
    let follow = w.get(camera).unwrap().follow.expect("the camera follows the avatar");
    assert_eq!(follow.entity, player);
    assert_eq!(follow.mode, FollowMode::Stick);
    assert!(gs.owns(player) && gs.owns(water) && gs.owns(camera));
}

#[test]
fn teardown_destroys_everything_it_created() {
    let (mut gs, mut w) = session();
    gs.on_enter(&mut w);
    gs.on_process(&mut w, true, &vec![], &vec![Ok(GameMessage::NewPlayer(info(7, "A", 4000, 0, 0)))], 0);
    let player = gs.player().unwrap();
    let enemy = gs.enemy_entity(7).unwrap();

    gs.on_exit(&mut w);
    assert!(!w.contains(player));
    assert!(w.get(player).is_none());
    assert!(w.get(enemy).is_none());
    assert!(!gs.owns(player));
    assert!(!gs.owns(enemy));
}
