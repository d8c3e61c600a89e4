//! The loading and lobby screens' decision logic and scenes.
use netplay::fixed::Vec2;
use netplay::game::GameMessage;
use netplay::game::PlayerInfoFx;
use netplay::states::LoadingState;
use netplay::states::LobbyAction;
use netplay::states::LobbyState;
use netplay::world::World;

fn init(id: u32, time: i64) -> GameMessage {
    GameMessage::InitPlayer(PlayerInfoFx {
        id,
        name: "me".to_string(),
        time,
        position: Vec2 { x: 0, y: 0 },
    })
}

#[test]
fn loading_advances_exactly_when_assets_are_ready() {
    let loading = LoadingState::new();
    assert!(!loading.on_process(false));
    assert!(loading.on_process(true));
}

#[test]
fn lobby_asks_for_a_channel_when_it_holds_none() {
    let mut lobby = LobbyState::new();
    assert!(matches!(lobby.on_process(None, false, &vec![]), LobbyAction::Open));
}

#[test]
fn lobby_waits_on_a_live_channel() {
    let mut lobby = LobbyState::new();
    assert!(matches!(lobby.on_process(Some(5), true, &vec![]), LobbyAction::Stay));
    // The held channel persists across ticks.
    assert!(matches!(lobby.on_process(None, true, &vec![]), LobbyAction::Stay));
}

#[test]
fn lobby_drops_a_dead_channel_and_asks_again() {
    let mut lobby = LobbyState::new();
    assert!(matches!(lobby.on_process(Some(5), true, &vec![]), LobbyAction::Stay));
    assert!(matches!(lobby.on_process(None, false, &vec![]), LobbyAction::Open));
}

#[test]
fn lobby_starts_the_game_on_init_player() {
    let mut lobby = LobbyState::new();
    let inbound = vec![Ok(GameMessage::Unknown), Ok(init(3, 30_000))];
    match lobby.on_process(Some(5), true, &inbound) {
        LobbyAction::StartGame(gs) => {
            assert_eq!(gs.local_id(), 3);
            assert_eq!(gs.client(), 5);
            assert_eq!(gs.send_timer(), 0);
            assert!(gs.player().is_none());
            assert!(gs.no_enemies());
        },
        other => panic!("expected a session, got {:?}", matches!(other, LobbyAction::Open)),
    }
}

#[test]
fn loading_scene_is_built_and_torn_down() {
    let mut w = World::new();
    let mut loading = LoadingState::new();
    let camera = w.next_handle();
    loading.on_enter(&mut w);
    let label = camera + 1;
    assert_eq!(w.get(camera).unwrap().transform, Some(Vec2 { x: 0, y: 0 }));
    assert_eq!(w.get(label).unwrap().text.as_deref(), Some("Loading..."));
    loading.on_exit(&mut w);
    assert!(w.get(camera).is_none());
    assert!(w.get(label).is_none());
}

#[test]
fn lobby_scene_is_built_and_torn_down() {
    let mut w = World::new();
    let mut lobby = LobbyState::new();
    let camera = w.next_handle();
    lobby.on_enter(&mut w);
    let label = camera + 1;
    assert_eq!(w.get(label).unwrap().text.as_deref(), Some("Connecting..."));
    lobby.on_exit(&mut w);
    assert!(w.get(camera).is_none());
    assert!(w.get(label).is_none());
}

#[test]
fn lobby_ignores_other_messages() {
    let mut lobby = LobbyState::new();
    let inbound = vec![Ok(GameMessage::PlayerDisconnected(1)), Ok(GameMessage::PlayerEat(5))];
    assert!(matches!(lobby.on_process(Some(5), true, &inbound), LobbyAction::Stay));
}
