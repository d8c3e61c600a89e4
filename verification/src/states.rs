//! The loading and lobby screens' decision logic.
//!
//! What the screens draw, and the opening of the connection itself, are the
//! outside's business; these states decide, from what the outside reports,
//! when to advance and with what session.
use vstd::prelude::*;
use vstd::string::StringExecFns;
use crate::codec::DecodeError;
use crate::fixed::Vec2;
use crate::game::GameMessage;
use crate::game::GameState;
use crate::game::PlayerInfoFxView;
use crate::game::spec_fresh_session;
use crate::registry::EntitySet;
use crate::world::EntityRec;
use crate::world::EntityRecView;
use crate::world::World;
use crate::world::spec_empty_rec;

verus! {

/// The record of a screen's fixed camera.
pub open spec fn spec_screen_camera_rec() -> EntityRecView {
    EntityRecView { transform: Some(Vec2 { x: 0, y: 0 }), ..spec_empty_rec() }
}

/// The record of a screen's banner label.
pub open spec fn spec_banner_rec(text: Seq<char>) -> EntityRecView {
    EntityRecView {
        transform: Some(Vec2 { x: 0, y: 300000 }),
        text: Some(text),
        ..spec_empty_rec()
    }
}

/// A screen's scene: a fixed camera and a banner label, spawned on entry and
/// destroyed exactly once on exit.
pub open spec fn spec_screen_enter(w: crate::world::WorldView, banner: Seq<char>) -> (
    Set<u64>,
    crate::world::WorldView,
) {
    let camera = w.next_handle;
    let label = (w.next_handle + 1) as u64;
    (
        Set::<u64>::empty().insert(camera).insert(label),
        crate::world::WorldView {
            next_handle: (w.next_handle + 2) as u64,
            entities: w.entities.insert(camera, spec_screen_camera_rec()).insert(
                label,
                spec_banner_rec(banner),
            ),
        },
    )
}

/// Spawns a screen's camera and banner and records them in the owned set.
fn enter_screen(entities: &mut EntitySet, world: &mut World, banner: &str)
    requires
        old(world)@.next_handle <= u64::MAX - 2,
        old(entities)@ == Set::<u64>::empty(),
    ensures
        (final(entities)@, final(world)@) == spec_screen_enter(old(world)@, banner@),
{
    let mut camera_rec = EntityRec::empty();
    camera_rec.transform = Some(Vec2 { x: 0, y: 0 });
    let camera = world.spawn(camera_rec);
    entities.insert(camera);

    let mut label_rec = EntityRec::empty();
    label_rec.transform = Some(Vec2 { x: 0, y: 300000 });
    label_rec.text = Some(String::from_str(banner));
    let label = world.spawn(label_rec);
    entities.insert(label);

    proof {
        assert(entities@ =~= spec_screen_enter(old(world)@, banner@).0);
        assert(world@ =~= spec_screen_enter(old(world)@, banner@).1);
    }
}

/// The loading screen: shows a banner and waits for the asset collaborator to
/// report readiness.
pub struct LoadingState {
    entities: EntitySet,
}

impl LoadingState {
    pub fn new() -> (r: LoadingState)
        ensures
            r.entities_view() == Set::<u64>::empty(),
    {
        LoadingState { entities: EntitySet::new() }
    }

    /// The entities this screen owns.
    pub closed spec fn entities_view(self) -> Set<u64> {
        self.entities@
    }

    /// Builds the screen's scene.
    pub fn on_enter(&mut self, world: &mut World)
        requires
            old(world)@.next_handle <= u64::MAX - 2,
            old(self).entities_view() == Set::<u64>::empty(),
        ensures
            (final(self).entities_view(), final(world)@) == spec_screen_enter(
                old(world)@,
                "Loading..."@,
            ),
    {
        enter_screen(&mut self.entities, world, "Loading...");
    }

    /// Tears the screen's scene down.
    pub fn on_exit(&mut self, world: &mut World)
        ensures
            final(self).entities_view() == Set::<u64>::empty(),
            final(world)@.next_handle == old(world)@.next_handle,
            final(world)@.entities == old(world)@.entities.remove_keys(
                old(self).entities_view(),
            ),
    {
        self.entities.despawn_all(world);
    }

    /// Advances to the lobby exactly when the assets are ready.
    pub fn on_process(&self, assets_ready: bool) -> (advance: bool)
        ensures
            advance == assets_ready,
    {
        assets_ready
    }
}

/// Whether a decoded message is a server `InitPlayer` announcement.
pub open spec fn spec_is_init(m: Result<GameMessage, DecodeError>) -> bool {
    match m {
        Ok(GameMessage::InitPlayer(_)) => true,
        _ => false,
    }
}

/// The announcement an `InitPlayer` message carries.
pub open spec fn spec_init_info(m: Result<GameMessage, DecodeError>) -> PlayerInfoFxView
    recommends
        spec_is_init(m),
{
    match m {
        Ok(GameMessage::InitPlayer(info)) => info@,
        _ => arbitrary(),
    }
}

/// What the lobby asks of the outside this tick.
pub enum LobbyAction {
    /// No channel is held: open one and report the handle next tick.
    Open,
    /// Keep waiting on the held channel.
    Stay,
    /// The server announced this client: enter the game with this session.
    StartGame(GameState),
}

/// The lobby screen: shows a banner, holds at most one pending channel and
/// waits for the server's `InitPlayer` announcement on it.
pub struct LobbyState {
    client: Option<u64>,
    entities: EntitySet,
}

impl LobbyState {
    /// A lobby holding no channel.
    pub fn new() -> (r: LobbyState)
        ensures
            r.client_view() is None,
            r.entities_view() == Set::<u64>::empty(),
    {
        LobbyState { client: None, entities: EntitySet::new() }
    }

    /// The channel the lobby currently holds.
    pub closed spec fn client_view(self) -> Option<u64> {
        self.client
    }

    /// The entities this screen owns.
    pub closed spec fn entities_view(self) -> Set<u64> {
        self.entities@
    }

    /// Builds the screen's scene.
    pub fn on_enter(&mut self, world: &mut World)
        requires
            old(world)@.next_handle <= u64::MAX - 2,
            old(self).entities_view() == Set::<u64>::empty(),
        ensures
            final(self).client_view() == old(self).client_view(),
            (final(self).entities_view(), final(world)@) == spec_screen_enter(
                old(world)@,
                "Connecting..."@,
            ),
    {
        enter_screen(&mut self.entities, world, "Connecting...");
    }

    /// Tears the screen's scene down.
    pub fn on_exit(&mut self, world: &mut World)
        ensures
            final(self).client_view() == old(self).client_view(),
            final(self).entities_view() == Set::<u64>::empty(),
            final(world)@.next_handle == old(world)@.next_handle,
            final(world)@.entities == old(world)@.entities.remove_keys(
                old(self).entities_view(),
            ),
    {
        self.entities.despawn_all(world);
    }

    /// One tick of the lobby. `opened` is the channel the outside opened
    /// since last tick (if it was asked to); `has_client` whether the held
    /// channel is still up; `inbound` the decoded messages drained from it.
    ///
    /// The first `InitPlayer` in the batch starts a fresh session on the held
    /// channel; a dead channel is dropped and a new one requested; everything
    /// else waits.
    pub fn on_process(
        &mut self,
        opened: Option<u64>,
        has_client: bool,
        inbound: &Vec<Result<GameMessage, DecodeError>>,
    ) -> (r: LobbyAction)
        ensures
            match r {
                LobbyAction::StartGame(gs) => {
                    &&& old(self).client_view() is Some || opened is Some
                    &&& has_client
                    &&& final(self).client_view() is None
                    &&& exists|idx: int|
                        {
                            &&& 0 <= idx < inbound@.len()
                            &&& #[trigger] spec_is_init(inbound@[idx])
                            &&& forall|j: int| 0 <= j < idx ==> !spec_is_init(inbound@[j])
                            &&& gs@ == spec_fresh_session(
                                (if old(self).client_view() is Some {
                                    old(self).client_view().unwrap()
                                } else {
                                    opened.unwrap()
                                }),
                                spec_init_info(inbound@[idx]),
                            )
                        }
                },
                LobbyAction::Open => {
                    &&& final(self).client_view() is None
                    &&& ((old(self).client_view() is None && opened is None) || !has_client)
                },
                LobbyAction::Stay => {
                    &&& final(self).client_view() == (if old(self).client_view() is Some {
                        old(self).client_view()
                    } else {
                        opened
                    })
                    &&& final(self).client_view() is Some
                    &&& has_client
                    &&& forall|j: int| 0 <= j < inbound@.len() ==> !spec_is_init(inbound@[j])
                },
            },
    {
        if self.client.is_none() {
            self.client = opened;
        }
        match self.client {
            None => LobbyAction::Open,
            Some(c) => {
                if !has_client {
                    self.client = None;
                    return LobbyAction::Open;
                }
                let n = inbound.len();
                let mut i: usize = 0;
                while i < n
                    invariant
                        i <= n,
                        n == inbound@.len(),
                        forall|j: int| 0 <= j < i ==> !spec_is_init(inbound@[j]),
                        self.client == Some(c),
                        has_client,
                        Some(c) == (if old(self).client_view() is Some {
                            old(self).client_view()
                        } else {
                            opened
                        }),
                    decreases n - i,
                {
                    let msg = &inbound[i];
                    match msg {
                        Ok(GameMessage::InitPlayer(info)) => {
                            self.client = None;
                            let session = GameState::new(c, crate::game::clone_info(info));
                            proof {
                                assert(spec_is_init(inbound@[i as int]));
                                assert(spec_init_info(inbound@[i as int]) == info@);
                                assert(session@ == spec_fresh_session(
                                    c,
                                    spec_init_info(inbound@[i as int]),
                                ));
                            }
                            return LobbyAction::StartGame(session);
                        },
                        _ => {
                        },
                    }
                    i = i + 1;
                }
                LobbyAction::Stay
            },
        }
    }
}

} // verus!
