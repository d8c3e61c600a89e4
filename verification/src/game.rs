//! The reconciliation engine.
//!
//! A [`GameState`] owns one active game session: the local player's identity,
//! the handle of every entity it created, and the registry mapping each remote
//! player id to its local entity. Each tick it consumes the channel's alive
//! flag, the entities reaped since last tick, the decoded inbound messages and
//! the elapsed time, mutates the entity store, and answers with a transition
//! signal and at most one outbound heartbeat.
//!
//! Every mutation is specified by a spec-level transition function
//! ([`spec_tick`] and its parts) and the executable methods are proved equal
//! to them, so the session's laws (idempotent joins, self-exclusion, heartbeat
//! cadence) are theorems about the transition functions.
use vstd::prelude::*;
use crate::codec::DecodeError;
use crate::components::EnemyController;
use crate::components::EnemyTag;
use crate::components::Follow;
use crate::components::FollowMode;
use crate::components::OwnedBy;
use crate::components::PlayerController;
use crate::components::PlayerTag;
use crate::components::Speed;
use crate::components::Time;
use crate::components::TimerTag;
use crate::components::Velocity;
use crate::fixed::Fx;
use crate::fixed::FX_ONE;
use crate::fixed::Vec2;
use crate::fixed::fx_add;
use crate::fixed::fx_sub;
use crate::fixed::spec_add;
use crate::fixed::spec_sub;
use crate::registry::EntitySet;
use crate::registry::Registry;
use crate::registry::spec_prune;
use crate::world::EntityRec;
use crate::world::EntityRecView;
use crate::world::World;
use crate::world::WorldView;
use crate::world::clone_rec;

verus! {

/// The local player's movement speed, in units per second.
pub const PLAYER_SPEED: Fx = 400 * FX_ONE;

/// The cell size of the background tiling grid, in units.
pub const WATER_GRID: Fx = 128 * FX_ONE;

/// The heartbeat interval, in seconds: how often the local player's state is
/// pushed to the server. A tuning constant, not a protocol invariant.
pub const SEND_STATE_DELAY: Fx = 500;

/// A player announcement in simulation terms: scalars are fixed-point.
#[derive(Debug, Clone, PartialEq)]
pub struct PlayerInfoFx {
    pub id: u32,
    pub name: String,
    pub time: Fx,
    pub position: Vec2,
}

/// The mathematical value of a [`PlayerInfoFx`].
#[verifier::ext_equal]
pub struct PlayerInfoFxView {
    pub id: u32,
    pub name: Seq<char>,
    pub time: Fx,
    pub position: Vec2,
}

impl View for PlayerInfoFx {
    type V = PlayerInfoFxView;

    open spec fn view(&self) -> PlayerInfoFxView {
        PlayerInfoFxView {
            id: self.id,
            name: self.name@,
            time: self.time,
            position: self.position,
        }
    }
}

/// A kinematic snapshot in simulation terms: scalars are fixed-point.
#[derive(Clone, Copy, Debug, PartialEq, Eq, Structural)]
pub struct PlayerStateFx {
    pub id: u32,
    pub time: Fx,
    pub position: Vec2,
    pub velocity: Vec2,
}

/// A decoded inbound message in simulation terms.
#[derive(Debug, Clone, PartialEq)]
pub enum GameMessage {
    Unknown,
    InitPlayer(PlayerInfoFx),
    NewPlayer(PlayerInfoFx),
    PlayerState(PlayerStateFx),
    PlayerDisconnected(u32),
    PlayerEat(Fx),
}

/// The mathematical value of a [`GameMessage`].
pub enum GameMessageView {
    Unknown,
    InitPlayer(PlayerInfoFxView),
    NewPlayer(PlayerInfoFxView),
    PlayerState(PlayerStateFx),
    PlayerDisconnected(u32),
    PlayerEat(Fx),
}

impl View for GameMessage {
    type V = GameMessageView;

    open spec fn view(&self) -> GameMessageView {
        match self {
            GameMessage::Unknown => GameMessageView::Unknown,
            GameMessage::InitPlayer(info) => GameMessageView::InitPlayer(info@),
            GameMessage::NewPlayer(info) => GameMessageView::NewPlayer(info@),
            GameMessage::PlayerState(st) => GameMessageView::PlayerState(*st),
            GameMessage::PlayerDisconnected(id) => GameMessageView::PlayerDisconnected(*id),
            GameMessage::PlayerEat(amount) => GameMessageView::PlayerEat(*amount),
        }
    }
}

/// The transition signal a tick emits toward the scene shell.
#[derive(Clone, Copy, Debug, PartialEq, Eq, Structural)]
pub enum StateChange {
    /// Keep running the session.
    Stay,
    /// The session is over: return to the lobby screen.
    ReturnToLobby,
}

/// What one tick asks of the outside: the transition signal, whether to close
/// the channel, and at most one heartbeat to send.
#[derive(Clone, Copy, Debug, PartialEq, Eq, Structural)]
pub struct TickOutcome {
    pub change: StateChange,
    pub close: bool,
    pub send: Option<PlayerStateFx>,
}

/// One active game session.
pub struct GameState {
    client: u64,
    info: PlayerInfoFx,
    entities: EntitySet,
    water: Option<u64>,
    camera: Option<u64>,
    player: Option<u64>,
    enemies: Registry,
    send_state_timer: Fx,
}

/// The mathematical value of a [`GameState`].
#[verifier::ext_equal]
pub struct GameStateView {
    pub client: u64,
    pub info: PlayerInfoFxView,
    pub entities: Set<u64>,
    pub water: Option<u64>,
    pub camera: Option<u64>,
    pub player: Option<u64>,
    pub enemies: Map<u32, u64>,
    pub send_state_timer: Fx,
}

impl View for GameState {
    type V = GameStateView;

    closed spec fn view(&self) -> GameStateView {
        GameStateView {
            client: self.client,
            info: self.info@,
            entities: self.entities@,
            water: self.water,
            camera: self.camera,
            player: self.player,
            enemies: self.enemies@,
            send_state_timer: self.send_state_timer,
        }
    }
}

/// The record of a freshly joined remote player.
pub open spec fn spec_enemy_rec(info: PlayerInfoFxView) -> EntityRecView {
    EntityRecView {
        transform: Some(info.position),
        velocity: Some(Velocity(Vec2 { x: 0, y: 0 })),
        speed: None,
        time: Some(Time(info.time)),
        follow: None,
        owned_by: None,
        player_controller: None,
        enemy_controller: Some(EnemyController(info.id)),
        player_tag: None,
        enemy_tag: Some(EnemyTag),
        timer_tag: None,
        text: None,
    }
}

/// The record of the local player's avatar.
pub open spec fn spec_player_rec(info: PlayerInfoFxView) -> EntityRecView {
    EntityRecView {
        transform: Some(info.position),
        velocity: Some(Velocity(Vec2 { x: 0, y: 0 })),
        speed: Some(Speed(PLAYER_SPEED)),
        time: Some(Time(info.time)),
        follow: None,
        owned_by: None,
        player_controller: Some(PlayerController(info.id)),
        enemy_controller: None,
        player_tag: Some(PlayerTag),
        enemy_tag: None,
        timer_tag: None,
        text: None,
    }
}

/// The record of a name label.
pub open spec fn spec_name_label_rec(pos: Vec2, name: Seq<char>) -> EntityRecView {
    EntityRecView {
        transform: Some(pos),
        velocity: None,
        speed: None,
        time: None,
        follow: None,
        owned_by: None,
        player_controller: None,
        enemy_controller: None,
        player_tag: None,
        enemy_tag: None,
        timer_tag: None,
        text: Some(name),
    }
}

/// The record of a timer label displaying the countdown of `owner`.
pub open spec fn spec_timer_label_rec(owner: u64, pos: Vec2) -> EntityRecView {
    EntityRecView {
        transform: Some(pos),
        velocity: None,
        speed: None,
        time: None,
        follow: None,
        owned_by: Some(OwnedBy(owner)),
        player_controller: None,
        enemy_controller: None,
        player_tag: None,
        enemy_tag: None,
        timer_tag: Some(TimerTag),
        text: Some(Seq::empty()),
    }
}

/// The record of the tiled background, snapping to the grid under `target`.
pub open spec fn spec_water_rec(target: u64) -> EntityRecView {
    EntityRecView {
        transform: Some(Vec2 { x: 0, y: 0 }),
        velocity: None,
        speed: None,
        time: None,
        follow: Some(
            Follow {
                entity: target,
                mode: FollowMode::SnapToGrid(Vec2 { x: WATER_GRID, y: WATER_GRID }, 0, 0),
            },
        ),
        owned_by: None,
        player_controller: None,
        enemy_controller: None,
        player_tag: None,
        enemy_tag: None,
        timer_tag: None,
        text: None,
    }
}

/// The record of the camera, sticking to `target`.
pub open spec fn spec_camera_rec(target: u64) -> EntityRecView {
    EntityRecView {
        transform: Some(Vec2 { x: 0, y: 0 }),
        velocity: None,
        speed: None,
        time: None,
        follow: Some(Follow { entity: target, mode: FollowMode::Stick }),
        owned_by: None,
        player_controller: None,
        enemy_controller: None,
        player_tag: None,
        enemy_tag: None,
        timer_tag: None,
        text: None,
    }
}

/// Joining a remote player: ignored if its countdown is already spent, if it
/// is the local player, or if its id is already registered; otherwise creates
/// the remote entity with its name and timer labels and registers it.
pub open spec fn spec_create_enemy(s: GameStateView, w: WorldView, info: PlayerInfoFxView) -> (
    GameStateView,
    WorldView,
) {
    if info.time <= 0 || info.id == s.info.id || s.enemies.dom().contains(info.id) {
        (s, w)
    } else {
        let enemy = w.next_handle;
        let name_label = (w.next_handle + 1) as u64;
        let timer_label = (w.next_handle + 2) as u64;
        (
            GameStateView {
                entities: s.entities.insert(enemy).insert(name_label).insert(timer_label),
                enemies: s.enemies.insert(info.id, enemy),
                ..s
            },
            WorldView {
                next_handle: (w.next_handle + 3) as u64,
                entities: w.entities.insert(enemy, spec_enemy_rec(info)).insert(
                    name_label,
                    spec_name_label_rec(info.position, info.name),
                ).insert(timer_label, spec_timer_label_rec(enemy, info.position)),
            },
        )
    }
}

/// A full snapshot overwrite of the fields the remote entity carries.
pub open spec fn spec_update_rec(rec: EntityRecView, st: PlayerStateFx) -> EntityRecView {
    EntityRecView {
        transform: if rec.transform is Some {
            Some(st.position)
        } else {
            None
        },
        velocity: if rec.velocity is Some {
            Some(Velocity(st.velocity))
        } else {
            None
        },
        time: if rec.time is Some {
            Some(Time(st.time))
        } else {
            None
        },
        ..rec
    }
}

/// A remote snapshot: ignored for the local player's own id (a client never
/// applies server echoes of its own state) and for unregistered ids;
/// otherwise overwrites the remote entity's countdown, velocity and position.
pub open spec fn spec_update_enemy(s: GameStateView, w: WorldView, st: PlayerStateFx) -> WorldView {
    if st.id == s.info.id {
        w
    } else if s.enemies.dom().contains(st.id) {
        let e = s.enemies[st.id];
        if w.entities.dom().contains(e) {
            WorldView { entities: w.entities.insert(e, spec_update_rec(w.entities[e], st)), ..w }
        } else {
            w
        }
    } else {
        w
    }
}

/// A remote player leaving: unregisters it and destroys its entity.
pub open spec fn spec_destroy_enemy(s: GameStateView, w: WorldView, id: u32) -> (
    GameStateView,
    WorldView,
) {
    if s.enemies.dom().contains(id) {
        let e = s.enemies[id];
        (
            GameStateView { entities: s.entities.remove(e), enemies: s.enemies.remove(id), ..s },
            WorldView { entities: w.entities.remove(e), ..w },
        )
    } else {
        (s, w)
    }
}

/// Eating: adds the amount (possibly negative) to the local player's
/// countdown only; remote entities are never affected.
pub open spec fn spec_player_eat(s: GameStateView, w: WorldView, amount: Fx) -> WorldView {
    match s.player {
        None => w,
        Some(p) => {
            if w.entities.dom().contains(p) && w.entities[p].time is Some {
                let rec = w.entities[p];
                WorldView {
                    entities: w.entities.insert(
                        p,
                        EntityRecView {
                            time: Some(Time(spec_add(rec.time.unwrap().0 as int, amount as int) as i64)),
                            ..rec
                        },
                    ),
                    ..w
                }
            } else {
                w
            }
        },
    }
}

/// What one inbound message does to the session. `InitPlayer` and `Unknown`
/// are not meaningful once a session is active and are ignored.
pub open spec fn spec_apply(s: GameStateView, w: WorldView, m: GameMessageView) -> (
    GameStateView,
    WorldView,
) {
    match m {
        GameMessageView::NewPlayer(info) => spec_create_enemy(s, w, info),
        GameMessageView::PlayerState(st) => (s, spec_update_enemy(s, w, st)),
        GameMessageView::PlayerDisconnected(id) => if id == s.info.id {
            (s, w)
        } else {
            spec_destroy_enemy(s, w, id)
        },
        GameMessageView::PlayerEat(amount) => (s, spec_player_eat(s, w, amount)),
        GameMessageView::InitPlayer(_) => (s, w),
        GameMessageView::Unknown => (s, w),
    }
}

/// The session a fresh `InitPlayer` announcement starts: nothing created yet,
/// nobody registered, the heartbeat due at once.
pub open spec fn spec_fresh_session(client: u64, info: PlayerInfoFxView) -> GameStateView {
    GameStateView {
        client,
        info,
        entities: Set::<u64>::empty(),
        water: None,
        camera: None,
        player: None,
        enemies: Map::<u32, u64>::empty(),
        send_state_timer: 0,
    }
}

impl GameState {
    /// A fresh session for the local player the server announced.
    pub fn new(client: u64, info: PlayerInfoFx) -> (s: GameState)
        ensures
            s@ == spec_fresh_session(client, info@),
    {
        GameState {
            client,
            info,
            entities: EntitySet::new(),
            water: None,
            camera: None,
            player: None,
            enemies: Registry::new(),
            send_state_timer: 0,
        }
    }

    /// The channel handle this session talks over.
    pub fn client(&self) -> (r: u64)
        ensures
            r == self@.client,
    {
        self.client
    }

    /// The local player's server-assigned id.
    pub fn local_id(&self) -> (r: u32)
        ensures
            r == self@.info.id,
    {
        self.info.id
    }

    /// The local player's avatar, once the scene is entered.
    pub fn player(&self) -> (r: Option<u64>)
        ensures
            r == self@.player,
    {
        self.player
    }

    /// The entity registered for a remote player id.
    pub fn enemy_entity(&self, id: u32) -> (r: Option<u64>)
        ensures
            match r {
                Some(e) => self@.enemies.dom().contains(id) && self@.enemies[id] == e,
                None => !self@.enemies.dom().contains(id),
            },
    {
        self.enemies.get(id)
    }

    /// Whether no remote player is registered.
    pub fn no_enemies(&self) -> (r: bool)
        ensures
            r <==> self@.enemies == Map::<u32, u64>::empty(),
    {
        self.enemies.is_empty()
    }

    /// Whether the session owns (created and not yet torn down) an entity.
    pub fn owns(&self, e: u64) -> (r: bool)
        ensures
            r == self@.entities.contains(e),
    {
        self.entities.contains(e)
    }

    /// The heartbeat countdown until the next send.
    pub fn send_timer(&self) -> (r: Fx)
        ensures
            r == self@.send_state_timer,
    {
        self.send_state_timer
    }

    /// Joins a remote player (see [`spec_create_enemy`]).
    pub fn create_enemy(&mut self, info: PlayerInfoFx, world: &mut World)
        requires
            old(world)@.next_handle <= u64::MAX - 3,
        ensures
            (final(self)@, final(world)@) == spec_create_enemy(old(self)@, old(world)@, info@),
    {
        if info.time <= 0 {
            return ;
        }
        if info.id == self.info.id {
            return ;
        }
        if self.enemies.contains(info.id) {
            return ;
        }
        let ghost target = spec_create_enemy(old(self)@, old(world)@, info@);
        let pos = info.position;
        let id = info.id;
        let time = info.time;

        let mut enemy_rec = EntityRec::empty();
        enemy_rec.transform = Some(pos);
        enemy_rec.velocity = Some(Velocity(Vec2 { x: 0, y: 0 }));
        enemy_rec.time = Some(Time(time));
        enemy_rec.enemy_controller = Some(EnemyController::new(id));
        enemy_rec.enemy_tag = Some(EnemyTag);
        let enemy = world.spawn(enemy_rec);
        self.entities.insert(enemy);
        self.enemies.insert(id, enemy);

        let mut name_rec = EntityRec::empty();
        name_rec.transform = Some(pos);
        name_rec.text = Some(info.name);
        let name_label = world.spawn(name_rec);
        self.entities.insert(name_label);

        let mut timer_rec = EntityRec::empty();
        timer_rec.transform = Some(pos);
        timer_rec.owned_by = Some(OwnedBy::new(enemy));
        timer_rec.timer_tag = Some(TimerTag);
        timer_rec.text = Some(String::new());
        let timer_label = world.spawn(timer_rec);
        self.entities.insert(timer_label);

        proof {
            assert(self@.entities =~= target.0.entities);
            assert(self@ =~= target.0);
            assert(world@ =~= target.1);
        }
    }

    /// Applies a remote snapshot (see [`spec_update_enemy`]).
    pub fn update_enemy(&mut self, state: PlayerStateFx, world: &mut World)
        ensures
            final(self)@ == old(self)@,
            final(world)@ == spec_update_enemy(old(self)@, old(world)@, state),
    {
        if self.info.id == state.id {
            return ;
        }
        let found = self.enemies.get(state.id);
        match found {
            None => {
            },
            Some(e) => {
                let current = world.get(e);
                match current {
                    None => {
                    },
                    Some(rec) => {
                        let mut updated = clone_rec(rec);
                        if updated.time.is_some() {
                            updated.time = Some(Time(state.time));
                        }
                        if updated.velocity.is_some() {
                            updated.velocity = Some(Velocity(state.velocity));
                        }
                        if updated.transform.is_some() {
                            updated.transform = Some(state.position);
                        }
                        proof {
                            assert(updated@ =~= spec_update_rec(old(world)@.entities[e], state));
                        }
                        world.set(e, updated);
                        proof {
                            assert(world@ =~= spec_update_enemy(old(self)@, old(world)@, state));
                        }
                    },
                }
            },
        }
    }

    /// Removes a remote player (see [`spec_destroy_enemy`]).
    pub fn destroy_enemy(&mut self, id: u32, world: &mut World)
        ensures
            (final(self)@, final(world)@) == spec_destroy_enemy(old(self)@, old(world)@, id),
    {
        let found = self.enemies.get(id);
        match found {
            None => {
            },
            Some(e) => {
                self.enemies.remove(id);
                self.entities.remove(e);
                world.despawn(e);
                proof {
                    assert(self@ =~= spec_destroy_enemy(old(self)@, old(world)@, id).0);
                }
            },
        }
    }

    /// Feeds the local player (see [`spec_player_eat`]).
    pub fn player_eat(&mut self, amount: Fx, world: &mut World)
        ensures
            final(self)@ == old(self)@,
            final(world)@ == spec_player_eat(old(self)@, old(world)@, amount),
    {
        match self.player {
            None => {
            },
            Some(p) => {
                let current = world.get(p);
                match current {
                    None => {
                    },
                    Some(rec) => {
                        match rec.time {
                            None => {
                            },
                            Some(t) => {
                                let mut updated = clone_rec(rec);
                                updated.time = Some(Time(fx_add(t.0, amount)));
                                world.set(p, updated);
                                proof {
                                    assert(world@ =~= spec_player_eat(
                                        old(self)@,
                                        old(world)@,
                                        amount,
                                    ));
                                }
                            },
                        }
                    },
                }
            },
        }
    }
}

/// Reaping one externally destroyed entity: it leaves the owned set, and any
/// remote id it represented leaves the registry — before new messages are
/// processed, so a re-announce of that id is treated as a fresh join.
pub open spec fn spec_reap_one(s: GameStateView, e: u64) -> GameStateView {
    GameStateView { entities: s.entities.remove(e), enemies: spec_prune(s.enemies, e), ..s }
}

/// Reaping every entity destroyed since last tick, in order.
pub open spec fn spec_reap(s: GameStateView, reaped: Seq<u64>) -> GameStateView
    decreases reaped.len(),
{
    if reaped.len() == 0 {
        s
    } else {
        spec_reap(spec_reap_one(s, reaped[0]), reaped.drop_first())
    }
}

proof fn lemma_reap_snoc(s: GameStateView, xs: Seq<u64>, x: u64)
    ensures
        spec_reap(s, xs.push(x)) == spec_reap_one(spec_reap(s, xs), x),
    decreases xs.len(),
{
    if xs.len() == 0 {
        assert(xs.push(x).drop_first() =~= xs);
        assert(xs.push(x)[0] == x);
        assert(spec_reap(s, xs.push(x)) == spec_reap(spec_reap_one(s, x), xs));
        assert(spec_reap(spec_reap_one(s, x), xs) == spec_reap_one(s, x));
        assert(spec_reap(s, xs) == s);
    } else {
        assert(xs.push(x)[0] == xs[0]);
        assert(xs.push(x).drop_first() =~= xs.drop_first().push(x));
        let r1 = spec_reap_one(s, xs[0]);
        assert(spec_reap(s, xs.push(x)) == spec_reap(r1, xs.drop_first().push(x)));
        lemma_reap_snoc(r1, xs.drop_first(), x);
        assert(spec_reap(s, xs) == spec_reap(r1, xs.drop_first()));
    }
}

/// Applying a drained batch of decoded messages in arrival order. A decode
/// failure is isolated to its own message: it changes nothing and the rest of
/// the batch still applies.
pub open spec fn spec_apply_all(
    s: GameStateView,
    w: WorldView,
    msgs: Seq<Result<GameMessage, DecodeError>>,
) -> (GameStateView, WorldView)
    decreases msgs.len(),
{
    if msgs.len() == 0 {
        (s, w)
    } else {
        let first = match msgs[0] {
            Ok(m) => spec_apply(s, w, m@),
            Err(_) => (s, w),
        };
        spec_apply_all(first.0, first.1, msgs.drop_first())
    }
}

proof fn lemma_apply_all_snoc(
    s: GameStateView,
    w: WorldView,
    msgs: Seq<Result<GameMessage, DecodeError>>,
    x: Result<GameMessage, DecodeError>,
)
    ensures
        spec_apply_all(s, w, msgs.push(x)) == ({
            let mid = spec_apply_all(s, w, msgs);
            match x {
                Ok(m) => spec_apply(mid.0, mid.1, m@),
                Err(_) => mid,
            }
        }),
    decreases msgs.len(),
{
    if msgs.len() == 0 {
        assert(msgs.push(x).drop_first() =~= msgs);
        assert(msgs.push(x)[0] == x);
        let first = match x {
            Ok(m) => spec_apply(s, w, m@),
            Err(_) => (s, w),
        };
        assert(spec_apply_all(s, w, msgs.push(x)) == spec_apply_all(first.0, first.1, msgs));
        assert(spec_apply_all(first.0, first.1, msgs) == first);
        assert(spec_apply_all(s, w, msgs) == (s, w));
    } else {
        assert(msgs.push(x)[0] == msgs[0]);
        assert(msgs.push(x).drop_first() =~= msgs.drop_first().push(x));
        let first = match msgs[0] {
            Ok(m) => spec_apply(s, w, m@),
            Err(_) => (s, w),
        };
        assert(spec_apply_all(s, w, msgs.push(x)) == spec_apply_all(
            first.0,
            first.1,
            msgs.drop_first().push(x),
        ));
        lemma_apply_all_snoc(first.0, first.1, msgs.drop_first(), x);
        assert(spec_apply_all(s, w, msgs) == spec_apply_all(first.0, first.1, msgs.drop_first()));
    }
}

/// The countdown an entity carries; 0 if the entity or its countdown is gone.
pub open spec fn spec_time_of(w: WorldView, e: u64) -> Fx {
    if w.entities.dom().contains(e) && w.entities[e].time is Some {
        w.entities[e].time.unwrap().0
    } else {
        0
    }
}

/// The position an entity carries; the origin if it is gone.
pub open spec fn spec_transform_of(w: WorldView, e: u64) -> Vec2 {
    if w.entities.dom().contains(e) && w.entities[e].transform is Some {
        w.entities[e].transform.unwrap()
    } else {
        Vec2 { x: 0, y: 0 }
    }
}

/// The velocity an entity carries; zero if it is gone.
pub open spec fn spec_velocity_of(w: WorldView, e: u64) -> Vec2 {
    if w.entities.dom().contains(e) && w.entities[e].velocity is Some {
        w.entities[e].velocity.unwrap().0
    } else {
        Vec2 { x: 0, y: 0 }
    }
}

/// Whether the local player's countdown has run out. A session whose scene
/// has not been entered has no avatar and cannot time out.
pub open spec fn spec_timed_out(s: GameStateView, w: WorldView) -> bool {
    match s.player {
        None => false,
        Some(p) => spec_time_of(w, p) <= 0,
    }
}

/// The heartbeat the session would send: the local player's current
/// countdown, position and velocity under the local id.
pub open spec fn spec_snapshot(s: GameStateView, w: WorldView) -> Option<PlayerStateFx> {
    match s.player {
        None => None,
        Some(p) => Some(
            PlayerStateFx {
                id: s.info.id,
                time: spec_time_of(w, p),
                position: spec_transform_of(w, p),
                velocity: spec_velocity_of(w, p),
            },
        ),
    }
}

/// Everything one tick produces: the session and world afterwards, and the
/// outcome handed to the outside.
#[verifier::ext_equal]
pub struct TickSpec {
    pub state: GameStateView,
    pub world: WorldView,
    pub outcome: TickOutcome,
}

/// One tick of the reconciliation engine:
/// 1. a dead channel ends the session at once (nothing else happens);
/// 2. externally destroyed entities are reaped, pruning the registry;
/// 3. the drained inbound messages apply in order, decode failures isolated;
/// 4. a spent local countdown closes the channel and ends the session;
/// 5. the heartbeat timer advances and, on crossing zero, resets to
///    [`SEND_STATE_DELAY`] and emits one snapshot.
pub open spec fn spec_tick(
    s: GameStateView,
    w: WorldView,
    alive: bool,
    reaped: Seq<u64>,
    inbound: Seq<Result<GameMessage, DecodeError>>,
    dt: Fx,
) -> TickSpec {
    if !alive {
        TickSpec {
            state: s,
            world: w,
            outcome: TickOutcome {
                change: StateChange::ReturnToLobby,
                close: false,
                send: None,
            },
        }
    } else {
        let s1 = spec_reap(s, reaped);
        let applied = spec_apply_all(s1, w, inbound);
        let s2 = applied.0;
        let w2 = applied.1;
        if spec_timed_out(s2, w2) {
            TickSpec {
                state: s2,
                world: w2,
                outcome: TickOutcome {
                    change: StateChange::ReturnToLobby,
                    close: true,
                    send: None,
                },
            }
        } else {
            let t = spec_sub(s2.send_state_timer as int, dt as int);
            if t <= 0 {
                TickSpec {
                    state: GameStateView { send_state_timer: SEND_STATE_DELAY, ..s2 },
                    world: w2,
                    outcome: TickOutcome {
                        change: StateChange::Stay,
                        close: false,
                        send: spec_snapshot(s2, w2),
                    },
                }
            } else {
                TickSpec {
                    state: GameStateView { send_state_timer: t as i64, ..s2 },
                    world: w2,
                    outcome: TickOutcome { change: StateChange::Stay, close: false, send: None },
                }
            }
        }
    }
}

/// Entering the scene: the local player's avatar with its name and timer
/// labels, the tiled water background snapping to the grid under the avatar,
/// and the camera sticking to it.
pub open spec fn spec_enter(s: GameStateView, w: WorldView) -> (GameStateView, WorldView) {
    let player = w.next_handle;
    let name_label = (w.next_handle + 1) as u64;
    let timer_label = (w.next_handle + 2) as u64;
    let water = (w.next_handle + 3) as u64;
    let camera = (w.next_handle + 4) as u64;
    (
        GameStateView {
            entities: s.entities.insert(player).insert(name_label).insert(timer_label).insert(
                water,
            ).insert(camera),
            player: Some(player),
            water: Some(water),
            camera: Some(camera),
            ..s
        },
        WorldView {
            next_handle: (w.next_handle + 5) as u64,
            entities: w.entities.insert(player, spec_player_rec(s.info)).insert(
                name_label,
                spec_name_label_rec(s.info.position, s.info.name),
            ).insert(timer_label, spec_timer_label_rec(player, s.info.position)).insert(
                water,
                spec_water_rec(player),
            ).insert(camera, spec_camera_rec(player)),
        },
    )
}

impl GameState {
    /// Builds the scene (see [`spec_enter`]).
    pub fn on_enter(&mut self, world: &mut World)
        requires
            old(world)@.next_handle <= u64::MAX - 5,
        ensures
            (final(self)@, final(world)@) == spec_enter(old(self)@, old(world)@),
    {
        let ghost target = spec_enter(old(self)@, old(world)@);
        let pos = self.info.position;

        let mut player_rec = EntityRec::empty();
        player_rec.transform = Some(pos);
        player_rec.velocity = Some(Velocity(Vec2 { x: 0, y: 0 }));
        player_rec.speed = Some(Speed(PLAYER_SPEED));
        player_rec.time = Some(Time(self.info.time));
        player_rec.player_controller = Some(PlayerController::new(self.info.id));
        player_rec.player_tag = Some(PlayerTag);
        let player = world.spawn(player_rec);
        self.player = Some(player);
        self.entities.insert(player);

        let mut name_rec = EntityRec::empty();
        name_rec.transform = Some(pos);
        name_rec.text = Some(self.info.name.clone());
        let name_label = world.spawn(name_rec);
        self.entities.insert(name_label);

        let mut timer_rec = EntityRec::empty();
        timer_rec.transform = Some(pos);
        timer_rec.owned_by = Some(OwnedBy::new(player));
        timer_rec.timer_tag = Some(TimerTag);
        timer_rec.text = Some(String::new());
        let timer_label = world.spawn(timer_rec);
        self.entities.insert(timer_label);

        let mut water_rec = EntityRec::empty();
        water_rec.transform = Some(Vec2 { x: 0, y: 0 });
        water_rec.follow = Some(
            Follow::with_mode(
                player,
                FollowMode::SnapToGrid(Vec2 { x: WATER_GRID, y: WATER_GRID }, 0, 0),
            ),
        );
        let water = world.spawn(water_rec);
        self.water = Some(water);
        self.entities.insert(water);

        let mut camera_rec = EntityRec::empty();
        camera_rec.transform = Some(Vec2 { x: 0, y: 0 });
        camera_rec.follow = Some(Follow::new(player));
        let camera = world.spawn(camera_rec);
        self.camera = Some(camera);
        self.entities.insert(camera);

        proof {
            assert(self@.entities =~= target.0.entities);
            assert(self@ =~= target.0);
            assert(world@ =~= target.1);
        }
    }

    /// Tears the scene down: every entity this session created is destroyed
    /// exactly once and the owned set is emptied.
    pub fn on_exit(&mut self, world: &mut World)
        ensures
            final(self)@ == (GameStateView { entities: Set::<u64>::empty(), ..old(self)@ }),
            final(world)@.next_handle == old(world)@.next_handle,
            final(world)@.entities == old(world)@.entities.remove_keys(old(self)@.entities),
    {
        self.entities.despawn_all(world);
        proof {
            assert(self@ =~= (GameStateView { entities: Set::<u64>::empty(), ..old(self)@ }));
        }
    }

    /// One tick of the engine (see [`spec_tick`]).
    pub fn on_process(
        &mut self,
        world: &mut World,
        alive: bool,
        reaped: &Vec<u64>,
        inbound: &Vec<Result<GameMessage, DecodeError>>,
        dt: Fx,
    ) -> (r: TickOutcome)
        requires
            old(world)@.next_handle + 3 * inbound@.len() <= u64::MAX,
        ensures
            ({
                let t = spec_tick(old(self)@, old(world)@, alive, reaped@, inbound@, dt);
                final(self)@ == t.state && final(world)@ == t.world && r == t.outcome
            }),
    {
        if !alive {
            return TickOutcome { change: StateChange::ReturnToLobby, close: false, send: None };
        }
        let n = reaped.len();
        let mut i: usize = 0;
        while i < n
            invariant
                i <= n,
                n == reaped@.len(),
                self@ == spec_reap(old(self)@, reaped@.subrange(0, i as int)),
                world@ == old(world)@,
            decreases n - i,
        {
            let ghost before = self@;
            let e = reaped[i];
            self.entities.remove(e);
            self.enemies.remove_value(e);
            proof {
                assert(self@ =~= spec_reap_one(before, e));
                assert(reaped@.subrange(0, i + 1 as int) =~= reaped@.subrange(0, i as int).push(e));
                lemma_reap_snoc(old(self)@, reaped@.subrange(0, i as int), e);
            }
            i = i + 1;
        }
        proof {
            assert(reaped@.subrange(0, n as int) =~= reaped@);
        }
        let ghost s1 = spec_reap(old(self)@, reaped@);

        let m = inbound.len();
        let mut j: usize = 0;
        while j < m
            invariant
                j <= m,
                m == inbound@.len(),
                (self@, world@) == spec_apply_all(s1, old(world)@, inbound@.subrange(0, j as int)),
                world@.next_handle <= old(world)@.next_handle + 3 * j,
                old(world)@.next_handle + 3 * inbound@.len() <= u64::MAX,
            decreases m - j,
        {
            let ghost before_s = self@;
            let ghost before_w = world@;
            let msg = &inbound[j];
            match msg {
                Ok(gm) => {
                    match gm {
                        GameMessage::NewPlayer(info) => {
                            self.create_enemy(clone_info(info), world);
                        },
                        GameMessage::PlayerState(st) => {
                            self.update_enemy(*st, world);
                        },
                        GameMessage::PlayerDisconnected(id) => {
                            if *id != self.info.id {
                                self.destroy_enemy(*id, world);
                            }
                        },
                        GameMessage::PlayerEat(amount) => {
                            self.player_eat(*amount, world);
                        },
                        GameMessage::InitPlayer(_) => {
                        },
                        GameMessage::Unknown => {
                        },
                    }
                },
                Err(_) => {
                },
            }
            proof {
                assert((self@, world@) == (match inbound@[j as int] {
                    Ok(gm) => spec_apply(before_s, before_w, gm@),
                    Err(_) => (before_s, before_w),
                }));
                assert(inbound@.subrange(0, j + 1 as int) =~= inbound@.subrange(0, j as int).push(
                    inbound@[j as int],
                ));
                lemma_apply_all_snoc(s1, old(world)@, inbound@.subrange(0, j as int), inbound@[j as int]);
            }
            j = j + 1;
        }
        proof {
            assert(inbound@.subrange(0, m as int) =~= inbound@);
        }

        let timed_out = match self.player {
            Some(p) => time_of(world, p) <= 0,
            None => false,
        };
        if timed_out {
            return TickOutcome { change: StateChange::ReturnToLobby, close: true, send: None };
        }

        self.send_state_timer = fx_sub(self.send_state_timer, dt);
        if self.send_state_timer <= 0 {
            self.send_state_timer = SEND_STATE_DELAY;
            let send = match self.player {
                Some(p) => {
                    Some(
                        PlayerStateFx {
                            id: self.info.id,
                            time: time_of(world, p),
                            position: transform_of(world, p),
                            velocity: velocity_of(world, p),
                        },
                    )
                },
                None => None,
            };
            proof {
                assert(self@ =~= spec_tick(
                    old(self)@,
                    old(world)@,
                    alive,
                    reaped@,
                    inbound@,
                    dt,
                ).state);
            }
            TickOutcome { change: StateChange::Stay, close: false, send }
        } else {
            proof {
                assert(self@ =~= spec_tick(
                    old(self)@,
                    old(world)@,
                    alive,
                    reaped@,
                    inbound@,
                    dt,
                ).state);
            }
            TickOutcome { change: StateChange::Stay, close: false, send: None }
        }
    }
}

/// The countdown an entity carries; 0 if the entity or its countdown is gone.
pub fn time_of(world: &World, e: u64) -> (r: Fx)
    ensures
        r == spec_time_of(world@, e),
{
    match world.get(e) {
        Some(rec) => match rec.time {
            Some(t) => t.0,
            None => 0,
        },
        None => 0,
    }
}

/// The position an entity carries; the origin if it is gone.
pub fn transform_of(world: &World, e: u64) -> (r: Vec2)
    ensures
        r == spec_transform_of(world@, e),
{
    match world.get(e) {
        Some(rec) => match rec.transform {
            Some(p) => p,
            None => Vec2 { x: 0, y: 0 },
        },
        None => Vec2 { x: 0, y: 0 },
    }
}

/// The velocity an entity carries; zero if it is gone.
pub fn velocity_of(world: &World, e: u64) -> (r: Vec2)
    ensures
        r == spec_velocity_of(world@, e),
{
    match world.get(e) {
        Some(rec) => match rec.velocity {
            Some(v) => v.0,
            None => Vec2 { x: 0, y: 0 },
        },
        None => Vec2 { x: 0, y: 0 },
    }
}

/// Reaping changes only the owned set and the registry: identity, avatar
/// handle and heartbeat timer survive it.
proof fn lemma_reap_preserves(s: GameStateView, reaped: Seq<u64>)
    ensures
        spec_reap(s, reaped).client == s.client,
        spec_reap(s, reaped).info == s.info,
        spec_reap(s, reaped).player == s.player,
        spec_reap(s, reaped).water == s.water,
        spec_reap(s, reaped).camera == s.camera,
        spec_reap(s, reaped).send_state_timer == s.send_state_timer,
    decreases reaped.len(),
{
    if reaped.len() != 0 {
        lemma_reap_preserves(spec_reap_one(s, reaped[0]), reaped.drop_first());
    }
}

/// Applying inbound messages changes only the owned set, the registry and the
/// world: identity, avatar handle and heartbeat timer survive it.
proof fn lemma_apply_all_preserves(
    s: GameStateView,
    w: WorldView,
    msgs: Seq<Result<GameMessage, DecodeError>>,
)
    ensures
        spec_apply_all(s, w, msgs).0.client == s.client,
        spec_apply_all(s, w, msgs).0.info == s.info,
        spec_apply_all(s, w, msgs).0.player == s.player,
        spec_apply_all(s, w, msgs).0.water == s.water,
        spec_apply_all(s, w, msgs).0.camera == s.camera,
        spec_apply_all(s, w, msgs).0.send_state_timer == s.send_state_timer,
    decreases msgs.len(),
{
    if msgs.len() != 0 {
        let first = match msgs[0] {
            Ok(m) => spec_apply(s, w, m@),
            Err(_) => (s, w),
        };
        lemma_apply_all_preserves(first.0, first.1, msgs.drop_first());
    }
}

/// Idempotence of joins: applying the same announcement twice leaves exactly
/// the state that applying it once leaves — the second join sees the id
/// already registered and changes nothing.
pub proof fn lemma_new_player_idempotent(s: GameStateView, w: WorldView, info: PlayerInfoFxView)
    ensures
        ({
            let once = spec_create_enemy(s, w, info);
            spec_create_enemy(once.0, once.1, info) == once
        }),
{
    let once = spec_create_enemy(s, w, info);
    if !(info.time <= 0 || info.id == s.info.id || s.enemies.dom().contains(info.id)) {
        assert(once.0.enemies.dom().contains(info.id));
    }
}

/// Self-exclusion: a snapshot carrying the local player's own id never
/// mutates the session or the world — a client does not apply server echoes
/// of its own state.
pub proof fn lemma_self_state_excluded(s: GameStateView, w: WorldView, st: PlayerStateFx)
    requires
        st.id == s.info.id,
    ensures
        spec_apply(s, w, GameMessageView::PlayerState(st)) == (s, w),
{
}

/// Self-exclusion: a disconnect carrying the local player's own id never
/// mutates the session or the world — self-disconnect is driven by the
/// countdown only.
pub proof fn lemma_self_disconnect_excluded(s: GameStateView, w: WorldView)
    ensures
        spec_apply(s, w, GameMessageView::PlayerDisconnected(s.info.id)) == (s, w),
{
}

/// Heartbeat cadence, within one tick: a tick that keeps the session running
/// sends a snapshot exactly when the accumulated elapsed time crosses the
/// interval (and an avatar exists to report), and the accumulator then resets
/// to the interval; otherwise the accumulator just falls by the elapsed time.
pub proof fn lemma_heartbeat_fires(
    s: GameStateView,
    w: WorldView,
    reaped: Seq<u64>,
    inbound: Seq<Result<GameMessage, DecodeError>>,
    dt: Fx,
)
    ensures
        ({
            let t = spec_tick(s, w, true, reaped, inbound, dt);
            let crossed = spec_sub(s.send_state_timer as int, dt as int) <= 0;
            t.outcome.change == StateChange::Stay ==> {
                &&& (t.outcome.send is Some <==> (crossed && s.player is Some))
                &&& t.state.send_state_timer == (if crossed {
                    SEND_STATE_DELAY as int
                } else {
                    spec_sub(s.send_state_timer as int, dt as int)
                })
            }
        }),
{
    lemma_reap_preserves(s, reaped);
    lemma_apply_all_preserves(spec_reap(s, reaped), w, inbound);
}

/// Heartbeat cadence, across ticks: after a tick that sent a snapshot, the
/// next tick whose elapsed time is below the interval sends none — a missed
/// interval never double-fires.
pub proof fn lemma_heartbeat_no_double_send(
    s: GameStateView,
    w: WorldView,
    reaped1: Seq<u64>,
    inbound1: Seq<Result<GameMessage, DecodeError>>,
    dt1: Fx,
    reaped2: Seq<u64>,
    inbound2: Seq<Result<GameMessage, DecodeError>>,
    dt2: Fx,
)
    requires
        0 < dt2 < SEND_STATE_DELAY,
    ensures
        ({
            let t1 = spec_tick(s, w, true, reaped1, inbound1, dt1);
            let t2 = spec_tick(t1.state, t1.world, true, reaped2, inbound2, dt2);
            (t1.outcome.change == StateChange::Stay && t1.outcome.send is Some)
                ==> t2.outcome.send is None
        }),
{
    let t1 = spec_tick(s, w, true, reaped1, inbound1, dt1);
    lemma_reap_preserves(s, reaped1);
    lemma_apply_all_preserves(spec_reap(s, reaped1), w, inbound1);
    lemma_reap_preserves(t1.state, reaped2);
    lemma_apply_all_preserves(spec_reap(t1.state, reaped2), t1.world, inbound2);
}

/// Isolation of decode failures: a failed message in a drained batch changes
/// nothing — applying the batch is applying the batch without it.
pub proof fn lemma_decode_failure_isolated(
    s: GameStateView,
    w: WorldView,
    msgs: Seq<Result<GameMessage, DecodeError>>,
    k: int,
)
    requires
        0 <= k < msgs.len(),
        msgs[k] is Err,
    ensures
        spec_apply_all(s, w, msgs) == spec_apply_all(s, w, msgs.remove(k)),
    decreases msgs.len(),
{
    if k == 0 {
        assert(msgs.remove(0) =~= msgs.drop_first());
    } else {
        let first = match msgs[0] {
            Ok(m) => spec_apply(s, w, m@),
            Err(_) => (s, w),
        };
        assert(msgs.remove(k)[0] == msgs[0]);
        assert(msgs.remove(k).drop_first() =~= msgs.drop_first().remove(k - 1));
        lemma_decode_failure_isolated(first.0, first.1, msgs.drop_first(), k - 1);
    }
}

/// A field-for-field copy of an announcement (the name is cloned).
pub fn clone_info(info: &PlayerInfoFx) -> (r: PlayerInfoFx)
    ensures
        r@ == info@,
{
    PlayerInfoFx {
        id: info.id,
        name: info.name.clone(),
        time: info.time,
        position: info.position,
    }
}

} // verus!
