//! The per-tick systems: local input kinematics, externally driven
//! kinematics, follow/camera smoothing, and countdown decay with its
//! `MM:SS` display.
//!
//! Each system states, entity by entity, how the new record derives from the
//! old one; entities lacking the attributes a system reads are left unchanged.
use vstd::prelude::*;
use vstd::string::StringExecFns;
use crate::fixed::Fx;
use crate::fixed::FX_ONE;
use crate::fixed::Vec2;
use crate::fixed::fx_add;
use crate::fixed::fx_mul;
use crate::fixed::fx_sub;
use crate::fixed::snap_axis;
use crate::fixed::spec_add;
use crate::fixed::spec_mul;
use crate::fixed::spec_snap_axis;
use crate::fixed::spec_sub;
use crate::components::FollowMode;
use crate::components::Time;
use crate::components::Velocity;
use crate::world::EntityRecView;
use crate::world::World;
use crate::world::clone_rec;

verus! {

broadcast use vstd::seq_lib::lemma_seq_contains_after_push;

/// The two movement input axes, split into their four named directions; a
/// direction without input is 0. Values are fixed-point, nominally in -1..1.
#[derive(Clone, Copy, Debug, PartialEq, Eq, Structural)]
pub struct InputAxes {
    pub left: Fx,
    pub right: Fx,
    pub up: Fx,
    pub down: Fx,
}

/// One tick of local input kinematics for one record: the input offset times
/// the record's speed becomes its velocity, and the position advances by that
/// velocity times the elapsed time.
pub open spec fn spec_player_step(rec: EntityRecView, input: InputAxes, dt: Fx) -> EntityRecView {
    if rec.player_controller is Some && rec.player_tag is Some && rec.speed is Some
        && rec.transform is Some && rec.velocity is Some {
        let speed = rec.speed.unwrap().0;
        let off_x = spec_sub(input.right as int, input.left as int);
        let off_y = spec_sub(input.down as int, input.up as int);
        let vel = Vec2 {
            x: spec_mul(off_x, speed as int) as i64,
            y: spec_mul(off_y, speed as int) as i64,
        };
        let pos = rec.transform.unwrap();
        let moved = Vec2 {
            x: spec_add(pos.x as int, spec_mul(vel.x as int, dt as int)) as i64,
            y: spec_add(pos.y as int, spec_mul(vel.y as int, dt as int)) as i64,
        };
        EntityRecView { transform: Some(moved), velocity: Some(Velocity(vel)), ..rec }
    } else {
        rec
    }
}

/// One tick of externally driven kinematics for one record: the position
/// advances by the record's velocity times the elapsed time.
pub open spec fn spec_enemy_step(rec: EntityRecView, dt: Fx) -> EntityRecView {
    if rec.enemy_controller is Some && rec.enemy_tag is Some && rec.transform is Some
        && rec.velocity is Some {
        let vel = rec.velocity.unwrap().0;
        let pos = rec.transform.unwrap();
        let moved = Vec2 {
            x: spec_add(pos.x as int, spec_mul(vel.x as int, dt as int)) as i64,
            y: spec_add(pos.y as int, spec_mul(vel.y as int, dt as int)) as i64,
        };
        EntityRecView { transform: Some(moved), ..rec }
    } else {
        rec
    }
}

/// Reads two input axes and moves the local player, storing the instantaneous
/// velocity for transmission and for dependent systems.
pub struct PlayerControlSystem;

impl PlayerControlSystem {
    pub fn run(world: &mut World, input: InputAxes, dt: Fx)
        ensures
            final(world)@.next_handle == old(world)@.next_handle,
            final(world)@.entities.dom() == old(world)@.entities.dom(),
            forall|e: u64| #[trigger]
                old(world)@.entities.dom().contains(e) ==> final(world)@.entities[e]
                    == spec_player_step(old(world)@.entities[e], input, dt),
    {
        let ghost w0 = world@;
        let keys = world.keys();
        let n = keys.len();
        let mut i: usize = 0;
        while i < n
            invariant
                i <= n,
                n == keys@.len(),
                keys@.no_duplicates(),
                forall|k: u64| #[trigger] keys@.contains(k) <==> w0.entities.dom().contains(k),
                world@.next_handle == w0.next_handle,
                world@.entities.dom() == w0.entities.dom(),
                forall|k: u64| #[trigger]
                    w0.entities.dom().contains(k) ==> world@.entities[k] == (if keys@.subrange(
                        0,
                        i as int,
                    ).contains(k) {
                        spec_player_step(w0.entities[k], input, dt)
                    } else {
                        w0.entities[k]
                    }),
            decreases n - i,
        {
            let e = keys[i];
            proof {
                assert(keys@[i as int] == e);
                assert(keys@.contains(e));
                assert(!keys@.subrange(0, i as int).contains(e)) by {
                    if keys@.subrange(0, i as int).contains(e) {
                        let idx = choose|idx: int|
                            0 <= idx < i as int && keys@.subrange(0, i as int)[idx] == e;
                        assert(keys@[idx] == keys@[i as int]);
                    }
                }
                assert(keys@.subrange(0, i + 1 as int) =~= keys@.subrange(0, i as int).push(e));
            }
            let current = world.get(e);
            match current {
                None => {
                    proof {
                        assert(false);
                    }
                },
                Some(found) => {
                    let rec = clone_rec(found);
                    if rec.player_controller.is_some() && rec.player_tag.is_some()
                        && rec.speed.is_some() && rec.transform.is_some()
                        && rec.velocity.is_some() {
                        let speed = rec.speed.unwrap().0;
                        let pos = rec.transform.unwrap();
                        let off_x = fx_sub(input.right, input.left);
                        let off_y = fx_sub(input.down, input.up);
                        let vx = fx_mul(off_x, speed);
                        let vy = fx_mul(off_y, speed);
                        let moved = Vec2 {
                            x: fx_add(pos.x, fx_mul(vx, dt)),
                            y: fx_add(pos.y, fx_mul(vy, dt)),
                        };
                        let mut updated = rec;
                        updated.transform = Some(moved);
                        updated.velocity = Some(Velocity(Vec2 { x: vx, y: vy }));
                        proof {
                            assert(updated@ =~= spec_player_step(w0.entities[e], input, dt));
                        }
                        world.set(e, updated);
                    }
                },
            }
            i = i + 1;
        }
        proof {
            assert(keys@.subrange(0, n as int) =~= keys@);
        }
    }
}

/// Integrates each remote entity's externally supplied velocity.
pub struct EnemyControlSystem;

impl EnemyControlSystem {
    pub fn run(world: &mut World, dt: Fx)
        ensures
            final(world)@.next_handle == old(world)@.next_handle,
            final(world)@.entities.dom() == old(world)@.entities.dom(),
            forall|e: u64| #[trigger]
                old(world)@.entities.dom().contains(e) ==> final(world)@.entities[e]
                    == spec_enemy_step(old(world)@.entities[e], dt),
    {
        let ghost w0 = world@;
        let keys = world.keys();
        let n = keys.len();
        let mut i: usize = 0;
        while i < n
            invariant
                i <= n,
                n == keys@.len(),
                keys@.no_duplicates(),
                forall|k: u64| #[trigger] keys@.contains(k) <==> w0.entities.dom().contains(k),
                world@.next_handle == w0.next_handle,
                world@.entities.dom() == w0.entities.dom(),
                forall|k: u64| #[trigger]
                    w0.entities.dom().contains(k) ==> world@.entities[k] == (if keys@.subrange(
                        0,
                        i as int,
                    ).contains(k) {
                        spec_enemy_step(w0.entities[k], dt)
                    } else {
                        w0.entities[k]
                    }),
            decreases n - i,
        {
            let e = keys[i];
            proof {
                assert(keys@[i as int] == e);
                assert(keys@.contains(e));
                assert(!keys@.subrange(0, i as int).contains(e)) by {
                    if keys@.subrange(0, i as int).contains(e) {
                        let idx = choose|idx: int|
                            0 <= idx < i as int && keys@.subrange(0, i as int)[idx] == e;
                        assert(keys@[idx] == keys@[i as int]);
                    }
                }
                assert(keys@.subrange(0, i + 1 as int) =~= keys@.subrange(0, i as int).push(e));
            }
            let current = world.get(e);
            match current {
                None => {
                    proof {
                        assert(false);
                    }
                },
                Some(found) => {
                    let rec = clone_rec(found);
                    if rec.enemy_controller.is_some() && rec.enemy_tag.is_some()
                        && rec.transform.is_some() && rec.velocity.is_some() {
                        let vel = rec.velocity.unwrap().0;
                        let pos = rec.transform.unwrap();
                        let moved = Vec2 {
                            x: fx_add(pos.x, fx_mul(vel.x, dt)),
                            y: fx_add(pos.y, fx_mul(vel.y, dt)),
                        };
                        let mut updated = rec;
                        updated.transform = Some(moved);
                        proof {
                            assert(updated@ =~= spec_enemy_step(w0.entities[e], dt));
                        }
                        world.set(e, updated);
                    }
                },
            }
            i = i + 1;
        }
        proof {
            assert(keys@.subrange(0, n as int) =~= keys@);
        }
    }
}

/// Whether a follow directive resolves this tick: the follower has a position
/// of its own and the target is live with both a position and a velocity.
pub open spec fn spec_follow_applies(w: crate::world::WorldView, rec: EntityRecView) -> bool {
    rec.follow is Some && rec.transform is Some && {
        let f = rec.follow.unwrap();
        &&& w.entities.dom().contains(f.entity)
        &&& w.entities[f.entity].transform is Some
        &&& w.entities[f.entity].velocity is Some
    }
}

/// The position a resolving follow directive derives, from the target's
/// position and velocity at the start of the tick.
pub open spec fn spec_follow_pos(w: crate::world::WorldView, rec: EntityRecView) -> Vec2
    recommends
        spec_follow_applies(w, rec),
{
    let f = rec.follow.unwrap();
    let tp = w.entities[f.entity].transform.unwrap();
    let tv = w.entities[f.entity].velocity.unwrap().0;
    match f.mode {
        FollowMode::Stick => tp,
        FollowMode::Tween(factor) => Vec2 {
            x: spec_add(tp.x as int, spec_mul(tv.x as int, factor as int)) as i64,
            y: spec_add(tp.y as int, spec_mul(tv.y as int, factor as int)) as i64,
        },
        FollowMode::SnapToGrid(cell, off_cols, off_rows) => Vec2 {
            x: spec_snap_axis(tp.x as int, cell.x as int, off_cols as int) as i64,
            y: spec_snap_axis(tp.y as int, cell.y as int, off_rows as int) as i64,
        },
    }
}

/// One tick of follow smoothing for one record, against the snapshot `w` of
/// the world at the start of the tick. An unresolvable directive leaves the
/// follower unchanged: no jump, no error.
pub open spec fn spec_follow_step(w: crate::world::WorldView, rec: EntityRecView) -> EntityRecView {
    if spec_follow_applies(w, rec) {
        EntityRecView { transform: Some(spec_follow_pos(w, rec)), ..rec }
    } else {
        rec
    }
}

/// Derives the position of every entity with a follow directive from its
/// target's position at the start of the tick (a snapshot: followers read
/// their targets before any follower moves).
pub struct FollowSystem;

impl FollowSystem {
    pub fn run(world: &mut World)
        ensures
            final(world)@.next_handle == old(world)@.next_handle,
            final(world)@.entities.dom() == old(world)@.entities.dom(),
            forall|e: u64| #[trigger]
                old(world)@.entities.dom().contains(e) ==> final(world)@.entities[e]
                    == spec_follow_step(old(world)@, old(world)@.entities[e]),
    {
        let ghost w0 = world@;
        let keys = world.keys();
        let n = keys.len();

        // First pass: snapshot the derived position of every resolving
        // follower before anything moves.
        let mut pending: Vec<(u64, Vec2)> = Vec::new();
        let mut i: usize = 0;
        while i < n
            invariant
                i <= n,
                n == keys@.len(),
                keys@.no_duplicates(),
                forall|k: u64| #[trigger] keys@.contains(k) <==> w0.entities.dom().contains(k),
                world@ == w0,
                forall|idx: int|
                    0 <= idx < pending@.len() ==> {
                        let p = #[trigger] pending@[idx];
                        &&& keys@.subrange(0, i as int).contains(p.0)
                        &&& w0.entities.dom().contains(p.0)
                        &&& spec_follow_applies(w0, w0.entities[p.0])
                        &&& p.1 == spec_follow_pos(w0, w0.entities[p.0])
                    },
                forall|k: u64|
                    (#[trigger] keys@.subrange(0, i as int).contains(k) && w0.entities.dom().contains(
                        k,
                    ) && spec_follow_applies(w0, w0.entities[k])) ==> exists|idx: int|
                        0 <= idx < pending@.len() && (#[trigger] pending@[idx]).0 == k,
            decreases n - i,
        {
            let e = keys[i];
            let ghost pending0 = pending@;
            proof {
                assert(keys@[i as int] == e);
                assert(keys@.contains(e));
                assert(keys@.subrange(0, i + 1 as int) =~= keys@.subrange(0, i as int).push(e));
            }
            let current = world.get(e);
            match current {
                None => {
                    proof {
                        assert(false);
                    }
                },
                Some(found) => {
                    if found.follow.is_some() && found.transform.is_some() {
                        let f = found.follow.unwrap();
                        let target = world.get(f.entity);
                        match target {
                            None => {
                            },
                            Some(trec) => {
                                if trec.transform.is_some() && trec.velocity.is_some() {
                                    let tp = trec.transform.unwrap();
                                    let tv = trec.velocity.unwrap().0;
                                    let derived = match f.mode {
                                        FollowMode::Stick => tp,
                                        FollowMode::Tween(factor) => Vec2 {
                                            x: fx_add(tp.x, fx_mul(tv.x, factor)),
                                            y: fx_add(tp.y, fx_mul(tv.y, factor)),
                                        },
                                        FollowMode::SnapToGrid(cell, off_cols, off_rows) => Vec2 {
                                            x: snap_axis(tp.x, cell.x, off_cols),
                                            y: snap_axis(tp.y, cell.y, off_rows),
                                        },
                                    };
                                    proof {
                                        assert(derived == spec_follow_pos(w0, w0.entities[e]));
                                    }
                                    pending.push((e, derived));
                                    proof {
                                        assert(pending@[pending@.len() - 1].0 == e);
                                    }
                                }
                            },
                        }
                    }
                },
            }
            proof {
                assert forall|k: u64|
                    (#[trigger] keys@.subrange(0, i + 1 as int).contains(k)
                        && w0.entities.dom().contains(k) && spec_follow_applies(
                        w0,
                        w0.entities[k],
                    )) implies exists|idx: int|
                    0 <= idx < pending@.len() && (#[trigger] pending@[idx]).0 == k by {
                    if k == e {
                        assert(pending@[pending@.len() - 1].0 == e);
                    } else {
                        assert(keys@.subrange(0, i as int).contains(k));
                        let idx = choose|idx: int|
                            0 <= idx < pending0.len() && (#[trigger] pending0[idx]).0 == k;
                        assert(pending@[idx].0 == k);
                    }
                }
            }
            i = i + 1;
        }
        proof {
            assert(keys@.subrange(0, n as int) =~= keys@);
            assert forall|k: u64|
                (w0.entities.dom().contains(k) && spec_follow_applies(
                    w0,
                    w0.entities[k],
                )) implies exists|idx: int|
                0 <= idx < pending@.len() && (#[trigger] pending@[idx]).0 == k by {
                assert(keys@.contains(k));
                assert(keys@.subrange(0, n as int).contains(k));
            }
        }

        // Second pass: move every snapshotted follower.
        let m = pending.len();
        let mut j: usize = 0;
        while j < m
            invariant
                j <= m,
                m == pending@.len(),
                forall|idx: int|
                    0 <= idx < pending@.len() ==> {
                        let p = #[trigger] pending@[idx];
                        &&& w0.entities.dom().contains(p.0)
                        &&& spec_follow_applies(w0, w0.entities[p.0])
                        &&& p.1 == spec_follow_pos(w0, w0.entities[p.0])
                    },
                forall|k: u64|
                    (w0.entities.dom().contains(k) && spec_follow_applies(
                        w0,
                        w0.entities[k],
                    )) ==> exists|idx: int|
                        0 <= idx < pending@.len() && (#[trigger] pending@[idx]).0 == k,
                world@.next_handle == w0.next_handle,
                world@.entities.dom() == w0.entities.dom(),
                forall|k: u64| #[trigger]
                    w0.entities.dom().contains(k) ==> world@.entities[k] == (
                    if (exists|idx: int|
                        0 <= idx < j as int && (#[trigger] pending@[idx]).0 == k) {
                        spec_follow_step(w0, w0.entities[k])
                    } else {
                        w0.entities[k]
                    }),
            decreases m - j,
        {
            let (e, derived) = pending[j];
            proof {
                assert(pending@[j as int] == (e, derived));
            }
            let current = world.get(e);
            match current {
                None => {
                    proof {
                        assert(false);
                    }
                },
                Some(found) => {
                    let mut updated = clone_rec(found);
                    updated.transform = Some(derived);
                    proof {
                        assert(spec_follow_applies(w0, w0.entities[e]));
                        if exists|idx: int| 0 <= idx < j as int && (#[trigger] pending@[idx]).0 == e {
                            assert(world@.entities[e] == spec_follow_step(w0, w0.entities[e]));
                            assert(updated@ =~= spec_follow_step(w0, w0.entities[e]));
                        } else {
                            assert(world@.entities[e] == w0.entities[e]);
                            assert(updated@ =~= spec_follow_step(w0, w0.entities[e]));
                        }
                    }
                    world.set(e, updated);
                    proof {
                        assert forall|k: u64| #[trigger] w0.entities.dom().contains(k) implies
                            world@.entities[k] == (if (exists|idx: int|
                                0 <= idx < j + 1 && (#[trigger] pending@[idx]).0 == k) {
                                spec_follow_step(w0, w0.entities[k])
                            } else {
                                w0.entities[k]
                            }) by {
                            if k == e {
                                assert(pending@[j as int].0 == k);
                            } else {
                                if exists|idx: int|
                                    0 <= idx < j + 1 && (#[trigger] pending@[idx]).0 == k {
                                    let idx = choose|idx: int|
                                        0 <= idx < j + 1 && (#[trigger] pending@[idx]).0 == k;
                                    assert(idx < j as int);
                                }
                            }
                        }
                    }
                },
            }
            j = j + 1;
        }
    }
}

/// One tick of countdown decay for one record: the countdown falls by the
/// elapsed time.
pub open spec fn spec_decay_rec(rec: EntityRecView, dt: Fx) -> EntityRecView {
    if rec.time is Some {
        EntityRecView {
            time: Some(Time(spec_sub(rec.time.unwrap().0 as int, dt as int) as i64)),
            ..rec
        }
    } else {
        rec
    }
}

/// Whether a record's countdown reaches (or passes) zero this tick: the
/// owning entity is then removed at once.
pub open spec fn spec_expired(rec: EntityRecView, dt: Fx) -> bool {
    rec.time is Some && spec_sub(rec.time.unwrap().0 as int, dt as int) <= 0
}

/// The world after countdown decay: every expired entity is gone, every
/// survivor's countdown has fallen by the elapsed time.
pub open spec fn spec_decay_world(w: crate::world::WorldView, dt: Fx) -> crate::world::WorldView {
    crate::world::WorldView {
        next_handle: w.next_handle,
        entities: Map::new(
            |e: u64| w.entities.dom().contains(e) && !spec_expired(w.entities[e], dt),
            |e: u64| spec_decay_rec(w.entities[e], dt),
        ),
    }
}

/// The decimal digits of a number, most significant first.
pub open spec fn spec_digits(n: nat) -> Seq<char>
    decreases n,
{
    if n < 10 {
        seq![spec_digit_char(n)]
    } else {
        spec_digits(n / 10).push(spec_digit_char(n % 10))
    }
}

/// The character of one decimal digit.
pub open spec fn spec_digit_char(d: nat) -> char {
    if d == 0 {
        '0'
    } else if d == 1 {
        '1'
    } else if d == 2 {
        '2'
    } else if d == 3 {
        '3'
    } else if d == 4 {
        '4'
    } else if d == 5 {
        '5'
    } else if d == 6 {
        '6'
    } else if d == 7 {
        '7'
    } else if d == 8 {
        '8'
    } else {
        '9'
    }
}

/// The decimal digits of a number, left-padded with a zero to two places.
pub open spec fn spec_pad2(n: nat) -> Seq<char> {
    if n < 10 {
        seq!['0'] + spec_digits(n)
    } else {
        spec_digits(n)
    }
}

/// A countdown rendered as minutes and seconds: the remaining whole seconds,
/// floored and clamped to at least zero, split at sixty.
pub open spec fn spec_mmss(t: Fx) -> Seq<char> {
    let secs = (if t <= 0 {
        0int
    } else {
        t as int / (FX_ONE as int)
    }) as nat;
    spec_pad2(secs / 60) + seq![':'] + spec_pad2(secs % 60)
}

fn digit_str(d: u64) -> (r: &'static str)
    requires
        d < 10,
    ensures
        r@ == seq![spec_digit_char(d as nat)],
{
    proof {
        reveal_strlit("0");
        reveal_strlit("1");
        reveal_strlit("2");
        reveal_strlit("3");
        reveal_strlit("4");
        reveal_strlit("5");
        reveal_strlit("6");
        reveal_strlit("7");
        reveal_strlit("8");
        reveal_strlit("9");
    }
    if d == 0 {
        "0"
    } else if d == 1 {
        "1"
    } else if d == 2 {
        "2"
    } else if d == 3 {
        "3"
    } else if d == 4 {
        "4"
    } else if d == 5 {
        "5"
    } else if d == 6 {
        "6"
    } else if d == 7 {
        "7"
    } else if d == 8 {
        "8"
    } else {
        "9"
    }
}

fn push_digits(s: &mut String, n: u64)
    ensures
        final(s)@ == old(s)@ + spec_digits(n as nat),
    decreases n,
{
    if n < 10 {
        s.append(digit_str(n));
    } else {
        push_digits(s, n / 10);
        s.append(digit_str(n % 10));
        proof {
            assert(s@ =~= old(s)@ + spec_digits(n as nat));
        }
    }
}

fn push_pad2(s: &mut String, n: u64)
    ensures
        final(s)@ == old(s)@ + spec_pad2(n as nat),
{
    if n < 10 {
        proof {
            reveal_strlit("0");
        }
        s.append("0");
        push_digits(s, n);
        proof {
            assert(s@ =~= old(s)@ + spec_pad2(n as nat));
        }
    } else {
        push_digits(s, n);
    }
}

/// Renders a countdown as `MM:SS` (see [`spec_mmss`]); the minute field grows
/// beyond two places when it must.
pub fn timer_text(t: Fx) -> (r: String)
    ensures
        r@ == spec_mmss(t),
{
    let secs: u64 = if t <= 0 {
        0
    } else {
        (t as u64) / (FX_ONE as u64)
    };
    let minutes = secs / 60;
    let seconds = secs % 60;
    let mut s = String::new();
    push_pad2(&mut s, minutes);
    proof {
        reveal_strlit(":");
    }
    s.append(":");
    push_pad2(&mut s, seconds);
    proof {
        assert(s@ =~= spec_mmss(t));
    }
    s
}

/// One tick of the display step for one record, against the snapshot `w` of
/// the world after decay: a timer label still pointing at a live countdown
/// renders it as `MM:SS`; one whose subject is gone stops updating and keeps
/// its last text.
pub open spec fn spec_label_step(w: crate::world::WorldView, rec: EntityRecView) -> EntityRecView {
    if rec.timer_tag is Some && rec.owned_by is Some && rec.text is Some {
        let target = rec.owned_by.unwrap().0;
        if w.entities.dom().contains(target) && w.entities[target].time is Some {
            EntityRecView {
                text: Some(spec_mmss(w.entities[target].time.unwrap().0)),
                ..rec
            }
        } else {
            rec
        }
    } else {
        rec
    }
}

/// The world after the display step.
pub open spec fn spec_label_world(w: crate::world::WorldView) -> crate::world::WorldView {
    crate::world::WorldView {
        next_handle: w.next_handle,
        entities: Map::new(
            |e: u64| w.entities.dom().contains(e),
            |e: u64| spec_label_step(w, w.entities[e]),
        ),
    }
}

/// Decrements every countdown, removes entities whose countdown ran out, and
/// renders every timer label.
pub struct TimeSystem;

impl TimeSystem {
    /// The decay half (see [`spec_decay_world`]): returns the removed
    /// entities, each exactly once, so the session can reap them.
    pub fn decay(world: &mut World, dt: Fx) -> (removed: Vec<u64>)
        ensures
            final(world)@ == spec_decay_world(old(world)@, dt),
            removed@.no_duplicates(),
            forall|e: u64| #[trigger]
                removed@.contains(e) <==> (old(world)@.entities.dom().contains(e) && spec_expired(
                    old(world)@.entities[e],
                    dt,
                )),
    {
        let ghost w0 = world@;
        let keys = world.keys();
        let n = keys.len();
        let mut removed: Vec<u64> = Vec::new();
        let mut i: usize = 0;
        while i < n
            invariant
                i <= n,
                n == keys@.len(),
                keys@.no_duplicates(),
                forall|k: u64| #[trigger] keys@.contains(k) <==> w0.entities.dom().contains(k),
                world@.next_handle == w0.next_handle,
                forall|k: u64| #[trigger]
                    world@.entities.dom().contains(k) <==> (w0.entities.dom().contains(k) && !(
                    keys@.subrange(0, i as int).contains(k) && spec_expired(w0.entities[k], dt))),
                forall|k: u64| #[trigger]
                    world@.entities.dom().contains(k) ==> world@.entities[k] == (
                    if keys@.subrange(0, i as int).contains(k) {
                        spec_decay_rec(w0.entities[k], dt)
                    } else {
                        w0.entities[k]
                    }),
                forall|e: u64| #[trigger]
                    removed@.contains(e) <==> (keys@.subrange(0, i as int).contains(e)
                        && w0.entities.dom().contains(e) && spec_expired(w0.entities[e], dt)),
                removed@.no_duplicates(),
            decreases n - i,
        {
            let e = keys[i];
            proof {
                assert(keys@[i as int] == e);
                assert(keys@.contains(e));
                assert(!keys@.subrange(0, i as int).contains(e)) by {
                    if keys@.subrange(0, i as int).contains(e) {
                        let idx = choose|idx: int|
                            0 <= idx < i as int && keys@.subrange(0, i as int)[idx] == e;
                        assert(keys@[idx] == keys@[i as int]);
                    }
                }
                assert(keys@.subrange(0, i + 1 as int) =~= keys@.subrange(0, i as int).push(e));
            }
            let current = world.get(e);
            match current {
                None => {
                    proof {
                        assert(false);
                    }
                },
                Some(found) => {
                    match found.time {
                        None => {
                        },
                        Some(t) => {
                            let left = fx_sub(t.0, dt);
                            if left <= 0 {
                                world.despawn(e);
                                let ghost r0 = removed@;
                                proof {
                                    assert(!r0.contains(e));
                                }
                                removed.push(e);
                                proof {
                                    assert forall|a: int, b: int|
                                        0 <= a < b < removed@.len() implies removed@[a]
                                        != removed@[b] by {
                                        if b == removed@.len() - 1 {
                                            assert(removed@[a] == r0[a]);
                                            if r0[a] == e {
                                                assert(r0.contains(e));
                                            }
                                        }
                                    }
                                }
                            } else {
                                let mut updated = clone_rec(world.get(e).unwrap());
                                updated.time = Some(Time(left));
                                proof {
                                    assert(updated@ =~= spec_decay_rec(w0.entities[e], dt));
                                }
                                world.set(e, updated);
                            }
                        },
                    }
                },
            }
            i = i + 1;
        }
        proof {
            assert(keys@.subrange(0, n as int) =~= keys@);
            assert(world@ =~= spec_decay_world(w0, dt));
        }
        removed
    }

    /// The display half (see [`spec_label_world`]).
    pub fn update_timer_labels(world: &mut World)
        ensures
            final(world)@ == spec_label_world(old(world)@),
    {
        let ghost w0 = world@;
        let keys = world.keys();
        let n = keys.len();
        let mut i: usize = 0;
        while i < n
            invariant
                i <= n,
                n == keys@.len(),
                keys@.no_duplicates(),
                forall|k: u64| #[trigger] keys@.contains(k) <==> w0.entities.dom().contains(k),
                world@.next_handle == w0.next_handle,
                world@.entities.dom() == w0.entities.dom(),
                forall|k: u64| #[trigger]
                    w0.entities.dom().contains(k) ==> world@.entities[k] == (if keys@.subrange(
                        0,
                        i as int,
                    ).contains(k) {
                        spec_label_step(w0, w0.entities[k])
                    } else {
                        w0.entities[k]
                    }),
            decreases n - i,
        {
            let e = keys[i];
            proof {
                assert(keys@[i as int] == e);
                assert(keys@.contains(e));
                assert(!keys@.subrange(0, i as int).contains(e)) by {
                    if keys@.subrange(0, i as int).contains(e) {
                        let idx = choose|idx: int|
                            0 <= idx < i as int && keys@.subrange(0, i as int)[idx] == e;
                        assert(keys@[idx] == keys@[i as int]);
                    }
                }
                assert(keys@.subrange(0, i + 1 as int) =~= keys@.subrange(0, i as int).push(e));
            }
            let qualifies = {
                let current = world.get(e);
                match current {
                    None => false,
                    Some(found) => found.timer_tag.is_some() && found.owned_by.is_some()
                        && found.text.is_some(),
                }
            };
            if qualifies {
                let target = {
                    let found = world.get(e).unwrap();
                    found.owned_by.unwrap().entity()
                };
                let target_time: Option<Fx> = {
                    match world.get(target) {
                        None => None,
                        Some(trec) => match trec.time {
                            Some(t) => Some(t.0),
                            None => None,
                        },
                    }
                };
                proof {
                    // The display step never changes a countdown, so the
                    // target's countdown still reads as it did at the start.
                    if w0.entities.dom().contains(target) {
                        assert(world@.entities[target].time == w0.entities[target].time);
                    }
                }
                match target_time {
                    None => {
                        proof {
                            assert(spec_label_step(w0, w0.entities[e]) == w0.entities[e]);
                        }
                    },
                    Some(t) => {
                        let mut updated = clone_rec(world.get(e).unwrap());
                        updated.text = Some(timer_text(t));
                        proof {
                            assert(updated@ =~= spec_label_step(w0, w0.entities[e]));
                        }
                        world.set(e, updated);
                    },
                }
            }
            i = i + 1;
        }
        proof {
            assert(keys@.subrange(0, n as int) =~= keys@);
            assert(world@ =~= spec_label_world(w0));
        }
    }

    /// One tick of countdown decay and display.
    pub fn run(world: &mut World, dt: Fx) -> (removed: Vec<u64>)
        ensures
            final(world)@ == spec_label_world(spec_decay_world(old(world)@, dt)),
            removed@.no_duplicates(),
            forall|e: u64| #[trigger]
                removed@.contains(e) <==> (old(world)@.entities.dom().contains(e) && spec_expired(
                    old(world)@.entities[e],
                    dt,
                )),
    {
        let removed = TimeSystem::decay(world, dt);
        TimeSystem::update_timer_labels(world);
        removed
    }
}

} // verus!
