//! What the steps of a frame leave as it was, and the laws that they obey.

use vstd::prelude::*;
use crate::collection::{
    distinct_ids, flagged, has_id, index_of, lemma_chosen_members, lemma_filter_is_chosen,
    lemma_index_of,
};
use crate::fixed::{sat, Fixed, Time};
use crate::frame::{
    animation_step, balloon_moved, balloon_spawn_step, burst_step, cloud_spawn_step, collision_step,
    doomed, first_hit, frame_step, generation_step, gravity_step, ground_step, height_score, hits,
    kill_step, marked, movement_step, obstacle_spawn_step, pair_resolved, pairs_rest, pairs_step,
    pop_step, run, score_step, sound_step, struck, tether_pull, tether_rest, tether_step, tethered,
    touch_step, Draws,
};
use crate::id::Id;
use crate::model::{Balloon, Event, ModelView, Obstacle, PlayerView, Score};
use crate::physics::spec_damp;
use crate::vec2::{lemma_clamp_len, Vec2};

verus! {

/// Whether a sequence of balloons differs from an earlier one in no more
/// than where the balloons are, how they move and whether they are
/// attached.
pub open spec fn moved_only(before: Seq<Balloon>, after: Seq<Balloon>) -> bool {
    &&& after.len() == before.len()
    &&& forall|i: int|
        0 <= i < after.len() ==> #[trigger] after[i] == (Balloon {
            position: after[i].position,
            velocity: after[i].velocity,
            attached_to_player: after[i].attached_to_player,
            ..before[i]
        })
}

/// Pulling tethers changes velocities and the player's list, and nothing
/// else.
pub proof fn lemma_tether_rest_keeps(m: ModelView, ids: Seq<Id>, from: int, kept: Seq<Id>)
    ensures
        ({
            let r = tether_rest(m, ids, from, kept);
            &&& r == (ModelView {
                player: PlayerView {
                    velocity: r.player.velocity,
                    balloons: r.player.balloons,
                    ..m.player
                },
                balloons: r.balloons,
                ..m
            })
            &&& r.balloons.len() == m.balloons.len()
            &&& forall|i: int|
                0 <= i < r.balloons.len() ==> #[trigger] r.balloons[i] == (Balloon {
                    velocity: r.balloons[i].velocity,
                    ..m.balloons[i]
                })
        }),
    decreases ids.len() - from,
{
    if 0 <= from < ids.len() {
        let id = ids[from];
        let next = tether_pull(m, id);
        let kept2 = if has_id(m.balloons, id) {
            kept.push(id)
        } else {
            kept
        };
        lemma_tether_rest_keeps(next, ids, from + 1, kept2);
        let r = tether_rest(m, ids, from, kept);
        assert(r == tether_rest(next, ids, from + 1, kept2));
        assert forall|i: int| 0 <= i < r.balloons.len()
            implies #[trigger] r.balloons[i] == (Balloon {
            velocity: r.balloons[i].velocity,
            ..m.balloons[i]
        }) by {
            assert(r.balloons[i] ==
                (Balloon { velocity: r.balloons[i].velocity, ..next.balloons[i] }));
        }
    }
}

/// The tether step changes velocities and the player's list, and nothing
/// else.
pub proof fn lemma_tether_step_keeps(m: ModelView)
    ensures
        ({
            let r = tether_step(m);
            &&& r == (ModelView {
                player: PlayerView {
                    velocity: r.player.velocity,
                    balloons: r.player.balloons,
                    ..m.player
                },
                balloons: r.balloons,
                ..m
            })
            &&& r.balloons.len() == m.balloons.len()
            &&& forall|i: int|
                0 <= i < r.balloons.len() ==> #[trigger] r.balloons[i] == (Balloon {
                    velocity: r.balloons[i].velocity,
                    ..m.balloons[i]
                })
        }),
{
    lemma_tether_rest_keeps(m, m.player.balloons, 0, Seq::empty());
}

/// Contacts between balloons change where balloons are, how they move and
/// whether they are attached, add to the player's list and to the events,
/// and change nothing else.
pub proof fn lemma_pairs_rest_keeps(m: ModelView, count: int, i: int, j: int)
    requires
        count == m.balloons.len(),
    ensures
        ({
            let r = pairs_rest(m, count, i, j);
            &&& r == (ModelView {
                player: PlayerView { balloons: r.player.balloons, ..m.player },
                balloons: r.balloons,
                events: r.events,
                ..m
            })
            &&& moved_only(m.balloons, r.balloons)
        }),
    decreases count - i, count - j,
{
    if i < 0 || i >= count {
    } else if j <= i || j >= count {
        lemma_pairs_rest_keeps(m, count, i + 1, i + 2);
    } else {
        let next = pair_resolved(m, i, j);
        lemma_pairs_rest_keeps(next, count, i, j + 1);
        let r = pairs_rest(m, count, i, j);
        assert(r == pairs_rest(next, count, i, j + 1));
        assert forall|k: int| 0 <= k < r.balloons.len()
            implies #[trigger] r.balloons[k] == (Balloon {
            position: r.balloons[k].position,
            velocity: r.balloons[k].velocity,
            attached_to_player: r.balloons[k].attached_to_player,
            ..m.balloons[k]
        }) by {
            assert(r.balloons[k] == (Balloon {
                position: r.balloons[k].position,
                velocity: r.balloons[k].velocity,
                attached_to_player: r.balloons[k].attached_to_player,
                ..next.balloons[k]
            }));
        }
    }
}

/// What [`lemma_pairs_rest_keeps`] says, of the whole step.
pub proof fn lemma_pairs_step_keeps(m: ModelView)
    ensures
        ({
            let r = pairs_step(m);
            &&& r == (ModelView {
                player: PlayerView { balloons: r.player.balloons, ..m.player },
                balloons: r.balloons,
                events: r.events,
                ..m
            })
            &&& moved_only(m.balloons, r.balloons)
        }),
{
    lemma_pairs_rest_keeps(m, m.balloons.len() as int, 0, 1);
}

/// The periodic pop leaves every remaining balloon its mass.
pub proof fn lemma_pop_keeps_mass(m: ModelView, dt: Time, pick: int)
    requires
        m.massive(),
    ensures
        pop_step(m, dt, pick).massive(),
        pop_step(m, dt, pick).config == m.config,
        pop_step(m, dt, pick).id_gen == m.id_gen,
{
    let r = pop_step(m, dt, pick);
    assert forall|i: int| 0 <= i < r.balloons.len() implies (#[trigger] r.balloons[i]).mass.raw
        != 0 by {
        if r.balloons.len() != m.balloons.len() {
            let k = choose|k: int| 0 <= k < m.balloons.len() && r.balloons == m.balloons.remove(k);
            if i < k {
                assert(r.balloons[i] == m.balloons[i]);
            } else {
                assert(r.balloons[i] == m.balloons[i + 1]);
            }
        } else {
            assert(r.balloons == m.balloons);
        }
    }
}

/// Up to the periodic pop, a frame changes neither the tunables nor the
/// generator of identifiers, and leaves every mass as it was.
pub proof fn lemma_before_collisions(m: ModelView, dt: Time, pick: int)
    requires
        m.massive(),
    ensures
        ({
            let cleared = ModelView { events: Seq::empty(), ..m };
            let lifted = gravity_step(score_step(sound_step(cleared)), dt);
            let pulled = tether_step(lifted);
            let popped = pop_step(pulled, dt, pick);
            &&& lifted.massive()
            &&& pulled.massive()
            &&& popped.massive()
            &&& popped.config == m.config
            &&& popped.id_gen == m.id_gen
        }),
{
    let cleared = ModelView { events: Seq::empty(), ..m };
    let lifted = gravity_step(score_step(sound_step(cleared)), dt);
    assert(lifted.massive());
    lemma_tether_step_keeps(lifted);
    let pulled = tether_step(lifted);
    assert(pulled.massive());
    lemma_pop_keeps_mass(pulled, dt, pick);
}

/// Collisions change neither the tunables nor the generator of
/// identifiers.
pub proof fn lemma_collision_keeps(m: ModelView)
    ensures
        collision_step(m).config == m.config,
        collision_step(m).id_gen == m.id_gen,
{
    let touched = touch_step(ground_step(m));
    lemma_pairs_step_keeps(touched);
}

/// Gravity acts on the player and, reversed, on balloons: after the
/// gravity step a player that was at rest moves at `gravity * dt`, and every
/// balloon that was at rest moves at the opposite of that.
pub proof fn lemma_gravity_from_rest(m: ModelView, dt: Time)
    ensures
        m.player.velocity == Vec2::spec_zero() ==> gravity_step(m, dt).player.velocity
            == m.config.gravity.spec_scale(dt),
        gravity_step(m, dt).balloons.len() == m.balloons.len(),
        forall|i: int|
            0 <= i < m.balloons.len() && (#[trigger] m.balloons[i]).velocity == Vec2::spec_zero()
                ==> gravity_step(m, dt).balloons[i].velocity == m.config.gravity.spec_scale(
                dt,
            ).spec_neg(),
{
}

/// Adding a displacement to a coordinate moves it by no more than the
/// displacement.
pub proof fn lemma_sat_add_close(a: int, c: int)
    requires
        i64::MIN <= a <= i64::MAX,
    ensures
        (a - sat(a + c)) * (a - sat(a + c)) <= c * c,
{
    let d = a - sat(a + c);
    assert(d * d <= c * c) by (nonlinear_arith)
        requires
            (0 <= d <= -c) || (-c <= d <= 0),
    ;
}

/// A tethered point is within the tether's length of its anchor, or at the
/// anchor where the length is negative.
pub proof fn lemma_tethered_in_reach(position: Vec2, anchor: Vec2, length: Fixed)
    ensures
        anchor.reaches(tethered(position, anchor, length), length.spec_max(Fixed { raw: 0 })),
{
    let c = position.spec_sub(anchor).spec_clamp_len(length);
    lemma_clamp_len(position.spec_sub(anchor), length);
    lemma_sat_add_close(anchor.x.raw as int, c.x.raw as int);
    lemma_sat_add_close(anchor.y.raw as int, c.y.raw as int);
}

/// Whether every attached balloon is within its tether's length of the
/// player.
pub open spec fn tethers_hold(m: ModelView) -> bool {
    forall|i: int|
        0 <= i < m.balloons.len() && (#[trigger] m.balloons[i]).attached_to_player
            ==> m.player.position.reaches(
            m.balloons[i].position,
            m.balloons[i].length.spec_max(Fixed { raw: 0 }),
        )
}

/// After the movement step every attached balloon is within its tether's
/// length of the player.
pub proof fn lemma_movement_holds_tethers(m: ModelView, dt: Time)
    ensures
        tethers_hold(movement_step(m, dt)),
{
    let r = movement_step(m, dt);
    assert forall|i: int|
        0 <= i < r.balloons.len() && (#[trigger] r.balloons[i]).attached_to_player
            implies r.player.position.reaches(
        r.balloons[i].position,
        r.balloons[i].length.spec_max(Fixed { raw: 0 }),
    ) by {
        let b = m.balloons[i];
        assert(r.balloons[i] == balloon_moved(b, r.player.position, m.config, dt));
        let drag = if b.attached_to_player {
            m.config.balloon_attached_drag
        } else {
            m.config.balloon_drag
        };
        let velocity = spec_damp(b.velocity, drag, dt);
        lemma_tethered_in_reach(
            b.position.spec_add(velocity.spec_scale(dt)),
            r.player.position,
            b.length,
        );
    }
}

/// Spawning moves neither the player nor any attached balloon, and what
/// it adds is not attached.
pub proof fn lemma_generation_holds_tethers(m: ModelView, dt: Time, d: Draws)
    requires
        tethers_hold(m),
    ensures
        tethers_hold(generation_step(m, dt, d)),
{
    let a = obstacle_spawn_step(m, dt, d.obstacle);
    assert(a.balloons == m.balloons && a.player == m.player);
    let b = cloud_spawn_step(a, dt, d.cloud);
    assert(b.balloons == m.balloons && b.player == m.player);
    let r = balloon_spawn_step(b, dt, d.balloon);
    assert(r.player == m.player);
    assert forall|i: int|
        0 <= i < r.balloons.len() && (#[trigger] r.balloons[i]).attached_to_player
            implies r.player.position.reaches(
        r.balloons[i].position,
        r.balloons[i].length.spec_max(Fixed { raw: 0 }),
    ) by {
        assert(i < m.balloons.len() && r.balloons[i] == m.balloons[i]);
    }
}

/// The tether invariant: at the end of every frame, every attached balloon
/// is no farther from the player than its tether is long. A tether of
/// negative length holds its balloon at the player.
pub proof fn lemma_frame_holds_tethers(m: ModelView, dt: Time, d: Draws)
    ensures
        tethers_hold(frame_step(m, dt, d)),
{
    let cleared = ModelView { events: Seq::empty(), ..m };
    let pulled = tether_step(gravity_step(score_step(sound_step(cleared)), dt));
    let collided = collision_step(pop_step(pulled, dt, d.pop as int));
    let moved = movement_step(collided, dt);
    lemma_movement_holds_tethers(collided, dt);
    lemma_generation_holds_tethers(moved, dt, d);
    let spawned = generation_step(moved, dt, d);
    let r = animation_step(spawned, dt);
    assert(r.balloons == spawned.balloons);
    assert(r.player.position == spawned.player.position);
}

/// The first obstacle hit is an obstacle that the player overlaps, and the
/// player overlaps none before it.
pub proof fn lemma_first_hit(p: PlayerView, obstacles: Seq<Obstacle>, from: int)
    requires
        0 <= from,
    ensures
        from <= first_hit(p, obstacles, from) || obstacles.len() <= first_hit(p, obstacles, from),
        first_hit(p, obstacles, from) <= obstacles.len(),
        first_hit(p, obstacles, from) < obstacles.len() ==> hits(
            p,
            obstacles[first_hit(p, obstacles, from)],
        ),
        forall|k: int| from <= k < first_hit(p, obstacles, from) ==>
            !hits(p, #[trigger] obstacles[k]),
    decreases obstacles.len() - from,
{
    if from < obstacles.len() && !hits(p, obstacles[from]) {
        lemma_first_hit(p, obstacles, from + 1);
    }
}

/// Kill detachment: the player's death leaves it not alive and with an
/// empty list, and every balloon that the list named is no longer attached.
/// The balloons themselves stay.
pub proof fn lemma_kill_detaches(m: ModelView)
    ensures
        !kill_step(m).player.alive,
        kill_step(m).player.balloons.len() == 0,
        kill_step(m).balloons.len() == m.balloons.len(),
        forall|i: int|
            0 <= i < m.balloons.len() ==> (#[trigger] kill_step(m).balloons[i]).id
                == m.balloons[i].id,
        forall|i: int|
            0 <= i < m.balloons.len() && m.player.balloons.contains((#[trigger] m.balloons[i]).id)
                ==> !kill_step(m).balloons[i].attached_to_player,
{
}

/// A live player that overlaps an obstacle dies of it at once: after the
/// touch step it is not alive, its list is empty, and every balloon that
/// the list named is no longer attached.
pub proof fn lemma_hit_kills(m: ModelView)
    requires
        m.player.alive,
        exists|k: int| 0 <= k < m.obstacles.len() && hits(m.player, #[trigger] m.obstacles[k]),
    ensures
        !touch_step(m).player.alive,
        touch_step(m).player.balloons.len() == 0,
        touch_step(m).balloons.len() == m.balloons.len(),
        forall|i: int|
            0 <= i < m.balloons.len() && m.player.balloons.contains((#[trigger] m.balloons[i]).id)
                ==> !touch_step(m).balloons[i].attached_to_player,
{
    lemma_first_hit(m.player, m.obstacles, 0);
    let at = first_hit(m.player, m.obstacles, 0);
    let hit = ModelView {
        player: PlayerView {
            velocity: m.player.velocity.spec_add(m.obstacles[at].velocity),
            ..m.player
        },
        events: m.events.push(Event::Hit),
        ..m
    };
    lemma_kill_detaches(hit);
}

/// Re-arming a countdown: adding a delay that is not negative to a
/// negative remainder gives their exact sum, and a delay greater than the
/// overshoot makes the countdown positive again.
pub proof fn lemma_rearm(remainder: Time, delay: Time)
    requires
        remainder.raw < 0,
        delay.raw >= 0,
    ensures
        remainder.spec_add(delay).raw == remainder.raw + delay.raw,
        delay.raw > -remainder.raw ==> remainder.spec_add(delay).raw > 0,
{
}

/// The countdowns of the spawners re-arm by the drawn delay: once the
/// countdown of obstacles or of balloons has gone negative, it ends the
/// step at the negative remainder plus the delay.
pub proof fn lemma_spawn_rearms(m: ModelView, dt: Time, d: Draws)
    requires
        d.obstacle.delay.raw >= 0,
        d.cloud.delay.raw >= 0,
        d.balloon.delay.raw >= 0,
    ensures
        m.next_obstacle.spec_sub(dt).raw < 0 ==> obstacle_spawn_step(
            m,
            dt,
            d.obstacle,
        ).next_obstacle.raw == m.next_obstacle.spec_sub(dt).raw + d.obstacle.delay.raw,
        m.next_obstacle.spec_sub(dt).raw < 0 ==> cloud_spawn_step(m, dt, d.cloud).next_obstacle.raw
            == m.next_obstacle.spec_sub(dt).raw + d.cloud.delay.raw,
        m.next_balloon.spec_sub(dt).raw < 0 ==> balloon_spawn_step(
            m,
            dt,
            d.balloon,
        ).next_balloon.raw == m.next_balloon.spec_sub(dt).raw + d.balloon.delay.raw,
{
}

/// Pop removal: after the balloon-to-obstacle step no balloon in the world
/// is marked as popped, and a balloon that was marked, before the step or
/// by it, is gone from the world and from the player's list.
pub proof fn lemma_burst_removes(m: ModelView)
    requires
        distinct_ids(m.balloons),
    ensures
        forall|k: int|
            0 <= k < burst_step(m).balloons.len() ==>
                !(#[trigger] burst_step(m).balloons[k]).popped,
        forall|i: int|
            0 <= i < m.balloons.len() && ((#[trigger] m.balloons[i]).popped || struck(
                m.balloons[i],
                m.obstacles,
            )) ==> !has_id(burst_step(m).balloons, m.balloons[i].id)
                && !burst_step(m).player.balloons.contains(m.balloons[i].id),
{
    let all = m.balloons.map_values(|b: Balloon| marked(b, m.obstacles));
    let alive = |b: Balloon| !b.popped;
    let stays = |id: Id| !doomed(all, id);
    let r = burst_step(m);
    assert(r.balloons == all.filter(alive));
    assert(r.player.balloons == m.player.balloons.filter(stays));
    assert forall|k: int| 0 <= k < r.balloons.len() implies !(#[trigger] r.balloons[k]).popped by {
        all.lemma_filter_pred(alive, k);
    }
    assert forall|i: int, j: int| 0 <= i < j < all.len() implies (#[trigger] all[i]).id
        != (#[trigger] all[j]).id by {
        assert(all[i].id == m.balloons[i].id);
        assert(all[j].id == m.balloons[j].id);
    }
    assert forall|i: int|
        0 <= i < m.balloons.len() && ((#[trigger] m.balloons[i]).popped || struck(
            m.balloons[i],
            m.obstacles,
        )) implies !has_id(r.balloons, m.balloons[i].id) && !r.player.balloons.contains(
        m.balloons[i].id,
    ) by {
        let id = m.balloons[i].id;
        assert(all[i] == marked(m.balloons[i], m.obstacles));
        assert(all[i].popped && all[i].id == id);
        lemma_index_of(all, i);
        assert(doomed(all, id));
        if r.player.balloons.contains(id) {
            let k = choose|k: int| 0 <= k < r.player.balloons.len() && r.player.balloons[k] == id;
            m.player.balloons.lemma_filter_pred(stays, k);
        }
        if has_id(r.balloons, id) {
            let k = index_of(r.balloons, id);
            assert(0 <= k < r.balloons.len() && r.balloons[k].id == id);
            all.lemma_filter_pred(alive, k);
            assert(all.filter(alive).contains(r.balloons[k]));
            all.lemma_filter_contains_rev(alive, r.balloons[k]);
            let j = choose|j: int| 0 <= j < all.len() && all[j] == r.balloons[k];
            if j < i {
                assert(all[j].id != all[i].id);
            } else if i < j {
                assert(all[i].id != all[j].id);
            }
        }
    }
}

/// After the collision step no balloon in the world is marked as popped.
pub proof fn lemma_collision_leaves_none_popped(m: ModelView)
    ensures
        forall|k: int|
            0 <= k < collision_step(m).balloons.len() ==> !(#[trigger] collision_step(
                m,
            ).balloons[k]).popped,
{
    let before = pairs_step(touch_step(ground_step(m)));
    let all = before.balloons.map_values(|b: Balloon| marked(b, before.obstacles));
    let alive = |b: Balloon| !b.popped;
    let r = burst_step(before);
    assert(r.balloons == all.filter(alive));
    assert forall|k: int| 0 <= k < r.balloons.len() implies !(#[trigger] r.balloons[k]).popped by {
        all.lemma_filter_pred(alive, k);
    }
}

/// The greater of two scores.
pub open spec fn higher(a: Score, b: Score) -> Score {
    if b > a {
        b
    } else {
        a
    }
}

/// Over one frame the score rises to what the player's height at the start
/// of the frame is worth, where that is more, and never falls. The high
/// score stays.
pub proof fn lemma_frame_score(m: ModelView, dt: Time, d: Draws)
    ensures
        frame_step(m, dt, d).score == higher(m.score, height_score(m.player.position.y)),
        frame_step(m, dt, d).score >= m.score,
        frame_step(m, dt, d).high_score == m.high_score,
{
    let cleared = ModelView { events: Seq::empty(), ..m };
    let lifted = gravity_step(score_step(sound_step(cleared)), dt);
    lemma_tether_step_keeps(lifted);
    let pulled = tether_step(lifted);
    let popped = pop_step(pulled, dt, d.pop as int);
    let touched = touch_step(ground_step(popped));
    lemma_pairs_step_keeps(touched);
    let collided = collision_step(popped);
    assert(collided.score == lifted.score);
    assert(collided.high_score == m.high_score);
}

/// The best that the heights seen at the starts of the first `frames`
/// frames of a run are worth, or the score at the start of the run where
/// that is more.
pub open spec fn best_height(m: ModelView, dts: Seq<Time>, draws: Seq<Draws>, frames: nat) -> Score
    decreases frames,
{
    if frames == 0 {
        m.score
    } else {
        higher(
            best_height(m, dts, draws, (frames - 1) as nat),
            height_score(run(m, dts, draws, (frames - 1) as nat).player.position.y),
        )
    }
}

/// Score monotonicity: over any run the score never falls, and after any
/// number of frames it is what the greatest height seen at the start of a
/// frame so far is worth, or the score that the run started with where that
/// is more.
pub proof fn lemma_score_is_best_height(
    m: ModelView,
    dts: Seq<Time>,
    draws: Seq<Draws>,
    frames: nat,
)
    ensures
        run(m, dts, draws, frames).score == best_height(m, dts, draws, frames),
        run(m, dts, draws, frames).score >= m.score,
        frames > 0 ==> run(m, dts, draws, frames).score >= run(
            m,
            dts,
            draws,
            (frames - 1) as nat,
        ).score,
    decreases frames,
{
    if frames > 0 {
        let before = (frames - 1) as nat;
        lemma_score_is_best_height(m, dts, draws, before);
        lemma_frame_score(run(m, dts, draws, before), dts[frames - 1], draws[frames - 1]);
    }
}

/// Collisions leave every remaining balloon and the player their mass.
pub proof fn lemma_collision_keeps_mass(m: ModelView)
    requires
        m.massive(),
    ensures
        collision_step(m).massive(),
{
    let touched = touch_step(ground_step(m));
    assert(touched.massive());
    lemma_pairs_step_keeps(touched);
    let paired = pairs_step(touched);
    assert(paired.massive());
    let all = paired.balloons.map_values(|b: Balloon| marked(b, paired.obstacles));
    let alive = |b: Balloon| !b.popped;
    let flags = Seq::new(all.len(), |i: int| alive(all[i]));
    let r = burst_step(paired);
    assert(r.balloons == all.filter(alive));
    lemma_filter_is_chosen(all, alive);
    lemma_chosen_members(all, flags);
    assert forall|x: int| 0 <= x < r.balloons.len() implies (#[trigger] r.balloons[x]).mass.raw
        != 0 by {
        assert(flagged(all, flags, r.balloons[x]));
        let w = choose|w: int|
            0 <= w < all.len() && 0 <= w < flags.len() && #[trigger] flags[w] && all[w]
                == r.balloons[x];
        assert(all[w].mass == paired.balloons[w].mass);
    }
}

/// Movement, spawning and the animations leave the tunables as they were
/// and every balloon with a mass, given tunables whose balloon mass is not
/// zero.
pub proof fn lemma_closing_steps_keep_mass(m: ModelView, dt: Time, d: Draws)
    requires
        m.massive(),
        m.config.balloon_mass.raw != 0,
    ensures
        animation_step(generation_step(movement_step(m, dt), dt, d), dt).massive(),
        animation_step(generation_step(movement_step(m, dt), dt, d), dt).config == m.config,
{
    let moved = movement_step(m, dt);
    assert(moved.massive());
    let a = obstacle_spawn_step(moved, dt, d.obstacle);
    let b = cloud_spawn_step(a, dt, d.cloud);
    assert(b.balloons == moved.balloons && b.player == moved.player && b.config == m.config);
    let c = balloon_spawn_step(b, dt, d.balloon);
    assert forall|i: int| 0 <= i < c.balloons.len() implies (#[trigger] c.balloons[i]).mass.raw
        != 0 by {
        if i < b.balloons.len() && c.balloons[i] == b.balloons[i] {
        } else {
            assert(c.balloons[i].mass == m.config.balloon_mass);
        }
    }
}

/// A frame leaves the tunables as they were, and a world that was ready for
/// it with every mass in place.
pub proof fn lemma_frame_keeps_setup(m: ModelView, dt: Time, d: Draws)
    requires
        m.ready(),
    ensures
        frame_step(m, dt, d).config == m.config,
        frame_step(m, dt, d).massive(),
{
    lemma_before_collisions(m, dt, d.pop as int);
    let cleared = ModelView { events: Seq::empty(), ..m };
    let pulled = tether_step(gravity_step(score_step(sound_step(cleared)), dt));
    let popped = pop_step(pulled, dt, d.pop as int);
    lemma_collision_keeps(popped);
    lemma_collision_keeps_mass(popped);
    lemma_closing_steps_keep_mass(collision_step(popped), dt, d);
}

/// Death is final within a run: a frame never brings a dead player back to
/// life, and it kills a live one only if, when the player comes to touch
/// things, an obstacle overlaps it.
pub proof fn lemma_death_is_final(m: ModelView, dt: Time, d: Draws)
    ensures
        !m.player.alive ==> !frame_step(m, dt, d).player.alive,
        m.player.alive && !frame_step(m, dt, d).player.alive ==> ({
            let cleared = ModelView { events: Seq::empty(), ..m };
            let pulled = tether_step(gravity_step(score_step(sound_step(cleared)), dt));
            let grounded = ground_step(pop_step(pulled, dt, d.pop as int));
            exists|k: int|
                0 <= k < grounded.obstacles.len() && hits(
                    grounded.player,
                    #[trigger] grounded.obstacles[k],
                )
        }),
{
    let cleared = ModelView { events: Seq::empty(), ..m };
    let lifted = gravity_step(score_step(sound_step(cleared)), dt);
    lemma_tether_step_keeps(lifted);
    let pulled = tether_step(lifted);
    let grounded = ground_step(pop_step(pulled, dt, d.pop as int));
    assert(grounded.player.alive == m.player.alive);
    let touched = touch_step(grounded);
    lemma_first_hit(grounded.player, grounded.obstacles, 0);
    lemma_pairs_step_keeps(touched);
    let collided = burst_step(pairs_step(touched));
    assert(collided.player.alive == touched.player.alive);
    assert(frame_step(m, dt, d).player.alive == collided.player.alive);
    if m.player.alive && !touched.player.alive {
        let at = first_hit(grounded.player, grounded.obstacles, 0);
        assert(hits(grounded.player, grounded.obstacles[at]));
    }
}

} // verus!
