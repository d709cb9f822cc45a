//! The invariant of a world, and why every frame keeps it.

use vstd::prelude::*;
use crate::collection::{
    distinct_ids, flagged, has_id, index_of, inserted, lemma_chosen_distinct, lemma_chosen_members,
    lemma_chosen_no_duplicates, lemma_filter_is_chosen, lemma_index_of, HasId,
};
use crate::fixed::Time;
use crate::frame::{
    animation_step, balloon_drawn, balloon_popped, balloon_spawn_step, burst_step, catch_ids,
    catch_step, catches, cloud_drawn, cloud_spawn_step, collision_step, doomed, first_hit,
    frame_step, generation_step, gravity_step, ground_step, kill_step, marked, movement_step,
    obstacle_drawn, obstacle_spawn_step, pair_resolved, pairs_rest, pairs_step, pop_step, run,
    score_step, sound_step, tether_pull, tether_rest, tether_step, touch_step, BalloonDraw, Draws,
    SpawnDraw,
};
use crate::id::Id;
use crate::laws::{
    lemma_collision_keeps, lemma_first_hit, lemma_tether_rest_keeps, lemma_tether_step_keeps,
};
use crate::model::{tied, Balloon, Event, ModelView, PlayerView};

verus! {

/// Whether two sequences of entities carry the same identifiers in the
/// same order.
pub open spec fn same_ids<T: HasId>(before: Seq<T>, after: Seq<T>) -> bool {
    &&& after.len() == before.len()
    &&& forall|i: int| 0 <= i < after.len() ==>
        (#[trigger] after[i]).spec_id() == before[i].spec_id()
}

/// Whether a world differs from an earlier one in nothing that the
/// invariant speaks of: the same identifiers everywhere, the same balloons
/// attached and marked, the same list, the same generator.
pub open spec fn same_shape(before: ModelView, after: ModelView) -> bool {
    &&& same_ids(before.balloons, after.balloons)
    &&& forall|i: int|
        0 <= i < after.balloons.len() ==> (#[trigger] after.balloons[i]).attached_to_player
            == before.balloons[i].attached_to_player && after.balloons[i].popped
            == before.balloons[i].popped
    &&& same_ids(before.obstacles, after.obstacles)
    &&& same_ids(before.clouds, after.clouds)
    &&& after.player.balloons == before.player.balloons
    &&& after.id_gen == before.id_gen
}

/// A world of the same shape as one that satisfies the invariant satisfies
/// it too.
pub proof fn lemma_same_shape_wf(before: ModelView, after: ModelView)
    requires
        before.wf(),
        same_shape(before, after),
    ensures
        after.wf(),
{
    assert forall|i: int, j: int| 0 <= i < j < after.balloons.len() implies (
    #[trigger] after.balloons[i]).id != (#[trigger] after.balloons[j]).id by {
        assert(before.balloons[i].id != before.balloons[j].id);
    }
    assert forall|i: int, j: int| 0 <= i < j < after.obstacles.len() implies (
    #[trigger] after.obstacles[i]).id != (#[trigger] after.obstacles[j]).id by {
        assert(before.obstacles[i].id != before.obstacles[j].id);
    }
    assert forall|i: int, j: int| 0 <= i < j < after.clouds.len() implies (
    #[trigger] after.clouds[i]).id != (#[trigger] after.clouds[j]).id by {
        assert(before.clouds[i].id != before.clouds[j].id);
    }
    assert forall|k: int| 0 <= k < after.player.balloons.len() implies tied(
        after.balloons,
        #[trigger] after.player.balloons[k],
    ) by {
        let id = before.player.balloons[k];
        assert(tied(before.balloons, id));
        let w = choose|w: int|
            0 <= w < before.balloons.len() && (#[trigger] before.balloons[w]).id == id
                && before.balloons[w].attached_to_player;
        assert(after.balloons[w].id == id && after.balloons[w].attached_to_player);
    }
    assert forall|i: int|
        0 <= i < after.balloons.len() && (#[trigger] after.balloons[i]).attached_to_player
            implies after.holds(
        after.balloons[i].id,
    ) by {
        assert(before.balloons[i].attached_to_player);
        assert(before.holds(before.balloons[i].id));
    }
    assert forall|i: int| 0 <= i < after.balloons.len()
        implies !(#[trigger] after.balloons[i]).popped
        && after.balloons[i].id@ < after.id_gen.upcoming() by {
        assert(!before.balloons[i].popped);
        assert(before.balloons[i].id@ < before.id_gen.upcoming());
    }
    assert forall|i: int| 0 <= i < after.obstacles.len() implies (#[trigger] after.obstacles[i]).id@
        < after.id_gen.upcoming() by {
        assert(before.obstacles[i].id@ < before.id_gen.upcoming());
    }
    assert forall|i: int| 0 <= i < after.clouds.len() implies (#[trigger] after.clouds[i]).id@
        < after.id_gen.upcoming() by {
        assert(before.clouds[i].id@ < before.id_gen.upcoming());
    }
}

/// Where every identifier from place `from` on names a live balloon, the
/// tethers leave the list as `kept` followed by those identifiers.
pub proof fn lemma_tether_rest_list(m: ModelView, ids: Seq<Id>, from: int, kept: Seq<Id>)
    requires
        0 <= from <= ids.len(),
        forall|k: int| from <= k < ids.len() ==> has_id(m.balloons, #[trigger] ids[k]),
    ensures
        tether_rest(m, ids, from, kept).player.balloons == kept + ids.subrange(
            from,
            ids.len() as int,
        ),
    decreases ids.len() - from,
{
    if from < ids.len() {
        let id = ids[from];
        let next = tether_pull(m, id);
        assert(has_id(m.balloons, id));
        assert forall|k: int| from + 1 <= k < ids.len() implies has_id(
            next.balloons,
            #[trigger] ids[k],
        ) by {
            assert(has_id(m.balloons, ids[k]));
            let w = index_of(m.balloons, ids[k]);
            assert(next.balloons[w].id == m.balloons[w].id);
        }
        lemma_tether_rest_list(next, ids, from + 1, kept.push(id));
        assert(kept.push(id) + ids.subrange(from + 1, ids.len() as int) =~= kept + ids.subrange(
            from,
            ids.len() as int,
        ));
    } else {
        assert(kept + ids.subrange(from, ids.len() as int) =~= kept);
    }
}

/// The tether step keeps the invariant.
pub proof fn lemma_tether_step_wf(m: ModelView)
    requires
        m.wf(),
    ensures
        tether_step(m).wf(),
{
    let list = m.player.balloons;
    assert forall|k: int| 0 <= k < list.len() implies has_id(m.balloons, #[trigger] list[k]) by {
        assert(tied(m.balloons, list[k]));
    }
    lemma_tether_rest_list(m, list, 0, Seq::empty());
    lemma_tether_rest_keeps(m, list, 0, Seq::empty());
    let r = tether_step(m);
    assert(r.player.balloons =~= list);
    lemma_same_shape_wf(m, r);
}

/// The gravity step keeps the invariant.
pub proof fn lemma_gravity_step_wf(m: ModelView, dt: Time)
    requires
        m.wf(),
    ensures
        gravity_step(m, dt).wf(),
{
    lemma_same_shape_wf(m, gravity_step(m, dt));
}

/// Popping the balloon that place `k` of the list names keeps the
/// invariant.
pub proof fn lemma_balloon_popped_wf(m: ModelView, k: int)
    requires
        m.wf(),
        0 <= k < m.player.balloons.len(),
    ensures
        balloon_popped(m, k).wf(),
{
    let list = m.player.balloons;
    let id = list[k];
    assert(tied(m.balloons, id));
    let i = index_of(m.balloons, id);
    assert(has_id(m.balloons, id));
    assert(0 <= i < m.balloons.len() && m.balloons[i].id == id);
    let r = balloon_popped(m, k);
    m.balloons.remove_ensures(i);
    list.remove_ensures(k);
    assert(r.balloons == m.balloons.remove(i));
    assert(r.player.balloons == list.remove(k));
    assert forall|a: int, b: int| 0 <= a < b < r.balloons.len()
        implies (#[trigger] r.balloons[a]).id
        != (#[trigger] r.balloons[b]).id by {
        let a0 = if a < i {
            a
        } else {
            a + 1
        };
        let b0 = if b < i {
            b
        } else {
            b + 1
        };
        assert(r.balloons[a] == m.balloons[a0] && r.balloons[b] == m.balloons[b0]);
        assert(m.balloons[a0].id != m.balloons[b0].id);
    }
    assert forall|a: int, b: int|
        0 <= a < r.player.balloons.len() && 0 <= b < r.player.balloons.len() && a
            != b implies r.player.balloons[a] != r.player.balloons[b] by {
        let a0 = if a < k {
            a
        } else {
            a + 1
        };
        let b0 = if b < k {
            b
        } else {
            b + 1
        };
        assert(r.player.balloons[a] == list[a0] && r.player.balloons[b] == list[b0]);
    }
    assert forall|a: int| 0 <= a < r.player.balloons.len() implies tied(
        r.balloons,
        #[trigger] r.player.balloons[a],
    ) by {
        let a0 = if a < k {
            a
        } else {
            a + 1
        };
        assert(r.player.balloons[a] == list[a0]);
        assert(list[a0] != id);
        assert(tied(m.balloons, list[a0]));
        let w = choose|w: int|
            0 <= w < m.balloons.len() && (#[trigger] m.balloons[w]).id == list[a0]
                && m.balloons[w].attached_to_player;
        assert(w != i);
        let moved_w = if w < i {
            w
        } else {
            w - 1
        };
        assert(r.balloons[moved_w] == m.balloons[w]);
    }
    assert forall|x: int|
        0 <= x < r.balloons.len() && (#[trigger] r.balloons[x]).attached_to_player implies r.holds(
        r.balloons[x].id,
    ) by {
        let x0 = if x < i {
            x
        } else {
            x + 1
        };
        assert(r.balloons[x] == m.balloons[x0]);
        assert(m.holds(m.balloons[x0].id));
        let p = choose|p: int| 0 <= p < list.len() && list[p] == m.balloons[x0].id;
        if x0 < i {
            assert(m.balloons[x0].id != m.balloons[i].id);
        } else {
            assert(m.balloons[i].id != m.balloons[x0].id);
        }
        assert(p != k);
        let moved_p = if p < k {
            p
        } else {
            p - 1
        };
        assert(r.player.balloons[moved_p] == list[p]);
    }
    assert forall|x: int| 0 <= x < r.balloons.len() implies !(#[trigger] r.balloons[x]).popped
        && r.balloons[x].id@ < r.id_gen.upcoming() by {
        let x0 = if x < i {
            x
        } else {
            x + 1
        };
        assert(r.balloons[x] == m.balloons[x0]);
    }
}

/// The periodic pop keeps the invariant.
pub proof fn lemma_pop_step_wf(m: ModelView, dt: Time, pick: int)
    requires
        m.wf(),
        pick >= 0,
    ensures
        pop_step(m, dt, pick).wf(),
{
    let left = m.next_pop.spec_sub(dt);
    if left.raw < 0 && m.player.balloons.len() > 0 {
        let count = m.player.balloons.len() as int;
        let k = pick % count;
        assert(0 <= k < count) by (nonlinear_arith)
            requires
                pick >= 0,
                count > 0,
                k == pick % count,
        ;
        lemma_balloon_popped_wf(m, k);
        lemma_same_shape_wf(balloon_popped(m, k), pop_step(m, dt, pick));
    } else {
        lemma_same_shape_wf(m, pop_step(m, dt, pick));
    }
}

/// The player's death keeps the invariant.
pub proof fn lemma_kill_step_wf(m: ModelView)
    requires
        m.wf(),
    ensures
        kill_step(m).wf(),
{
    let r = kill_step(m);
    let freed = ModelView { player: PlayerView { balloons: m.player.balloons, ..r.player }, ..r };
    assert forall|i: int| 0 <= i < r.balloons.len()
        implies !(#[trigger] r.balloons[i]).attached_to_player
        && r.balloons[i].id == m.balloons[i].id && !r.balloons[i].popped && r.balloons[i].id@
        < r.id_gen.upcoming() by {
        if m.balloons[i].attached_to_player {
            assert(m.holds(m.balloons[i].id));
        }
        assert(!m.balloons[i].popped);
        assert(m.balloons[i].id@ < m.id_gen.upcoming());
    }
    assert forall|i: int, j: int| 0 <= i < j < r.balloons.len()
        implies (#[trigger] r.balloons[i]).id
        != (#[trigger] r.balloons[j]).id by {
        assert(m.balloons[i].id != m.balloons[j].id);
    }
}

/// Whether the identifier names a balloon of the sequence that the player
/// catches.
pub open spec fn names_catch(p: PlayerView, balloons: Seq<Balloon>, id: Id) -> bool {
    exists|w: int| 0 <= w < balloons.len() && catches(p, #[trigger] balloons[w])
        && balloons[w].id == id
}

/// The identifiers of the balloons that the player catches are those of
/// free balloons of the world, each once.
pub proof fn lemma_catch_ids(m: ModelView)
    requires
        m.wf(),
    ensures
        catch_ids(m.player, m.balloons).no_duplicates(),
        forall|k: int|
            0 <= k < catch_ids(m.player, m.balloons).len() ==> names_catch(
                m.player,
                m.balloons,
                #[trigger] catch_ids(m.player, m.balloons)[k],
            ),
        forall|w: int|
            0 <= w < m.balloons.len() && catches(m.player, #[trigger] m.balloons[w]) ==> catch_ids(
                m.player,
                m.balloons,
            ).contains(m.balloons[w].id),
{
    let pred = |b: Balloon| catches(m.player, b);
    let flags = Seq::new(m.balloons.len(), |i: int| pred(m.balloons[i]));
    let found = m.balloons.filter(pred);
    let ids = catch_ids(m.player, m.balloons);
    lemma_filter_is_chosen(m.balloons, pred);
    lemma_chosen_members(m.balloons, flags);
    lemma_chosen_distinct(m.balloons, flags);
    assert(ids.len() == found.len());
    assert forall|a: int, b: int| 0 <= a < ids.len() && 0 <= b < ids.len() && a != b implies ids[a]
        != ids[b] by {
        assert(ids[a] == found[a].id && ids[b] == found[b].id);
        if a < b {
            assert(found[a].id != found[b].id);
        } else {
            assert(found[b].id != found[a].id);
        }
    }
    assert forall|k: int| 0 <= k < ids.len() implies names_catch(
        m.player,
        m.balloons,
        #[trigger] ids[k],
    ) by {
        assert(flagged(m.balloons, flags, found[k]));
        let w = choose|w: int|
            0 <= w < m.balloons.len() && 0 <= w < flags.len() && #[trigger] flags[w]
                && m.balloons[w] == found[k];
        assert(catches(m.player, m.balloons[w]) && m.balloons[w].id == ids[k]);
    }
    assert forall|w: int|
        0 <= w < m.balloons.len() && catches(m.player, #[trigger] m.balloons[w])
            implies ids.contains(
        m.balloons[w].id,
    ) by {
        assert(flags[w]);
        assert(found.contains(m.balloons[w]));
        let k = choose|k: int| 0 <= k < found.len() && found[k] == m.balloons[w];
        assert(ids[k] == m.balloons[w].id);
    }
}

/// Catching balloons keeps the invariant.
pub proof fn lemma_catch_step_wf(m: ModelView)
    requires
        m.wf(),
    ensures
        catch_step(m).wf(),
{
    let r = catch_step(m);
    let list = m.player.balloons;
    let ids = catch_ids(m.player, m.balloons);
    lemma_catch_ids(m);
    assert(r.player.balloons == list + ids);
    assert forall|i: int, j: int| 0 <= i < j < r.balloons.len()
        implies (#[trigger] r.balloons[i]).id
        != (#[trigger] r.balloons[j]).id by {
        assert(m.balloons[i].id != m.balloons[j].id);
    }
    assert forall|a: int, b: int|
        0 <= a < r.player.balloons.len() && 0 <= b < r.player.balloons.len() && a
            != b implies r.player.balloons[a] != r.player.balloons[b] by {
        if a < list.len() && b < list.len() {
            assert(list[a] != list[b]);
        } else if a >= list.len() && b >= list.len() {
            assert(ids[a - list.len()] != ids[b - list.len()]);
        } else {
            let (old, new) = if a < list.len() {
                (a, b - list.len())
            } else {
                (b, a - list.len())
            };
            assert(tied(m.balloons, list[old]));
            assert(names_catch(m.player, m.balloons, ids[new]));
            let w = choose|w: int|
                0 <= w < m.balloons.len() && (#[trigger] m.balloons[w]).id == list[old]
                    && m.balloons[w].attached_to_player;
            let x = choose|x: int|
                0 <= x < m.balloons.len() && catches(m.player, #[trigger] m.balloons[x])
                    && m.balloons[x].id == ids[new];
            if w < x {
                assert(m.balloons[w].id != m.balloons[x].id);
            } else if x < w {
                assert(m.balloons[x].id != m.balloons[w].id);
            }
        }
    }
    assert forall|k: int| 0 <= k < r.player.balloons.len() implies tied(
        r.balloons,
        #[trigger] r.player.balloons[k],
    ) by {
        if k < list.len() {
            assert(tied(m.balloons, list[k]));
            let w = choose|w: int|
                0 <= w < m.balloons.len() && (#[trigger] m.balloons[w]).id == list[k]
                    && m.balloons[w].attached_to_player;
            assert(r.balloons[w].id == list[k] && r.balloons[w].attached_to_player);
        } else {
            assert(names_catch(m.player, m.balloons, ids[k - list.len()]));
            let x = choose|x: int|
                0 <= x < m.balloons.len() && catches(m.player, #[trigger] m.balloons[x])
                    && m.balloons[x].id == ids[k - list.len()];
            assert(r.balloons[x].id == ids[k - list.len()] && r.balloons[x].attached_to_player);
        }
    }
    assert forall|i: int|
        0 <= i < r.balloons.len() && (#[trigger] r.balloons[i]).attached_to_player implies r.holds(
        r.balloons[i].id,
    ) by {
        if m.balloons[i].attached_to_player {
            assert(m.holds(m.balloons[i].id));
            let p = choose|p: int| 0 <= p < list.len() && list[p] == m.balloons[i].id;
            assert(r.player.balloons[p] == m.balloons[i].id);
        } else {
            assert(catches(m.player, m.balloons[i]));
            assert(ids.contains(m.balloons[i].id));
            let p = choose|p: int| 0 <= p < ids.len() && ids[p] == m.balloons[i].id;
            assert(r.player.balloons[list.len() + p] == m.balloons[i].id);
        }
    }
    assert forall|i: int| 0 <= i < r.balloons.len() implies !(#[trigger] r.balloons[i]).popped
        && r.balloons[i].id@ < r.id_gen.upcoming() by {
        assert(!m.balloons[i].popped);
        assert(m.balloons[i].id@ < m.id_gen.upcoming());
    }
}

/// The ground keeps the invariant.
pub proof fn lemma_ground_step_wf(m: ModelView)
    requires
        m.wf(),
    ensures
        ground_step(m).wf(),
{
    lemma_same_shape_wf(m, ground_step(m));
}

/// Touching keeps the invariant.
pub proof fn lemma_touch_step_wf(m: ModelView)
    requires
        m.wf(),
    ensures
        touch_step(m).wf(),
{
    if m.player.alive {
        lemma_first_hit(m.player, m.obstacles, 0);
        let at = first_hit(m.player, m.obstacles, 0);
        if at < m.obstacles.len() {
            let hit = ModelView {
                player: PlayerView {
                    velocity: m.player.velocity.spec_add(m.obstacles[at].velocity),
                    ..m.player
                },
                events: m.events.push(Event::Hit),
                ..m
            };
            lemma_same_shape_wf(m, hit);
            lemma_kill_step_wf(hit);
        } else {
            lemma_catch_step_wf(m);
        }
    }
}

/// The contact of two balloons keeps the invariant.
pub proof fn lemma_pair_resolved_wf(m: ModelView, i: int, j: int)
    requires
        m.wf(),
        0 <= i < j < m.balloons.len(),
    ensures
        pair_resolved(m, i, j).wf(),
        pair_resolved(m, i, j).balloons.len() == m.balloons.len(),
{
    let r = pair_resolved(m, i, j);
    let list = m.player.balloons;
    let a = m.balloons[i];
    let b = m.balloons[j];
    let chain = r.player.balloons.len() != list.len();
    let f = if a.attached_to_player {
        j
    } else {
        i
    };
    assert(a.id != b.id);
    assert forall|x: int| 0 <= x < r.balloons.len() implies (#[trigger] r.balloons[x]).id
        == m.balloons[x].id && r.balloons[x].popped == m.balloons[x].popped && (
    m.balloons[x].attached_to_player ==> r.balloons[x].attached_to_player) && (
    r.balloons[x].attached_to_player && !m.balloons[x].attached_to_player ==> chain && x == f) by {}
    assert forall|x: int, y: int| 0 <= x < y < r.balloons.len()
        implies (#[trigger] r.balloons[x]).id
        != (#[trigger] r.balloons[y]).id by {
        assert(m.balloons[x].id != m.balloons[y].id);
    }
    if chain {
        let fid = m.balloons[f].id;
        assert(r.player.balloons == list.push(fid));
        assert(!m.balloons[f].attached_to_player);
        assert(r.balloons[f].attached_to_player);
        assert forall|p: int| 0 <= p < list.len() implies list[p] != fid by {
            if list[p] == fid {
                assert(tied(m.balloons, list[p]));
                let w = choose|w: int|
                    0 <= w < m.balloons.len() && (#[trigger] m.balloons[w]).id == list[p]
                        && m.balloons[w].attached_to_player;
                if w < f {
                    assert(m.balloons[w].id != m.balloons[f].id);
                } else if f < w {
                    assert(m.balloons[f].id != m.balloons[w].id);
                }
            }
        }
        assert forall|p: int, q: int|
            0 <= p < r.player.balloons.len() && 0 <= q < r.player.balloons.len() && p
                != q implies r.player.balloons[p] != r.player.balloons[q] by {
            if p < list.len() && q < list.len() {
                assert(list[p] != list[q]);
            }
        }
    }
    assert forall|k: int| 0 <= k < r.player.balloons.len() implies tied(
        r.balloons,
        #[trigger] r.player.balloons[k],
    ) by {
        if k < list.len() {
            assert(r.player.balloons[k] == list[k]);
            assert(tied(m.balloons, list[k]));
            let w = choose|w: int|
                0 <= w < m.balloons.len() && (#[trigger] m.balloons[w]).id == list[k]
                    && m.balloons[w].attached_to_player;
            assert(r.balloons[w].id == list[k] && r.balloons[w].attached_to_player);
        } else {
            assert(r.balloons[f].id == r.player.balloons[k] && r.balloons[f].attached_to_player);
        }
    }
    assert forall|x: int|
        0 <= x < r.balloons.len() && (#[trigger] r.balloons[x]).attached_to_player implies r.holds(
        r.balloons[x].id,
    ) by {
        if m.balloons[x].attached_to_player {
            assert(m.holds(m.balloons[x].id));
            let p = choose|p: int| 0 <= p < list.len() && list[p] == m.balloons[x].id;
            assert(r.player.balloons[p] == m.balloons[x].id);
        } else {
            assert(r.player.balloons[list.len() as int] == r.balloons[x].id);
        }
    }
    assert forall|x: int| 0 <= x < r.balloons.len() implies !(#[trigger] r.balloons[x]).popped
        && r.balloons[x].id@ < r.id_gen.upcoming() by {
        assert(!m.balloons[x].popped);
        assert(m.balloons[x].id@ < m.id_gen.upcoming());
    }
}

/// The contacts of all pairs from `(i, j)` on keep the invariant.
pub proof fn lemma_pairs_rest_wf(m: ModelView, count: int, i: int, j: int)
    requires
        m.wf(),
        count == m.balloons.len(),
    ensures
        pairs_rest(m, count, i, j).wf(),
    decreases count - i, count - j,
{
    if i < 0 || i >= count {
    } else if j <= i || j >= count {
        lemma_pairs_rest_wf(m, count, i + 1, i + 2);
    } else {
        lemma_pair_resolved_wf(m, i, j);
        lemma_pairs_rest_wf(pair_resolved(m, i, j), count, i, j + 1);
    }
}

/// The balloon-to-balloon step keeps the invariant.
pub proof fn lemma_pairs_step_wf(m: ModelView)
    requires
        m.wf(),
    ensures
        pairs_step(m).wf(),
{
    lemma_pairs_rest_wf(m, m.balloons.len() as int, 0, 1);
}

/// The balloon-to-obstacle step keeps the invariant.
pub proof fn lemma_burst_step_wf(m: ModelView)
    requires
        m.wf(),
    ensures
        burst_step(m).wf(),
{
    let r = burst_step(m);
    let list = m.player.balloons;
    let all = m.balloons.map_values(|b: Balloon| marked(b, m.obstacles));
    let alive = |b: Balloon| !b.popped;
    let stays = |id: Id| !doomed(all, id);
    let alive_flags = Seq::new(all.len(), |i: int| alive(all[i]));
    let stay_flags = Seq::new(list.len(), |i: int| stays(list[i]));
    assert(r.balloons == all.filter(alive));
    assert(r.player.balloons == list.filter(stays));
    assert forall|i: int, j: int| 0 <= i < j < all.len() implies (#[trigger] all[i]).id != (
    #[trigger] all[j]).id by {
        assert(m.balloons[i].id != m.balloons[j].id);
    }
    assert(distinct_ids(all));
    lemma_filter_is_chosen(all, alive);
    lemma_filter_is_chosen(list, stays);
    lemma_chosen_distinct(all, alive_flags);
    lemma_chosen_members(all, alive_flags);
    lemma_chosen_no_duplicates(list, stay_flags);
    lemma_chosen_members(list, stay_flags);
    assert forall|k: int| 0 <= k < r.player.balloons.len() implies tied(
        r.balloons,
        #[trigger] r.player.balloons[k],
    ) by {
        let id = r.player.balloons[k];
        assert(flagged(list, stay_flags, id));
        let p = choose|p: int|
            0 <= p < list.len() && 0 <= p < stay_flags.len() && #[trigger] stay_flags[p] && list[p]
                == id;
        assert(!doomed(all, id));
        assert(tied(m.balloons, list[p]));
        let w = choose|w: int|
            0 <= w < m.balloons.len() && (#[trigger] m.balloons[w]).id == id
                && m.balloons[w].attached_to_player;
        assert(all[w].id == id && all[w].attached_to_player);
        lemma_index_of(all, w);
        assert(!all[w].popped);
        assert(alive_flags[w]);
        assert(r.balloons.contains(all[w]));
        let x = choose|x: int| 0 <= x < r.balloons.len() && r.balloons[x] == all[w];
        assert(r.balloons[x].id == id && r.balloons[x].attached_to_player);
    }
    assert forall|x: int|
        0 <= x < r.balloons.len() && (#[trigger] r.balloons[x]).attached_to_player implies r.holds(
        r.balloons[x].id,
    ) by {
        assert(flagged(all, alive_flags, r.balloons[x]));
        let w = choose|w: int|
            0 <= w < all.len() && 0 <= w < alive_flags.len() && #[trigger] alive_flags[w] && all[w]
                == r.balloons[x];
        assert(all[w] == marked(m.balloons[w], m.obstacles));
        assert(m.balloons[w].attached_to_player);
        let id = m.balloons[w].id;
        assert(m.holds(id));
        let p = choose|p: int| 0 <= p < list.len() && list[p] == id;
        lemma_index_of(all, w);
        assert(!doomed(all, id));
        assert(stay_flags[p]);
        assert(r.player.balloons.contains(list[p]));
    }
    assert forall|x: int| 0 <= x < r.balloons.len() implies !(#[trigger] r.balloons[x]).popped
        && r.balloons[x].id@ < r.id_gen.upcoming() by {
        assert(flagged(all, alive_flags, r.balloons[x]));
        let w = choose|w: int|
            0 <= w < all.len() && 0 <= w < alive_flags.len() && #[trigger] alive_flags[w] && all[w]
                == r.balloons[x];
        assert(all[w].id == m.balloons[w].id);
        assert(m.balloons[w].id@ < m.id_gen.upcoming());
    }
}

/// The collision step keeps the invariant.
pub proof fn lemma_collision_step_wf(m: ModelView)
    requires
        m.wf(),
    ensures
        collision_step(m).wf(),
{
    lemma_ground_step_wf(m);
    lemma_touch_step_wf(ground_step(m));
    lemma_pairs_step_wf(touch_step(ground_step(m)));
    lemma_burst_step_wf(pairs_step(touch_step(ground_step(m))));
}

/// Inserting an entity whose identifier is the generator's next one into a
/// sequence of older entities appends it and keeps the identifiers
/// distinct.
pub proof fn lemma_insert_fresh<T: HasId>(items: Seq<T>, entity: T, upcoming: u64)
    requires
        distinct_ids(items),
        entity.spec_id()@ == upcoming,
        forall|i: int| 0 <= i < items.len() ==> (#[trigger] items[i]).spec_id()@ < upcoming,
    ensures
        inserted(items, entity) == items.push(entity),
        distinct_ids(inserted(items, entity)),
{
    if has_id(items, entity.spec_id()) {
        let w = index_of(items, entity.spec_id());
        assert(items[w].spec_id()@ < upcoming);
    }
    let r = items.push(entity);
    assert forall|i: int, j: int| 0 <= i < j < r.len() implies (#[trigger] r[i]).spec_id() != (
    #[trigger] r[j]).spec_id() by {
        assert(r[i] == items[i]);
        if j < items.len() {
            assert(r[j] == items[j]);
        } else {
            assert(items[i].spec_id()@ < upcoming);
        }
    }
}

/// The obstacle spawner keeps the invariant and issues at most one
/// identifier.
pub proof fn lemma_obstacle_spawn_wf(m: ModelView, dt: Time, d: SpawnDraw)
    requires
        m.wf(),
        m.id_gen.upcoming() < u64::MAX,
    ensures
        obstacle_spawn_step(m, dt, d).wf(),
        m.id_gen.upcoming() <= obstacle_spawn_step(m, dt, d).id_gen.upcoming() <=
            m.id_gen.upcoming()
            + 1,
{
    let r = obstacle_spawn_step(m, dt, d);
    m.id_gen.lemma_advanced();
    if r.obstacles != m.obstacles {
        let o = obstacle_drawn(m, d);
        lemma_insert_fresh(m.obstacles, o, m.id_gen.upcoming());
        assert forall|i: int| 0 <= i < r.obstacles.len() implies (#[trigger] r.obstacles[i]).id@
            < r.id_gen.upcoming() by {
            if i < m.obstacles.len() {
                assert(r.obstacles[i] == m.obstacles[i]);
            }
        }
        assert forall|i: int| 0 <= i < r.balloons.len() implies (#[trigger] r.balloons[i]).id@
            < r.id_gen.upcoming() by {
            assert(m.balloons[i].id@ < m.id_gen.upcoming());
        }
        assert forall|i: int| 0 <= i < r.clouds.len() implies (#[trigger] r.clouds[i]).id@
            < r.id_gen.upcoming() by {
            assert(m.clouds[i].id@ < m.id_gen.upcoming());
        }
    } else {
        lemma_same_shape_wf(m, r);
    }
}

/// The cloud spawner keeps the invariant and issues at most one
/// identifier.
pub proof fn lemma_cloud_spawn_wf(m: ModelView, dt: Time, d: SpawnDraw)
    requires
        m.wf(),
        m.id_gen.upcoming() < u64::MAX,
    ensures
        cloud_spawn_step(m, dt, d).wf(),
        m.id_gen.upcoming() <= cloud_spawn_step(m, dt, d).id_gen.upcoming() <= m.id_gen.upcoming()
            + 1,
{
    let r = cloud_spawn_step(m, dt, d);
    m.id_gen.lemma_advanced();
    if r.clouds != m.clouds {
        let c = cloud_drawn(m, d);
        lemma_insert_fresh(m.clouds, c, m.id_gen.upcoming());
        assert forall|i: int| 0 <= i < r.clouds.len() implies (#[trigger] r.clouds[i]).id@
            < r.id_gen.upcoming() by {
            if i < m.clouds.len() {
                assert(r.clouds[i] == m.clouds[i]);
            }
        }
        assert forall|i: int| 0 <= i < r.balloons.len() implies (#[trigger] r.balloons[i]).id@
            < r.id_gen.upcoming() by {
            assert(m.balloons[i].id@ < m.id_gen.upcoming());
        }
        assert forall|i: int| 0 <= i < r.obstacles.len() implies (#[trigger] r.obstacles[i]).id@
            < r.id_gen.upcoming() by {
            assert(m.obstacles[i].id@ < m.id_gen.upcoming());
        }
    } else {
        lemma_same_shape_wf(m, r);
    }
}

/// The balloon spawner keeps the invariant and issues at most one
/// identifier.
pub proof fn lemma_balloon_spawn_wf(m: ModelView, dt: Time, d: BalloonDraw)
    requires
        m.wf(),
        m.id_gen.upcoming() < u64::MAX,
    ensures
        balloon_spawn_step(m, dt, d).wf(),
        m.id_gen.upcoming() <= balloon_spawn_step(m, dt, d).id_gen.upcoming() <= m.id_gen.upcoming()
            + 1,
{
    let r = balloon_spawn_step(m, dt, d);
    m.id_gen.lemma_advanced();
    if r.balloons != m.balloons {
        let b = balloon_drawn(m, d);
        lemma_insert_fresh(m.balloons, b, m.id_gen.upcoming());
        assert(r.balloons == m.balloons.push(b));
        assert forall|i: int| 0 <= i < r.balloons.len() implies (#[trigger] r.balloons[i]).id@
            < r.id_gen.upcoming() && !r.balloons[i].popped by {
            if i < m.balloons.len() {
                assert(r.balloons[i] == m.balloons[i]);
            }
        }
        assert forall|i: int| 0 <= i < r.obstacles.len() implies (#[trigger] r.obstacles[i]).id@
            < r.id_gen.upcoming() by {
            assert(m.obstacles[i].id@ < m.id_gen.upcoming());
        }
        assert forall|i: int| 0 <= i < r.clouds.len() implies (#[trigger] r.clouds[i]).id@
            < r.id_gen.upcoming() by {
            assert(m.clouds[i].id@ < m.id_gen.upcoming());
        }
        assert forall|k: int| 0 <= k < r.player.balloons.len() implies tied(
            r.balloons,
            #[trigger] r.player.balloons[k],
        ) by {
            assert(tied(m.balloons, m.player.balloons[k]));
            let w = choose|w: int|
                0 <= w < m.balloons.len() && (#[trigger] m.balloons[w]).id == m.player.balloons[k]
                    && m.balloons[w].attached_to_player;
            assert(r.balloons[w] == m.balloons[w]);
        }
        assert forall|i: int|
            0 <= i < r.balloons.len() && (#[trigger] r.balloons[i]).attached_to_player
                implies r.holds(
            r.balloons[i].id,
        ) by {
            assert(i < m.balloons.len());
            assert(r.balloons[i] == m.balloons[i]);
            assert(m.holds(m.balloons[i].id));
        }
    } else {
        lemma_same_shape_wf(m, r);
    }
}

/// Spawning keeps the invariant.
pub proof fn lemma_generation_step_wf(m: ModelView, dt: Time, d: Draws)
    requires
        m.wf(),
        m.id_gen.upcoming() <= u64::MAX - 3,
    ensures
        generation_step(m, dt, d).wf(),
        generation_step(m, dt, d).id_gen.upcoming() <= m.id_gen.upcoming() + 3,
{
    lemma_obstacle_spawn_wf(m, dt, d.obstacle);
    let a = obstacle_spawn_step(m, dt, d.obstacle);
    lemma_cloud_spawn_wf(a, dt, d.cloud);
    let b = cloud_spawn_step(a, dt, d.cloud);
    lemma_balloon_spawn_wf(b, dt, d.balloon);
}

/// The steps of a frame before the periodic pop keep the invariant and
/// leave the generator alone.
pub proof fn lemma_opening_steps_wf(m: ModelView, dt: Time)
    requires
        m.wf(),
    ensures
        tether_step(
            gravity_step(score_step(sound_step(ModelView { events: Seq::empty(), ..m })), dt),
        ).wf(),
        tether_step(
            gravity_step(score_step(sound_step(ModelView { events: Seq::empty(), ..m })), dt),
        ).id_gen == m.id_gen,
{
    let cleared = ModelView { events: Seq::empty(), ..m };
    let scored = score_step(sound_step(cleared));
    lemma_same_shape_wf(m, scored);
    lemma_gravity_step_wf(scored, dt);
    let lifted = gravity_step(scored, dt);
    lemma_tether_step_wf(lifted);
    lemma_tether_step_keeps(lifted);
}

/// The periodic pop and the collisions keep the invariant and leave the
/// generator alone.
pub proof fn lemma_middle_steps_wf(m: ModelView, dt: Time, pick: int)
    requires
        m.wf(),
        pick >= 0,
    ensures
        collision_step(pop_step(m, dt, pick)).wf(),
        collision_step(pop_step(m, dt, pick)).id_gen == m.id_gen,
{
    lemma_pop_step_wf(m, dt, pick);
    let popped = pop_step(m, dt, pick);
    assert(popped.id_gen == m.id_gen);
    lemma_collision_step_wf(popped);
    lemma_collision_keeps(popped);
}

/// Movement keeps the invariant and leaves the generator alone.
pub proof fn lemma_movement_step_wf(m: ModelView, dt: Time)
    requires
        m.wf(),
    ensures
        movement_step(m, dt).wf(),
        movement_step(m, dt).id_gen == m.id_gen,
{
    lemma_same_shape_wf(m, movement_step(m, dt));
}

/// The animations keep the invariant and leave the generator alone.
pub proof fn lemma_animation_step_wf(m: ModelView, dt: Time)
    requires
        m.wf(),
    ensures
        animation_step(m, dt).wf(),
        animation_step(m, dt).id_gen == m.id_gen,
{
    lemma_same_shape_wf(m, animation_step(m, dt));
}

/// The invariant of the world: a frame that starts from a world that
/// satisfies it, with three identifiers still to issue, ends in a world that
/// satisfies it, having issued at most three.
pub proof fn lemma_frame_step_wf(m: ModelView, dt: Time, d: Draws)
    requires
        m.wf(),
        m.id_gen.upcoming() <= u64::MAX - 3,
    ensures
        frame_step(m, dt, d).wf(),
        frame_step(m, dt, d).id_gen.upcoming() <= m.id_gen.upcoming() + 3,
{
    let cleared = ModelView { events: Seq::empty(), ..m };
    let pulled = tether_step(gravity_step(score_step(sound_step(cleared)), dt));
    lemma_opening_steps_wf(m, dt);
    let collided = collision_step(pop_step(pulled, dt, d.pop as int));
    lemma_middle_steps_wf(pulled, dt, d.pop as int);
    let moved = movement_step(collided, dt);
    lemma_movement_step_wf(collided, dt);
    let spawned = generation_step(moved, dt, d);
    lemma_generation_step_wf(moved, dt, d);
    lemma_animation_step_wf(spawned, dt);
    assert(frame_step(m, dt, d) == animation_step(spawned, dt));
}

/// Over a run that starts from a world that satisfies the invariant, every
/// frame that still has three identifiers to issue ends in a world that
/// satisfies it.
pub proof fn lemma_run_wf(m: ModelView, dts: Seq<Time>, draws: Seq<Draws>, frames: nat)
    requires
        m.wf(),
        m.id_gen.upcoming() + 3 * frames <= u64::MAX,
    ensures
        run(m, dts, draws, frames).wf(),
        run(m, dts, draws, frames).id_gen.upcoming() <= m.id_gen.upcoming() + 3 * frames,
    decreases frames,
{
    if frames > 0 {
        let before = (frames - 1) as nat;
        lemma_run_wf(m, dts, draws, before);
        lemma_frame_step_wf(run(m, dts, draws, before), dts[frames - 1], draws[frames - 1]);
    }
}

} // verus!
