//! The steps of a frame, carried out on a [`Model`].

use vstd::prelude::*;
use batbox::rng::StdRng;
use crate::collection::{chosen, distinct_ids, lemma_chosen_is_filter};
use crate::fixed::{Fixed, SCALE, Time};
use crate::frame::{
    animation_step, balloon_moved, burst_step, bursts, catch_ids, catch_step, catches, caught,
    cloud_moved, collision_step, doomed, first_hit, gravity_step, ground_step, height_score,
    kill_step, lifted, loudest_helicopter, marked, movement_step, obstacle_animated, obstacle_moved,
    pair_resolved, pairs_rest, pairs_step, phase_advanced, pop_step, released, score_step,
    sound_step, spec_sound_volume, struck, tether_pull, tether_rest, tether_step, tethered,
    touch_step,
};
use crate::id::Id;
use crate::model::{Balloon, Event, Model, ModelView, ObstacleType, PlayerView, Score};
use crate::physics::{collide, collide_impulses, damp, overlapping, penetration};
use crate::random::draw_index;
use crate::vec2::Vec2;

verus! {

/// One frame's worth of simulation: the steps, for a given elapsed time.
pub struct Logic {
    pub delta_time: Time,
}

/// The score that a height is worth.
pub fn score_of(y: Fixed) -> (r: Score)
    ensures
        r == height_score(y),
{
    let whole = y.floor().max(Fixed::zero());
    (whole.raw / SCALE) as u64
}

/// Advances an animation phase.
pub fn advance_phase(phase: Time, speed: Fixed, dt: Time) -> (r: Time)
    ensures
        r == phase_advanced(phase, speed, dt),
{
    let next = phase.add(speed.mul(dt));
    if next.raw >= SCALE {
        next.sub(Fixed::one())
    } else {
        next
    }
}

/// Pulls a point back to within `length` of an anchor.
pub fn tether(position: Vec2, anchor: Vec2, length: Fixed) -> (r: Vec2)
    ensures
        r == tethered(position, anchor, length),
{
    anchor.add(position.sub(anchor).clamp_len(length))
}

impl Model {
    /// How loud a sound at `position` is for the player.
    pub fn sound_volume(&self, position: Vec2) -> (r: Fixed)
        ensures
            r == spec_sound_volume(self.player.position, self.volume, position),
    {
        let distance = position.sub(self.player.position).len();
        let tenth = distance.div(Fixed::from_raw(10_000_000));
        Fixed::one().sub(tenth.mul(tenth)).max(Fixed::zero()).mul(self.volume)
    }
}

impl Logic {
    /// Sets the volumes of the wind and of the helicopters from where the
    /// player is.
    pub fn sounds(&self, model: &mut Model)
        ensures
            final(model)@ == sound_step(old(model)@),
    {
        let wind = model.player.position.y.max(Fixed::zero()).div(
            Fixed::from_raw(20_000_000),
        ).sqrt().max(Fixed::zero()).min(Fixed::one()).mul(model.volume);
        let mut loudest: Option<Fixed> = None;
        let mut i: usize = 0;
        while i < model.obstacles.len()
            invariant
                i <= model.obstacles@.len(),
                *model == *old(model),
                loudest == loudest_helicopter(
                    model.obstacles@.take(i as int),
                    model.player.position,
                    model.volume,
                ),
            decreases model.obstacles@.len() - i,
        {
            let o = *model.obstacles.at(i);
            proof {
                assert(model.obstacles@.take(i + 1).drop_last() =~=
                    model.obstacles@.take(i as int));
            }
            let helicopter = match o.obstacle_type {
                ObstacleType::Plane => false,
                ObstacleType::Helicopter1 => true,
                ObstacleType::Helicopter2 => true,
            };
            if helicopter {
                let here = model.sound_volume(o.position);
                loudest = match loudest {
                    Some(best) => Some(best.max(here)),
                    None => Some(here),
                };
            }
            i += 1;
        }
        proof {
            assert(model.obstacles@.take(i as int) =~= model.obstacles@);
        }
        model.wind_volume = wind;
        model.helicopter_volume = match loudest {
            Some(v) => v,
            None => Fixed::zero(),
        };
    }

    /// Raises the score to what the player's height is worth.
    pub fn update_score(&self, model: &mut Model)
        ensures
            final(model)@ == score_step(old(model)@),
    {
        let reached = score_of(model.player.position.y);
        if reached > model.score {
            model.score = reached;
        }
    }

    /// Lets gravity act on the player and, reversed, on the balloons.
    pub fn apply_gravity(&self, model: &mut Model)
        ensures
            final(model)@ == gravity_step(old(model)@, self.delta_time),
    {
        let pull = model.config.gravity.scale(self.delta_time);
        model.player.velocity = model.player.velocity.add(pull);
        let ghost start = model.balloons@;
        let mut i: usize = 0;
        while i < model.balloons.len()
            invariant
                i <= model.balloons@.len(),
                model.balloons@.len() == start.len(),
                pull == old(model).config.gravity.spec_scale(self.delta_time),
                forall|k: int|
                    0 <= k < i ==> #[trigger] model.balloons@[k] == lifted(
                        start[k],
                        old(model).config.gravity,
                        self.delta_time,
                    ),
                forall|k: int| i <= k < start.len() ==> #[trigger] model.balloons@[k] == start[k],
                model@ == (ModelView {
                    balloons: model.balloons@,
                    ..gravity_step(old(model)@, self.delta_time)
                }),
                start == old(model).balloons@,
            decreases start.len() - i,
        {
            let mut b = *model.balloons.at(i);
            b.velocity = b.velocity.sub(pull);
            model.balloons.set(i, b);
            i += 1;
        }
        proof {
            assert(model.balloons@ =~= gravity_step(old(model)@, self.delta_time).balloons);
        }
    }

    /// Applies drag, moves everything, keeps the player in the arena and
    /// attached balloons on their tethers.
    pub fn movement(&self, model: &mut Model)
        ensures
            final(model)@ == movement_step(old(model)@, self.delta_time),
    {
        let dt = self.delta_time;
        let ghost goal = movement_step(old(model)@, dt);
        let velocity = damp(model.player.velocity, model.player.drag, dt);
        let position = model.player.position.add(
            velocity.add(model.player_control_velocity).scale(dt),
        );
        model.player.velocity = velocity;
        model.player.position = Vec2::new(
            position.x.clamp_abs(model.config.arena_width),
            position.y,
        );
        let anchor = model.player.position;
        let mut i: usize = 0;
        while i < model.balloons.len()
            invariant
                i <= model.balloons@.len(),
                model.balloons@.len() == old(model).balloons@.len(),
                anchor == goal.player.position,
                goal == movement_step(old(model)@, dt),
                dt == self.delta_time,
                forall|k: int|
                    0 <= k < i ==> #[trigger] model.balloons@[k] == balloon_moved(
                        old(model).balloons@[k],
                        anchor,
                        old(model).config,
                        dt,
                    ),
                forall|k: int|
                    i <= k < model.balloons@.len() ==> #[trigger] model.balloons@[k] == old(
                        model,
                    ).balloons@[k],
                model@ == (ModelView {
                    balloons: model.balloons@,
                    obstacles: old(model).obstacles@,
                    clouds: old(model).clouds@,
                    ..goal
                }),
            decreases model.balloons@.len() - i,
        {
            let mut b = *model.balloons.at(i);
            b.drag = if b.attached_to_player {
                model.config.balloon_attached_drag
            } else {
                model.config.balloon_drag
            };
            b.velocity = damp(b.velocity, b.drag, dt);
            b.position = b.position.add(b.velocity.scale(dt));
            if b.attached_to_player {
                b.position = tether(b.position, anchor, b.length);
            }
            model.balloons.set(i, b);
            i += 1;
        }
        proof {
            assert(model.balloons@ =~= goal.balloons);
        }
        let mut i: usize = 0;
        while i < model.obstacles.len()
            invariant
                i <= model.obstacles@.len(),
                model.obstacles@.len() == old(model).obstacles@.len(),
                goal == movement_step(old(model)@, dt),
                forall|k: int|
                    0 <= k < i ==> #[trigger] model.obstacles@[k] == obstacle_moved(
                        old(model).obstacles@[k],
                        dt,
                    ),
                forall|k: int|
                    i <= k < model.obstacles@.len() ==> #[trigger] model.obstacles@[k] == old(
                        model,
                    ).obstacles@[k],
                model@ == (ModelView {
                    obstacles: model.obstacles@,
                    clouds: old(model).clouds@,
                    ..goal
                }),
            decreases model.obstacles@.len() - i,
        {
            let mut o = *model.obstacles.at(i);
            o.position = o.position.add(o.velocity.scale(dt));
            model.obstacles.set(i, o);
            i += 1;
        }
        proof {
            assert(model.obstacles@ =~= goal.obstacles);
        }
        let mut i: usize = 0;
        while i < model.clouds.len()
            invariant
                i <= model.clouds@.len(),
                model.clouds@.len() == old(model).clouds@.len(),
                goal == movement_step(old(model)@, dt),
                forall|k: int|
                    0 <= k < i ==> #[trigger] model.clouds@[k] == cloud_moved(
                        old(model).clouds@[k],
                        dt,
                    ),
                forall|k: int|
                    i <= k < model.clouds@.len() ==> #[trigger] model.clouds@[k] == old(
                        model,
                    ).clouds@[k],
                model@ == (ModelView { clouds: model.clouds@, ..goal }),
            decreases model.clouds@.len() - i,
        {
            let mut c = *model.clouds.at(i);
            c.position = c.position.add(c.velocity.scale(dt));
            model.clouds.set(i, c);
            i += 1;
        }
        proof {
            assert(model.clouds@ =~= goal.clouds);
        }
    }

    /// Advances the animations of the player and of the obstacles.
    pub fn animations(&self, model: &mut Model)
        ensures
            final(model)@ == animation_step(old(model)@, self.delta_time),
    {
        let dt = self.delta_time;
        let ghost goal = animation_step(old(model)@, dt);
        model.player.animation_time = advance_phase(model.player.animation_time, Fixed::one(), dt);
        let mut i: usize = 0;
        while i < model.obstacles.len()
            invariant
                i <= model.obstacles@.len(),
                model.obstacles@.len() == old(model).obstacles@.len(),
                goal == animation_step(old(model)@, dt),
                forall|k: int|
                    0 <= k < i ==> #[trigger] model.obstacles@[k] == obstacle_animated(
                        old(model).obstacles@[k],
                        dt,
                    ),
                forall|k: int|
                    i <= k < model.obstacles@.len() ==> #[trigger] model.obstacles@[k] == old(
                        model,
                    ).obstacles@[k],
                model@ == (ModelView { obstacles: model.obstacles@, ..goal }),
            decreases model.obstacles@.len() - i,
        {
            let mut o = *model.obstacles.at(i);
            o.animation_time = advance_phase(o.animation_time, o.animation_speed, dt);
            model.obstacles.set(i, o);
            i += 1;
        }
        proof {
            assert(model.obstacles@ =~= goal.obstacles);
        }
    }

    /// Pulls every tether of the player's list and drops from the list the
    /// identifiers of balloons that are gone.
    pub fn player_balloon(&self, model: &mut Model)
        requires
            old(model)@.massive(),
        ensures
            final(model)@ == tether_step(old(model)@),
            final(model)@.massive(),
    {
        let ghost ids = model.player.balloons@;
        let mut alive: Vec<Id> = Vec::new();
        let mut k: usize = 0;
        while k < model.player.balloons.len()
            invariant
                k <= ids.len(),
                model.player.balloons@ == ids,
                model@.massive(),
                tether_rest(model@, ids, k as int, alive@) == tether_step(old(model)@),
            decreases ids.len() - k,
        {
            let id = model.player.balloons[k];
            let ghost before = model@;
            match model.balloons.position(&id) {
                None => {},
                Some(i) => {
                    alive.push(id);
                    let mut b = *model.balloons.at(i);
                    let delta = b.position.sub(model.player.position);
                    if delta.len().raw >= b.length.raw {
                        let after = collide_impulses(
                            model.player.mass,
                            model.player.velocity,
                            b.mass,
                            b.velocity,
                            delta,
                            Fixed::zero(),
                        );
                        model.player.velocity = after.0;
                        b.velocity = after.1;
                        model.balloons.set(i, b);
                    }
                },
            }
            proof {
                assert(model@ == tether_pull(before, id));
            }
            k += 1;
        }
        model.player.balloons = alive;
    }

    /// Counts the pop countdown down and, once it is negative, pops the
    /// balloon at place `pick` of the player's list, counted round the
    /// list.
    pub fn pop_at(&self, model: &mut Model, pick: usize)
        ensures
            final(model)@ == pop_step(old(model)@, self.delta_time, pick as int),
    {
        let left = model.next_pop.sub(self.delta_time);
        if left.raw < 0 {
            let count = model.player.balloons.len();
            if count > 0 {
                let id = model.player.balloons.remove(pick % count);
                match model.balloons.remove(&id) {
                    Some(b) => {
                        model.events.push(Event::Pop { position: b.position });
                    },
                    None => {},
                }
            }
            model.next_pop = model.config.balloon_pop_time;
        } else {
            model.next_pop = left;
        }
    }

    /// Counts the pop countdown down and, once it is negative, pops one of
    /// the player's balloons, picked at random. Returns the place picked in
    /// the player's list.
    pub fn pop(&self, model: &mut Model, rng: &mut StdRng) -> (pick: usize)
        ensures
            old(model).player.balloons@.len() > 0 ==> pick < old(model).player.balloons@.len(),
            final(model)@ == pop_step(old(model)@, self.delta_time, pick as int),
    {
        let count = model.player.balloons.len();
        let pick: usize = if model.next_pop.sub(self.delta_time).raw < 0 && count > 0 {
            draw_index(rng, count)
        } else {
            0
        };
        self.pop_at(model, pick);
        pick
    }

    /// Puts a player that fell below the ground back on it.
    pub fn ground(&self, model: &mut Model)
        ensures
            final(model)@ == ground_step(old(model)@),
    {
        if model.player.position.y.raw < 0 {
            if model.player.velocity.y.abs().raw > model.config.gravity.y.abs().mul(
                Fixed::from_raw(200_000),
            ).raw {
                model.events.push(Event::Splash);
            }
            model.player.position = Vec2::new(model.player.position.x, Fixed::zero());
            model.player.velocity = Vec2::zero();
        }
    }

    /// The place of the first obstacle that the player overlaps.
    pub fn find_hit(&self, model: &Model) -> (r: Option<usize>)
        ensures
            match r {
                Some(at) => at < model.obstacles@.len() && at == first_hit(
                    model.player@,
                    model.obstacles@,
                    0,
                ),
                None => first_hit(model.player@, model.obstacles@, 0) == model.obstacles@.len(),
            },
    {
        let mut i: usize = 0;
        while i < model.obstacles.len()
            invariant
                i <= model.obstacles@.len(),
                first_hit(model.player@, model.obstacles@, i as int) == first_hit(
                    model.player@,
                    model.obstacles@,
                    0,
                ),
            decreases model.obstacles@.len() - i,
        {
            let o = *model.obstacles.at(i);
            let depth = penetration(
                model.player.position,
                model.player.radius,
                o.position,
                o.radius,
            );
            if depth.raw > 0 {
                return Some(i);
            }
            i += 1;
        }
        None
    }

    /// Kills the player and cuts its balloons loose.
    pub fn kill_player(&self, model: &mut Model)
        ensures
            final(model)@ == kill_step(old(model)@),
    {
        model.balloons.unique_ids();
        let ghost list = model.player.balloons@;
        let ghost start = model.balloons@;
        let ghost goal = kill_step(old(model)@);
        model.player.alive = false;
        let mut k: usize = 0;
        while k < model.player.balloons.len()
            invariant
                k <= list.len(),
                model.player.balloons@ == list,
                list == old(model).player.balloons@,
                start == old(model).balloons@,
                goal == kill_step(old(model)@),
                distinct_ids(start),
                model.balloons@.len() == start.len(),
                forall|j: int|
                    0 <= j < start.len() ==> #[trigger] model.balloons@[j] == released(
                        start[j],
                        list.take(k as int),
                    ),
                model@ == (ModelView {
                    player: PlayerView { balloons: list, ..goal.player },
                    balloons: model.balloons@,
                    ..goal
                }),
            decreases list.len() - k,
        {
            let id = model.player.balloons[k];
            let ghost before = model.balloons@;
            proof {
                assert(list.take(k + 1) =~= list.take(k as int).push(id));
                assert forall|j: int| 0 <= j < start.len() implies (#[trigger] before[j]).id
                    == start[j].id by {}
            }
            match model.balloons.position(&id) {
                Some(i) => {
                    let mut b = *model.balloons.at(i);
                    b.attached_to_player = false;
                    model.balloons.set(i, b);
                },
                None => {},
            }
            proof {
                assert forall|j: int| 0 <= j < start.len() implies #[trigger] model.balloons@[j]
                    == released(start[j], list.take(k + 1)) by {
                    let seen = list.take(k as int);
                    assert(list.take(k + 1).contains(start[j].id) <==> (seen.contains(start[j].id)
                        || start[j].id == id)) by {
                        if seen.contains(start[j].id) {
                            let w = choose|w: int| 0 <= w < seen.len() && seen[w] == start[j].id;
                            assert(list.take(k + 1)[w] == start[j].id);
                        }
                        if start[j].id == id {
                            assert(list.take(k + 1)[k as int] == id);
                        }
                    }
                    assert(before[j].id == start[j].id);
                }
            }
            k += 1;
        }
        proof {
            assert(list.take(k as int) =~= list);
            assert(model.balloons@ =~= goal.balloons);
        }
        model.player.balloons = Vec::new();
    }

    /// Attaches every free balloon that the player overlaps.
    pub fn catch_balloons(&self, model: &mut Model)
        ensures
            final(model)@ == catch_step(old(model)@),
    {
        let ghost start = model.balloons@;
        let ghost p = old(model).player@;
        let ghost goal = catch_step(old(model)@);
        let ghost pred = |b: Balloon| catches(p, b);
        let mut i: usize = 0;
        proof {
            reveal(Seq::filter);
            assert(start.take(0).filter(pred) =~= Seq::<Balloon>::empty());
            assert(catch_ids(p, start.take(0)) =~= Seq::<Id>::empty());
            assert(model.player.balloons@ =~= p.balloons + catch_ids(p, start.take(0)));
            assert(model.events@ =~= old(model).events@ + Seq::new(0, |i: int| Event::Attach));
        }
        while i < model.balloons.len()
            invariant
                i <= start.len(),
                start == old(model).balloons@,
                p == old(model).player@,
                pred == (|b: Balloon| catches(p, b)),
                goal == catch_step(old(model)@),
                model.balloons@.len() == start.len(),
                forall|j: int| 0 <= j < i ==> #[trigger] model.balloons@[j] == caught(p, start[j]),
                forall|j: int| i <= j < start.len() ==> #[trigger] model.balloons@[j] == start[j],
                model.player.balloons@ == p.balloons + catch_ids(p, start.take(i as int)),
                model.events@ == old(model).events@ + Seq::new(
                    catch_ids(p, start.take(i as int)).len(),
                    |i: int| Event::Attach,
                ),
                model@ == (ModelView {
                    player: PlayerView {
                        balloons: model.player.balloons@,
                        ..goal.player
                    },
                    balloons: model.balloons@,
                    events: model.events@,
                    ..goal
                }),
            decreases start.len() - i,
        {
            let mut b = *model.balloons.at(i);
            proof {
                assert(start.take(i + 1) =~= start.take(i as int).push(start[i as int]));
                start.take(i as int).lemma_filter_push(start[i as int], pred);
            }
            let ghost seen = catch_ids(p, start.take(i as int));
            if !b.attached_to_player {
                let depth = penetration(
                    model.player.position,
                    model.player.radius,
                    b.position,
                    b.radius,
                );
                if depth.raw > 0 {
                    model.player.balloons.push(b.id);
                    b.attached_to_player = true;
                    model.balloons.set(i, b);
                    model.events.push(Event::Attach);
                    proof {
                        assert(catch_ids(p, start.take(i + 1)) =~= seen.push(start[i as int].id));
                        assert(model.player.balloons@ =~= p.balloons + catch_ids(
                            p,
                            start.take(i + 1),
                        ));
                        assert(model.events@ =~= old(model).events@ + Seq::new(
                            catch_ids(p, start.take(i + 1)).len(),
                            |i: int| Event::Attach,
                        ));
                    }
                }
            }
            proof {
                if !catches(p, start[i as int]) {
                    assert(catch_ids(p, start.take(i + 1)) =~= seen);
                }
            }
            i += 1;
        }
        proof {
            assert(start.take(i as int) =~= start);
            assert(model.balloons@ =~= goal.balloons);
        }
    }

    /// Lets a live player touch obstacles and balloons.
    pub fn touch(&self, model: &mut Model)
        ensures
            final(model)@ == touch_step(old(model)@),
    {
        if model.player.alive {
            match self.find_hit(model) {
                Some(at) => {
                    let o = *model.obstacles.at(at);
                    model.player.velocity = model.player.velocity.add(o.velocity);
                    model.events.push(Event::Hit);
                    self.kill_player(model);
                },
                None => {
                    self.catch_balloons(model);
                },
            }
        }
    }

    /// Tests every pair of balloons for contact, once.
    pub fn balloon_pairs(&self, model: &mut Model)
        requires
            old(model)@.massive(),
        ensures
            final(model)@ == pairs_step(old(model)@),
            final(model)@.massive(),
    {
        let count = model.balloons.len();
        let ghost goal = pairs_step(old(model)@);
        let mut i: usize = 0;
        while i < count
            invariant
                i <= count,
                model.balloons@.len() == count,
                model@.massive(),
                pairs_rest(model@, count as int, i as int, i + 1) == goal,
            decreases count - i,
        {
            let mut j: usize = i + 1;
            while j < count
                invariant
                    i < j <= count,
                    model.balloons@.len() == count,
                    model@.massive(),
                    pairs_rest(model@, count as int, i as int, j as int) == goal,
                decreases count - j,
            {
                let ghost before = model@;
                let mut a = *model.balloons.at(i);
                let mut b = *model.balloons.at(j);
                let mut position_a = a.position;
                let mut velocity_a = a.velocity;
                let mut position_b = b.position;
                let mut velocity_b = b.velocity;
                let hit = collide(
                    &mut position_a,
                    &mut velocity_a,
                    a.radius,
                    a.mass,
                    &mut position_b,
                    &mut velocity_b,
                    b.radius,
                    b.mass,
                );
                a.position = position_a;
                a.velocity = velocity_a;
                b.position = position_b;
                b.velocity = velocity_b;
                if hit && (a.attached_to_player != b.attached_to_player) {
                    if !a.attached_to_player {
                        a.attached_to_player = true;
                        model.player.balloons.push(a.id);
                    } else {
                        b.attached_to_player = true;
                        model.player.balloons.push(b.id);
                    }
                    model.events.push(Event::Attach);
                }
                model.balloons.set(i, a);
                model.balloons.set(j, b);
                proof {
                    assert(model@ == pair_resolved(before, i as int, j as int));
                }
                j += 1;
            }
            i += 1;
        }
    }

    /// Whether some obstacle overlaps a circle.
    pub fn is_struck(&self, model: &Model, b: &Balloon) -> (r: bool)
        ensures
            r == struck(*b, model.obstacles@),
    {
        let mut k: usize = 0;
        while k < model.obstacles.len()
            invariant
                k <= model.obstacles@.len(),
                forall|j: int|
                    0 <= j < k ==> !overlapping(
                        b.position,
                        b.radius,
                        (#[trigger] model.obstacles@[j]).position,
                        model.obstacles@[j].radius,
                    ),
            decreases model.obstacles@.len() - k,
        {
            let o = *model.obstacles.at(k);
            if penetration(b.position, b.radius, o.position, o.radius).raw > 0 {
                return true;
            }
            k += 1;
        }
        false
    }

    /// Pops every balloon that an obstacle overlaps.
    pub fn burst(&self, model: &mut Model)
        ensures
            final(model)@ == burst_step(old(model)@),
    {
        let ghost start = model.balloons@;
        let ghost obstacles = model.obstacles@;
        let ghost goal = burst_step(old(model)@);
        let ghost burst_pred = |b: Balloon| bursts(b, obstacles);
        let ghost pop_of = |b: Balloon| Event::Pop { position: b.position };
        proof {
            reveal(Seq::filter);
            assert(start.take(0).filter(burst_pred) =~= Seq::<Balloon>::empty());
            assert(model.events@ =~= old(model).events@ + start.take(0).filter(
                burst_pred,
            ).map_values(pop_of));
        }
        let mut i: usize = 0;
        while i < model.balloons.len()
            invariant
                i <= start.len(),
                start == old(model).balloons@,
                obstacles == old(model).obstacles@,
                burst_pred == (|b: Balloon| bursts(b, obstacles)),
                pop_of == (|b: Balloon| Event::Pop { position: b.position }),
                model.balloons@.len() == start.len(),
                forall|j: int|
                    0 <= j < i ==> #[trigger] model.balloons@[j] == marked(start[j], obstacles),
                forall|j: int| i <= j < start.len() ==> #[trigger] model.balloons@[j] == start[j],
                model.events@ == old(model).events@ + start.take(i as int).filter(
                    burst_pred,
                ).map_values(pop_of),
                model@ == (ModelView {
                    balloons: model.balloons@,
                    events: model.events@,
                    ..old(model)@
                }),
            decreases start.len() - i,
        {
            let mut b = *model.balloons.at(i);
            proof {
                assert(start.take(i + 1) =~= start.take(i as int).push(start[i as int]));
                start.take(i as int).lemma_filter_push(start[i as int], burst_pred);
            }
            let ghost seen = start.take(i as int).filter(burst_pred);
            if !b.popped && self.is_struck(model, &b) {
                b.popped = true;
                model.events.push(Event::Pop { position: b.position });
                model.balloons.set(i, b);
                proof {
                    assert(start.take(i + 1).filter(burst_pred).map_values(pop_of) =~=
                        seen.map_values(
                        pop_of,
                    ).push(Event::Pop { position: start[i as int].position }));
                    assert(model.events@ =~= old(model).events@ + start.take(i + 1).filter(
                        burst_pred,
                    ).map_values(pop_of));
                }
            }
            i += 1;
        }
        let ghost all = model.balloons@;
        proof {
            assert(start.take(i as int) =~= start);
            assert(all =~= start.map_values(|b: Balloon| marked(b, obstacles)));
        }
        let ghost list = model.player.balloons@;
        let ghost stays = |id: Id| !doomed(all, id);
        let mut kept: Vec<Id> = Vec::new();
        let mut k: usize = 0;
        proof {
            assert(list.take(0).filter(stays) =~= Seq::<Id>::empty());
        }
        while k < model.player.balloons.len()
            invariant
                k <= list.len(),
                model.player.balloons@ == list,
                model.balloons@ == all,
                stays == (|id: Id| !doomed(all, id)),
                kept@ == list.take(k as int).filter(stays),
            decreases list.len() - k,
        {
            let id = model.player.balloons[k];
            proof {
                assert(list.take(k + 1) =~= list.take(k as int).push(id));
                list.take(k as int).lemma_filter_push(id, stays);
            }
            let gone = match model.balloons.position(&id) {
                Some(at) => model.balloons.at(at).popped,
                None => false,
            };
            if !gone {
                kept.push(id);
            }
            k += 1;
        }
        proof {
            assert(list.take(k as int) =~= list);
        }
        model.player.balloons = kept;
        let keep = |b: &Balloon| -> (r: bool)
            ensures
                r == !b.popped,
            { !b.popped };
        model.balloons.retain(keep);
        proof {
            let flags = choose|flags: Seq<bool>|
                flags.len() == all.len() && (forall|i: int|
                    0 <= i < flags.len() ==> keep.ensures((&all[i],), #[trigger] flags[i]))
                    && model.balloons@ == #[trigger] chosen(all, flags);
            lemma_chosen_is_filter(all, flags, |b: Balloon| !b.popped);
        }
    }

    /// Resolves every contact of the frame.
    pub fn collisions(&self, model: &mut Model)
        requires
            old(model)@.massive(),
        ensures
            final(model)@ == collision_step(old(model)@),
    {
        self.ground(model);
        self.touch(model);
        self.balloon_pairs(model);
        self.burst(model);
    }
}

} // verus!
