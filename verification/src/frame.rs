//! The steps of a frame as functions of the world's view. Each function
//! here says what one step of [`crate::logic::Logic`] does.

use vstd::prelude::*;
use crate::collection::{has_id, index_of, inserted};
use crate::config::{BalloonsConfig, Config, ObstacleConfig};
use crate::fixed::{Fixed, SCALE, Time};
use crate::id::Id;
use crate::model::{
    Balloon, Cloud, CloudType, Event, ModelView, Obstacle, ObstacleType, PlayerView, Score,
};
use crate::physics::{overlapping, spec_collide, spec_collide_impulses, spec_damp};
use crate::vec2::Vec2;

verus! {

/// The score that a height is worth: the height rounded down to a whole
/// number, or nothing below the ground.
pub open spec fn height_score(y: Fixed) -> Score {
    (y.spec_floor().spec_max(Fixed { raw: 0 }).raw / SCALE) as u64
}

/// The score step: the score rises to what the player's height is worth,
/// where that is more.
pub open spec fn score_step(m: ModelView) -> ModelView {
    let reached = height_score(m.player.position.y);
    ModelView { score: if reached > m.score { reached } else { m.score }, ..m }
}

/// A balloon after gravity acted on it for `dt`: balloons rise.
pub open spec fn lifted(b: Balloon, gravity: Vec2, dt: Time) -> Balloon {
    Balloon { velocity: b.velocity.spec_sub(gravity.spec_scale(dt)), ..b }
}

/// The gravity step: the player gains `gravity * dt` in velocity and every
/// balloon loses it.
pub open spec fn gravity_step(m: ModelView, dt: Time) -> ModelView {
    let pull = m.config.gravity.spec_scale(dt);
    ModelView {
        player: PlayerView { velocity: m.player.velocity.spec_add(pull), ..m.player },
        balloons: m.balloons.map_values(|b: Balloon| lifted(b, m.config.gravity, dt)),
        ..m
    }
}

/// The player after drag, movement by its own and the steered velocity, and
/// the clamp to the arena.
pub open spec fn player_moved(
    p: PlayerView,
    steer: Vec2,
    arena_width: Fixed,
    dt: Time,
) -> PlayerView {
    let velocity = spec_damp(p.velocity, p.drag, dt);
    let position = p.position.spec_add(velocity.spec_add(steer).spec_scale(dt));
    PlayerView {
        velocity,
        position: Vec2 { x: position.x.spec_clamp_abs(arena_width), y: position.y },
        ..p
    }
}

/// A point pulled back to within `length` of an anchor, along the line
/// that joins them.
pub open spec fn tethered(position: Vec2, anchor: Vec2, length: Fixed) -> Vec2 {
    anchor.spec_add(position.spec_sub(anchor).spec_clamp_len(length))
}

/// A balloon after drag and movement. An attached balloon drags less and is
/// pulled back to within its tether's length of the player.
pub open spec fn balloon_moved(b: Balloon, anchor: Vec2, config: Config, dt: Time) -> Balloon {
    let drag = if b.attached_to_player {
        config.balloon_attached_drag
    } else {
        config.balloon_drag
    };
    let velocity = spec_damp(b.velocity, drag, dt);
    let position = b.position.spec_add(velocity.spec_scale(dt));
    Balloon {
        drag,
        velocity,
        position: if b.attached_to_player {
            tethered(position, anchor, b.length)
        } else {
            position
        },
        ..b
    }
}

/// An obstacle after moving for `dt`.
pub open spec fn obstacle_moved(o: Obstacle, dt: Time) -> Obstacle {
    Obstacle { position: o.position.spec_add(o.velocity.spec_scale(dt)), ..o }
}

/// A cloud after moving for `dt`.
pub open spec fn cloud_moved(c: Cloud, dt: Time) -> Cloud {
    Cloud { position: c.position.spec_add(c.velocity.spec_scale(dt)), ..c }
}

/// The movement step: drag and movement of the player, then of each
/// balloon against the player's new position, then movement of obstacles
/// and clouds.
pub open spec fn movement_step(m: ModelView, dt: Time) -> ModelView {
    let player = player_moved(m.player, m.player_control_velocity, m.config.arena_width, dt);
    ModelView {
        player,
        balloons: m.balloons.map_values(
            |b: Balloon| balloon_moved(b, player.position, m.config, dt),
        ),
        obstacles: m.obstacles.map_values(|o: Obstacle| obstacle_moved(o, dt)),
        clouds: m.clouds.map_values(|c: Cloud| cloud_moved(c, dt)),
        ..m
    }
}

/// An animation phase advanced by `speed * dt`, wrapped once at one.
pub open spec fn phase_advanced(phase: Time, speed: Fixed, dt: Time) -> Time {
    let next = phase.spec_add(speed.spec_mul(dt));
    if next.raw >= SCALE {
        next.spec_sub(Fixed::spec_one())
    } else {
        next
    }
}

/// An obstacle with its animation advanced.
pub open spec fn obstacle_animated(o: Obstacle, dt: Time) -> Obstacle {
    Obstacle { animation_time: phase_advanced(o.animation_time, o.animation_speed, dt), ..o }
}

/// The animation step.
pub open spec fn animation_step(m: ModelView, dt: Time) -> ModelView {
    ModelView {
        player: PlayerView {
            animation_time: phase_advanced(m.player.animation_time, Fixed::spec_one(), dt),
            ..m.player
        },
        obstacles: m.obstacles.map_values(|o: Obstacle| obstacle_animated(o, dt)),
        ..m
    }
}

/// How loud a sound at `position` is for a listener at `listener`: the
/// master volume, falling off with the square of the distance and silent
/// from ten units on.
pub open spec fn spec_sound_volume(listener: Vec2, volume: Fixed, position: Vec2) -> Fixed {
    let distance = position.spec_sub(listener).spec_len();
    let tenth = distance.spec_div(Fixed { raw: 10_000_000 });
    Fixed::spec_one().spec_sub(tenth.spec_mul(tenth)).spec_max(Fixed { raw: 0 }).spec_mul(volume)
}

/// Whether an obstacle is a helicopter.
pub open spec fn is_helicopter(o: Obstacle) -> bool {
    o.obstacle_type == ObstacleType::Helicopter1 || o.obstacle_type == ObstacleType::Helicopter2
}

/// The loudest helicopter among the obstacles, if there is a helicopter.
pub open spec fn loudest_helicopter(
    obstacles: Seq<Obstacle>,
    listener: Vec2,
    volume: Fixed,
) -> Option<Fixed>
    decreases obstacles.len(),
{
    if obstacles.len() == 0 {
        None
    } else {
        let rest = loudest_helicopter(obstacles.drop_last(), listener, volume);
        let o = obstacles.last();
        if is_helicopter(o) {
            let here = spec_sound_volume(listener, volume, o.position);
            match rest {
                Some(best) => Some(best.spec_max(here)),
                None => Some(here),
            }
        } else {
            rest
        }
    }
}

/// The volume of the wind at a height: the square root of a twentieth of
/// the height, at most one, times the master volume.
pub open spec fn spec_wind_volume(y: Fixed, volume: Fixed) -> Fixed {
    y.spec_max(Fixed { raw: 0 }).spec_div(Fixed { raw: 20_000_000 }).spec_sqrt().spec_max(
        Fixed { raw: 0 },
    ).spec_min(Fixed::spec_one()).spec_mul(volume)
}

/// The sound step: sets the volumes of the wind and of the helicopters.
pub open spec fn sound_step(m: ModelView) -> ModelView {
    ModelView {
        wind_volume: spec_wind_volume(m.player.position.y, m.volume),
        helicopter_volume: match loudest_helicopter(m.obstacles, m.player.position, m.volume) {
            Some(v) => v,
            None => Fixed { raw: 0 },
        },
        ..m
    }
}

/// One tether under tension. Where the balloon with the identifier is
/// alive and at least its tether's length away from the player, the impulse
/// law with elasticity zero acts on the two along the line from the player
/// to the balloon. Otherwise nothing changes.
pub open spec fn tether_pull(m: ModelView, id: Id) -> ModelView {
    if !has_id(m.balloons, id) {
        m
    } else {
        let i = index_of(m.balloons, id);
        let b = m.balloons[i];
        let delta = b.position.spec_sub(m.player.position);
        if delta.spec_len().raw < b.length.raw {
            m
        } else {
            let after = spec_collide_impulses(
                m.player.mass,
                m.player.velocity,
                b.mass,
                b.velocity,
                delta,
                Fixed { raw: 0 },
            );
            ModelView {
                player: PlayerView { velocity: after.0, ..m.player },
                balloons: m.balloons.update(i, Balloon { velocity: after.1, ..b }),
                ..m
            }
        }
    }
}

/// The tethers of the list `ids` from place `from` on, pulled one after the
/// other; at the end the player's list becomes `kept` followed by those of
/// the remaining identifiers whose balloon is alive.
pub open spec fn tether_rest(m: ModelView, ids: Seq<Id>, from: int, kept: Seq<Id>) -> ModelView
    decreases ids.len() - from,
{
    if from < 0 || from >= ids.len() {
        ModelView { player: PlayerView { balloons: kept, ..m.player }, ..m }
    } else {
        let id = ids[from];
        tether_rest(
            tether_pull(m, id),
            ids,
            from + 1,
            if has_id(m.balloons, id) {
                kept.push(id)
            } else {
                kept
            },
        )
    }
}

/// The tether step: every tether in the player's list is pulled in turn,
/// and identifiers whose balloon is gone leave the list.
pub open spec fn tether_step(m: ModelView) -> ModelView {
    tether_rest(m, m.player.balloons, 0, Seq::empty())
}

/// The world after the balloon named at place `k` of the player's list has
/// popped: the list loses the entry, and the balloon, if it is alive, leaves
/// the world with a pop where it was.
pub open spec fn balloon_popped(m: ModelView, k: int) -> ModelView
    recommends
        0 <= k < m.player.balloons.len(),
{
    let id = m.player.balloons[k];
    let player = PlayerView { balloons: m.player.balloons.remove(k), ..m.player };
    if has_id(m.balloons, id) {
        let i = index_of(m.balloons, id);
        ModelView {
            player,
            balloons: m.balloons.remove(i),
            events: m.events.push(Event::Pop { position: m.balloons[i].position }),
            ..m
        }
    } else {
        ModelView { player, ..m }
    }
}

/// The periodic pop: the countdown loses `dt`; once it is negative, the
/// balloon at place `pick` of the player's list, counted round the list,
/// pops if the list holds any, and the countdown starts again from the
/// configured interval.
pub open spec fn pop_step(m: ModelView, dt: Time, pick: int) -> ModelView {
    let left = m.next_pop.spec_sub(dt);
    if left.raw < 0 {
        let after = if m.player.balloons.len() > 0 {
            balloon_popped(m, pick % (m.player.balloons.len() as int))
        } else {
            m
        };
        ModelView { next_pop: m.config.balloon_pop_time, ..after }
    } else {
        ModelView { next_pop: left, ..m }
    }
}

/// Whether a landing at this velocity is hard enough to splash: the
/// vertical speed exceeds a fifth of the strength of gravity.
pub open spec fn splashes(velocity: Vec2, gravity: Vec2) -> bool {
    velocity.y.spec_abs().raw > gravity.y.spec_abs().spec_mul(Fixed { raw: 200_000 }).raw
}

/// The ground: a player below height zero is put on the ground and stopped,
/// with a splash where it came down hard.
pub open spec fn ground_step(m: ModelView) -> ModelView {
    if m.player.position.y.raw < 0 {
        ModelView {
            player: PlayerView {
                position: Vec2 { x: m.player.position.x, y: Fixed { raw: 0 } },
                velocity: Vec2::spec_zero(),
                ..m.player
            },
            events: if splashes(m.player.velocity, m.config.gravity) {
                m.events.push(Event::Splash)
            } else {
                m.events
            },
            ..m
        }
    } else {
        m
    }
}

/// Whether the player overlaps the obstacle.
pub open spec fn hits(p: PlayerView, o: Obstacle) -> bool {
    overlapping(p.position, p.radius, o.position, o.radius)
}

/// The place of the first obstacle from place `from` on that the player
/// overlaps, or the number of obstacles if there is none.
pub open spec fn first_hit(p: PlayerView, obstacles: Seq<Obstacle>, from: int) -> int
    decreases obstacles.len() - from,
{
    if from < 0 || from >= obstacles.len() {
        obstacles.len() as int
    } else if hits(p, obstacles[from]) {
        from
    } else {
        first_hit(p, obstacles, from + 1)
    }
}

/// A balloon cut loose if the list names it.
pub open spec fn released(b: Balloon, list: Seq<Id>) -> Balloon {
    if list.contains(b.id) {
        Balloon { attached_to_player: false, ..b }
    } else {
        b
    }
}

/// The death of the player: it is no longer alive, every balloon that its
/// list names is cut loose, and the list is emptied. The balloons stay in
/// the world.
pub open spec fn kill_step(m: ModelView) -> ModelView {
    ModelView {
        player: PlayerView { alive: false, balloons: Seq::empty(), ..m.player },
        balloons: m.balloons.map_values(|b: Balloon| released(b, m.player.balloons)),
        ..m
    }
}

/// Whether the player catches the balloon: it is free and overlaps the
/// player.
pub open spec fn catches(p: PlayerView, b: Balloon) -> bool {
    !b.attached_to_player && overlapping(p.position, p.radius, b.position, b.radius)
}

/// A balloon after the player had the chance to catch it.
pub open spec fn caught(p: PlayerView, b: Balloon) -> Balloon {
    if catches(p, b) {
        Balloon { attached_to_player: true, ..b }
    } else {
        b
    }
}

/// The identifiers of the balloons that the player catches, in the order of
/// the collection.
pub open spec fn catch_ids(p: PlayerView, balloons: Seq<Balloon>) -> Seq<Id> {
    balloons.filter(|b: Balloon| catches(p, b)).map_values(|b: Balloon| b.id)
}

/// The catch: every free balloon that overlaps the player becomes
/// attached and joins the end of the player's list, with one attach event
/// for each.
pub open spec fn catch_step(m: ModelView) -> ModelView {
    let ids = catch_ids(m.player, m.balloons);
    ModelView {
        player: PlayerView { balloons: m.player.balloons + ids, ..m.player },
        balloons: m.balloons.map_values(|b: Balloon| caught(m.player, b)),
        events: m.events + Seq::new(ids.len(), |i: int| Event::Attach),
        ..m
    }
}

/// What touching does to a live player: the first obstacle that it overlaps
/// hands it its velocity and kills it; with no such obstacle it catches the
/// free balloons that it overlaps. A dead player touches nothing.
pub open spec fn touch_step(m: ModelView) -> ModelView {
    if !m.player.alive {
        m
    } else {
        let at = first_hit(m.player, m.obstacles, 0);
        if at < m.obstacles.len() {
            kill_step(
                ModelView {
                    player: PlayerView {
                        velocity: m.player.velocity.spec_add(m.obstacles[at].velocity),
                        ..m.player
                    },
                    events: m.events.push(Event::Hit),
                    ..m
                },
            )
        } else {
            catch_step(m)
        }
    }
}

/// The contact of the balloons at places `i` and `j`. The two are tested
/// and resolved as circles. Where they overlap and exactly one of them is
/// attached, the other becomes attached too and joins the end of the
/// player's list, with an attach event.
pub open spec fn pair_resolved(m: ModelView, i: int, j: int) -> ModelView
    recommends
        0 <= i < j < m.balloons.len(),
{
    let a = m.balloons[i];
    let b = m.balloons[j];
    let c = spec_collide(
        a.position,
        a.velocity,
        a.radius,
        a.mass,
        b.position,
        b.velocity,
        b.radius,
        b.mass,
    );
    let chain = c.hit && a.attached_to_player != b.attached_to_player;
    let a2 = Balloon {
        position: c.position_a,
        velocity: c.velocity_a,
        attached_to_player: a.attached_to_player || chain,
        ..a
    };
    let b2 = Balloon {
        position: c.position_b,
        velocity: c.velocity_b,
        attached_to_player: b.attached_to_player || chain,
        ..b
    };
    ModelView {
        balloons: m.balloons.update(i, a2).update(j, b2),
        player: PlayerView {
            balloons: if chain {
                m.player.balloons.push(
                    if a.attached_to_player {
                        b.id
                    } else {
                        a.id
                    },
                )
            } else {
                m.player.balloons
            },
            ..m.player
        },
        events: if chain {
            m.events.push(Event::Attach)
        } else {
            m.events
        },
        ..m
    }
}

/// The contacts of all pairs of the `count` balloons from the pair
/// `(i, j)` on, each pair once, in the order of the first and then of the
/// second place.
pub open spec fn pairs_rest(m: ModelView, count: int, i: int, j: int) -> ModelView
    decreases count - i, count - j,
{
    if i < 0 || i >= count {
        m
    } else if j <= i || j >= count {
        pairs_rest(m, count, i + 1, i + 2)
    } else {
        pairs_rest(pair_resolved(m, i, j), count, i, j + 1)
    }
}

/// The balloon-to-balloon step: every pair of balloons is tested once.
pub open spec fn pairs_step(m: ModelView) -> ModelView {
    pairs_rest(m, m.balloons.len() as int, 0, 1)
}

/// Whether some obstacle overlaps the balloon.
pub open spec fn struck(b: Balloon, obstacles: Seq<Obstacle>) -> bool {
    exists|j: int|
        0 <= j < obstacles.len() && overlapping(
            b.position,
            b.radius,
            (#[trigger] obstacles[j]).position,
            obstacles[j].radius,
        )
}

/// Whether an obstacle pops the balloon now: it was not marked as popped
/// before, and an obstacle overlaps it.
pub open spec fn bursts(b: Balloon, obstacles: Seq<Obstacle>) -> bool {
    !b.popped && struck(b, obstacles)
}

/// A balloon, marked as popped if an obstacle pops it.
pub open spec fn marked(b: Balloon, obstacles: Seq<Obstacle>) -> Balloon {
    if bursts(b, obstacles) {
        Balloon { popped: true, ..b }
    } else {
        b
    }
}

/// Whether the identifier names a balloon that is marked as popped.
pub open spec fn doomed(balloons: Seq<Balloon>, id: Id) -> bool {
    has_id(balloons, id) && balloons[index_of(balloons, id)].popped
}

/// The balloon-to-obstacle step: every balloon that an obstacle overlaps
/// is marked as popped, with a pop event where it is; then all marked
/// balloons leave the world, and their identifiers the player's list.
pub open spec fn burst_step(m: ModelView) -> ModelView {
    let all = m.balloons.map_values(|b: Balloon| marked(b, m.obstacles));
    ModelView {
        player: PlayerView {
            balloons: m.player.balloons.filter(|id: Id| !doomed(all, id)),
            ..m.player
        },
        balloons: all.filter(|b: Balloon| !b.popped),
        events: m.events + m.balloons.filter(|b: Balloon| bursts(b, m.obstacles)).map_values(
            |b: Balloon| Event::Pop { position: b.position },
        ),
        ..m
    }
}

/// The collision step: the ground, then what the player touches, then the
/// balloons among themselves, then balloons against obstacles.
pub open spec fn collision_step(m: ModelView) -> ModelView {
    burst_step(pairs_step(touch_step(ground_step(m))))
}

/// What is drawn at random to spawn an obstacle or a cloud.
#[derive(Debug, Clone, Copy, PartialEq, Eq)]
pub struct SpawnDraw {
    /// Height of the spawn above the place that the player is heading for.
    pub offset: Fixed,
    /// Whether it enters from the right.
    pub right: bool,
    /// Its speed.
    pub speed: Fixed,
    /// Which of the three variants it is, counted round.
    pub kind: usize,
    /// How long until the next spawn.
    pub delay: Time,
}

/// What is drawn at random to spawn a free balloon.
#[derive(Debug, Clone, Copy, PartialEq, Eq)]
pub struct BalloonDraw {
    /// Where across the spawn area it appears, from minus one to one.
    pub across: Fixed,
    /// Which colour of the palette it has, counted round.
    pub color: usize,
    /// How long until the next spawn.
    pub delay: Time,
}

/// Everything that one frame draws at random.
#[derive(Debug, Clone, Copy, PartialEq, Eq)]
pub struct Draws {
    /// Which of the player's balloons pops, counted round its list.
    pub pop: usize,
    pub obstacle: SpawnDraw,
    pub cloud: SpawnDraw,
    pub balloon: BalloonDraw,
}

impl SpawnDraw {
    /// Whether each value lies in the range that the tunables give.
    pub open spec fn within(self, c: ObstacleConfig) -> bool {
        &&& c.below_player.spec_neg().raw <= self.offset.raw <= c.above_player.raw
        &&& c.min_speed.raw <= self.speed.raw <= c.max_speed.raw
        &&& self.kind < 3
        &&& c.min_delay.raw <= self.delay.raw <= c.max_delay.raw
    }
}

impl BalloonDraw {
    /// Whether each value lies in the range that the tunables give.
    pub open spec fn within(self, c: BalloonsConfig, colors: int) -> bool {
        &&& -SCALE <= self.across.raw <= SCALE
        &&& self.color < colors
        &&& c.min_delay.raw <= self.delay.raw <= c.max_delay.raw
    }
}

impl Draws {
    /// Whether each value lies in the range that the tunables give.
    pub open spec fn within(self, c: Config) -> bool {
        &&& self.obstacle.within(c.obstacles)
        &&& self.cloud.within(c.clouds)
        &&& self.balloon.within(c.balloons, c.balloon_colors@.len() as int)
    }
}

/// One for the right side, minus one for the left.
pub open spec fn side_sign(right: bool) -> Fixed {
    if right {
        Fixed { raw: SCALE }
    } else {
        Fixed { raw: (-1_000_000) as i64 }
    }
}

/// The variant of an obstacle and the speed of its animation.
pub open spec fn obstacle_kind(kind: usize) -> (ObstacleType, Fixed) {
    if kind % 3 == 0 {
        (ObstacleType::Plane, Fixed { raw: SCALE })
    } else if kind % 3 == 1 {
        (ObstacleType::Helicopter1, Fixed { raw: 5_000_000 })
    } else {
        (ObstacleType::Helicopter2, Fixed { raw: 5_000_000 })
    }
}

/// The variant of a cloud.
pub open spec fn cloud_kind(kind: usize) -> CloudType {
    if kind % 3 == 0 {
        CloudType::Cloud0
    } else if kind % 3 == 1 {
        CloudType::Cloud1
    } else {
        CloudType::Cloud2
    }
}

/// The height at which an obstacle or a cloud would spawn: the player's
/// height, plus how far its vertical velocity carries it in the time
/// `ahead_of_player`, plus the drawn offset.
pub open spec fn spawn_height(p: PlayerView, c: ObstacleConfig, offset: Fixed) -> Fixed {
    p.position.y.spec_add(p.velocity.y.spec_mul(c.ahead_of_player)).spec_add(offset)
}

/// Where something of radius one half spawns: just outside the spawn area on
/// its side, at the given height.
pub open spec fn spawn_position(c: ObstacleConfig, right: bool, height: Fixed) -> Vec2 {
    Vec2 {
        x: c.spawn_area_width.spec_add(Fixed { raw: 500_000 }).spec_mul(side_sign(right)),
        y: height,
    }
}

/// The velocity of a spawn: level, toward the middle.
pub open spec fn spawn_velocity(right: bool, speed: Fixed) -> Vec2 {
    Vec2 { x: side_sign(right).spec_neg().spec_mul(speed), y: Fixed { raw: 0 } }
}

/// The obstacle that a draw describes.
pub open spec fn obstacle_drawn(m: ModelView, d: SpawnDraw) -> Obstacle {
    Obstacle {
        id: m.id_gen.peek(),
        animation_speed: obstacle_kind(d.kind).1,
        animation_time: Fixed { raw: 0 },
        obstacle_type: obstacle_kind(d.kind).0,
        position: spawn_position(
            m.config.obstacles,
            d.right,
            spawn_height(m.player, m.config.obstacles, d.offset),
        ),
        velocity: spawn_velocity(d.right, d.speed),
        radius: Fixed { raw: 500_000 },
    }
}

/// The cloud that a draw describes.
pub open spec fn cloud_drawn(m: ModelView, d: SpawnDraw) -> Cloud {
    Cloud {
        id: m.id_gen.peek(),
        cloud_type: cloud_kind(d.kind),
        position: spawn_position(
            m.config.clouds,
            d.right,
            spawn_height(m.player, m.config.clouds, d.offset),
        ),
        velocity: spawn_velocity(d.right, d.speed),
        radius: Fixed { raw: 500_000 },
    }
}

/// The free balloon that a draw describes: below the player, somewhere
/// across the spawn area.
pub open spec fn balloon_drawn(m: ModelView, d: BalloonDraw) -> Balloon {
    Balloon {
        id: m.id_gen.peek(),
        mass: m.config.balloon_mass,
        position: Vec2 {
            x: d.across.spec_mul(m.config.balloons.spawn_area_width),
            y: m.player.position.y.spec_sub(m.config.balloons.below_player),
        },
        velocity: Vec2::spec_zero(),
        radius: Fixed { raw: 250_000 },
        length: m.config.balloon_length,
        drag: m.config.balloon_drag,
        color: m.config.balloon_colors@[d.color as int % (m.config.balloon_colors@.len() as int)],
        attached_to_player: false,
        popped: false,
    }
}

/// The obstacle spawner. Its countdown loses `dt`. Once it is negative, an
/// obstacle spawns if its height would be above the least height, and the
/// drawn delay is added to the countdown either way.
pub open spec fn obstacle_spawn_step(m: ModelView, dt: Time, d: SpawnDraw) -> ModelView {
    let left = m.next_obstacle.spec_sub(dt);
    if left.raw < 0 {
        let height = spawn_height(m.player, m.config.obstacles, d.offset);
        let after = if height.raw > m.config.obstacles.min_height.raw {
            ModelView {
                id_gen: m.id_gen.advanced(),
                obstacles: inserted(m.obstacles, obstacle_drawn(m, d)),
                ..m
            }
        } else {
            m
        };
        ModelView { next_obstacle: left.spec_add(d.delay), ..after }
    } else {
        ModelView { next_obstacle: left, ..m }
    }
}

/// The cloud spawner. It counts down on the same countdown as the obstacle
/// spawner, after it, and otherwise works in the same way on the clouds'
/// own tunables.
pub open spec fn cloud_spawn_step(m: ModelView, dt: Time, d: SpawnDraw) -> ModelView {
    let left = m.next_obstacle.spec_sub(dt);
    if left.raw < 0 {
        let height = spawn_height(m.player, m.config.clouds, d.offset);
        let after = if height.raw > m.config.clouds.min_height.raw {
            ModelView {
                id_gen: m.id_gen.advanced(),
                clouds: inserted(m.clouds, cloud_drawn(m, d)),
                ..m
            }
        } else {
            m
        };
        ModelView { next_obstacle: left.spec_add(d.delay), ..after }
    } else {
        ModelView { next_obstacle: left, ..m }
    }
}

/// The balloon spawner. Its countdown loses `dt`. Once it is negative, a
/// free balloon spawns below the player if that is above the least height,
/// and the drawn delay is added to the countdown either way.
pub open spec fn balloon_spawn_step(m: ModelView, dt: Time, d: BalloonDraw) -> ModelView {
    let left = m.next_balloon.spec_sub(dt);
    if left.raw < 0 {
        let y = m.player.position.y.spec_sub(m.config.balloons.below_player);
        let after = if y.raw > m.config.balloons.min_height.raw {
            ModelView {
                id_gen: m.id_gen.advanced(),
                balloons: inserted(m.balloons, balloon_drawn(m, d)),
                ..m
            }
        } else {
            m
        };
        ModelView { next_balloon: left.spec_add(d.delay), ..after }
    } else {
        ModelView { next_balloon: left, ..m }
    }
}

/// The spawning step: obstacles, then clouds, then balloons.
pub open spec fn generation_step(m: ModelView, dt: Time, d: Draws) -> ModelView {
    balloon_spawn_step(
        cloud_spawn_step(obstacle_spawn_step(m, dt, d.obstacle), dt, d.cloud),
        dt,
        d.balloon,
    )
}

/// A whole frame: the events of the frame before are forgotten; then sound
/// volumes, score, gravity, tethers, the periodic pop, collisions,
/// movement, spawning and animations follow one another.
pub open spec fn frame_step(m: ModelView, dt: Time, d: Draws) -> ModelView {
    let cleared = ModelView { events: Seq::empty(), ..m };
    let pulled = tether_step(gravity_step(score_step(sound_step(cleared)), dt));
    let collided = collision_step(pop_step(pulled, dt, d.pop as int));
    animation_step(generation_step(movement_step(collided, dt), dt, d), dt)
}

/// The world after the first `frames` frames of a run that takes the
/// elapsed times `dts` and the draws `draws`.
pub open spec fn run(m: ModelView, dts: Seq<Time>, draws: Seq<Draws>, frames: nat) -> ModelView
    recommends
        frames <= dts.len(),
        frames <= draws.len(),
    decreases frames,
{
    if frames == 0 {
        m
    } else {
        frame_step(run(m, dts, draws, (frames - 1) as nat), dts[frames - 1], draws[frames - 1])
    }
}

/// The direction that two opposite keys ask for along one axis: one, minus
/// one, or zero where neither or both are held.
pub open spec fn axis(plus: bool, minus: bool) -> int {
    (if plus {
        1int
    } else {
        0int
    }) - (if minus {
        1int
    } else {
        0int
    })
}

/// The velocity that the held keys ask for: the horizontal speed to the
/// side, and upward or downward the speed of that direction, which is zero
/// for a player without balloons.
pub open spec fn steer_target(m: ModelView, left: bool, right: bool, down: bool, up: bool) -> Vec2 {
    let dy = axis(up, down);
    let speed_y = if m.player.balloons.len() == 0 {
        Fixed { raw: 0 }
    } else if dy < 0 {
        m.config.player_speed_v_down
    } else {
        m.config.player_speed_v_up
    };
    Vec2 {
        x: Fixed::spec_from_int(axis(right, left)).spec_mul(m.config.player_speed_h),
        y: Fixed::spec_from_int(dy).spec_mul(speed_y),
    }
}

/// Steering: the steered velocity of a live player moves toward what the
/// held keys ask for, by no more than ten units per second each second; a
/// dead player is not steered at all.
pub open spec fn control_step(
    m: ModelView,
    left: bool,
    right: bool,
    down: bool,
    up: bool,
    dt: Time,
) -> ModelView {
    if !m.player.alive {
        ModelView { player_control_velocity: Vec2::spec_zero(), ..m }
    } else {
        let change = steer_target(m, left, right, down, up).spec_sub(
            m.player_control_velocity,
        ).spec_clamp_len(Fixed { raw: 10_000_000 }.spec_mul(dt));
        ModelView { player_control_velocity: m.player_control_velocity.spec_add(change), ..m }
    }
}

} // verus!
