//! Timed spawning of obstacles, clouds and free balloons.

use vstd::prelude::*;
use batbox::rng::StdRng;
use crate::config::{BalloonsConfig, ObstacleConfig};
use crate::fixed::Fixed;
use crate::frame::{
    balloon_spawn_step, cloud_spawn_step, generation_step, obstacle_spawn_step, side_sign,
    spawn_height, spawn_position, spawn_velocity, BalloonDraw, Draws, SpawnDraw,
};
use crate::logic::Logic;
use crate::model::{Balloon, Cloud, CloudType, Model, Obstacle, ObstacleType, Player};
use crate::random::{draw_fixed, draw_index, draw_side};
use crate::vec2::Vec2;

verus! {

/// Draws what a spawn of an obstacle or a cloud needs.
pub fn draw_spawn(rng: &mut StdRng, c: &ObstacleConfig) -> (d: SpawnDraw)
    requires
        c.valid(),
    ensures
        d.within(*c),
{
    let offset = draw_fixed(rng, c.below_player.neg(), c.above_player);
    let right = draw_side(rng);
    let speed = draw_fixed(rng, c.min_speed, c.max_speed);
    let kind = draw_index(rng, 3);
    let delay = draw_fixed(rng, c.min_delay, c.max_delay);
    SpawnDraw { offset, right, speed, kind, delay }
}

/// The draw that stands in where nothing is drawn: the least of each range.
pub fn idle_spawn(c: &ObstacleConfig) -> (d: SpawnDraw)
    requires
        c.valid(),
    ensures
        d.within(*c),
{
    SpawnDraw {
        offset: c.above_player,
        right: false,
        speed: c.min_speed,
        kind: 0,
        delay: c.min_delay,
    }
}

/// Draws what a spawn of a balloon needs, for a palette of `colors`
/// colours.
pub fn draw_balloon(rng: &mut StdRng, c: &BalloonsConfig, colors: usize) -> (d: BalloonDraw)
    requires
        c.valid(),
        colors > 0,
    ensures
        d.within(*c, colors as int),
{
    let across = draw_fixed(rng, Fixed::from_raw(-1_000_000), Fixed::from_raw(1_000_000));
    let color = draw_index(rng, colors);
    let delay = draw_fixed(rng, c.min_delay, c.max_delay);
    BalloonDraw { across, color, delay }
}

/// The draw that stands in where no balloon is drawn.
pub fn idle_balloon(c: &BalloonsConfig, colors: usize) -> (d: BalloonDraw)
    requires
        c.valid(),
        colors > 0,
    ensures
        d.within(*c, colors as int),
{
    BalloonDraw { across: Fixed::zero(), color: 0, delay: c.min_delay }
}

/// One for the right side, minus one for the left.
pub fn sign_of(right: bool) -> (r: Fixed)
    ensures
        r == side_sign(right),
{
    if right {
        Fixed::from_raw(1_000_000)
    } else {
        Fixed::from_raw(-1_000_000)
    }
}

/// Height at which an obstacle or a cloud would spawn.
pub fn height_for(p: &Player, c: &ObstacleConfig, offset: Fixed) -> (r: Fixed)
    ensures
        r == spawn_height(p@, *c, offset),
{
    p.position.y.add(p.velocity.y.mul(c.ahead_of_player)).add(offset)
}

/// Place of a spawn on its side of the spawn area.
pub fn position_for(c: &ObstacleConfig, right: bool, height: Fixed) -> (r: Vec2)
    ensures
        r == spawn_position(*c, right, height),
{
    Vec2::new(c.spawn_area_width.add(Fixed::from_raw(500_000)).mul(sign_of(right)), height)
}

/// Velocity of a spawn, toward the middle.
pub fn velocity_for(right: bool, speed: Fixed) -> (r: Vec2)
    ensures
        r == spawn_velocity(right, speed),
{
    Vec2::new(sign_of(right).neg().mul(speed), Fixed::zero())
}

impl Logic {
    /// Runs the obstacle spawner on a given draw.
    pub fn spawn_obstacle(&self, model: &mut Model, d: &SpawnDraw)
        requires
            old(model).id_gen.upcoming() < u64::MAX,
        ensures
            final(model)@ == obstacle_spawn_step(old(model)@, self.delta_time, *d),
            old(model).id_gen.upcoming() <= final(model).id_gen.upcoming() <= old(
                model,
            ).id_gen.upcoming() + 1,
    {
        let left = model.next_obstacle.sub(self.delta_time);
        if left.raw < 0 {
            let height = height_for(&model.player, &model.config.obstacles, d.offset);
            if height.raw > model.config.obstacles.min_height.raw {
                let (obstacle_type, animation_speed) = if d.kind % 3 == 0 {
                    (ObstacleType::Plane, Fixed::from_raw(1_000_000))
                } else if d.kind % 3 == 1 {
                    (ObstacleType::Helicopter1, Fixed::from_raw(5_000_000))
                } else {
                    (ObstacleType::Helicopter2, Fixed::from_raw(5_000_000))
                };
                let obstacle = Obstacle {
                    id: model.id_gen.gen(),
                    animation_speed,
                    animation_time: Fixed::zero(),
                    obstacle_type,
                    position: position_for(&model.config.obstacles, d.right, height),
                    velocity: velocity_for(d.right, d.speed),
                    radius: Fixed::from_raw(500_000),
                };
                model.obstacles.insert(obstacle);
            }
            model.next_obstacle = left.add(d.delay);
        } else {
            model.next_obstacle = left;
        }
    }

    /// Runs the cloud spawner on a given draw.
    pub fn spawn_cloud(&self, model: &mut Model, d: &SpawnDraw)
        requires
            old(model).id_gen.upcoming() < u64::MAX,
        ensures
            final(model)@ == cloud_spawn_step(old(model)@, self.delta_time, *d),
            old(model).id_gen.upcoming() <= final(model).id_gen.upcoming() <= old(
                model,
            ).id_gen.upcoming() + 1,
    {
        let left = model.next_obstacle.sub(self.delta_time);
        if left.raw < 0 {
            let height = height_for(&model.player, &model.config.clouds, d.offset);
            if height.raw > model.config.clouds.min_height.raw {
                let cloud_type = if d.kind % 3 == 0 {
                    CloudType::Cloud0
                } else if d.kind % 3 == 1 {
                    CloudType::Cloud1
                } else {
                    CloudType::Cloud2
                };
                let cloud = Cloud {
                    id: model.id_gen.gen(),
                    cloud_type,
                    position: position_for(&model.config.clouds, d.right, height),
                    velocity: velocity_for(d.right, d.speed),
                    radius: Fixed::from_raw(500_000),
                };
                model.clouds.insert(cloud);
            }
            model.next_obstacle = left.add(d.delay);
        } else {
            model.next_obstacle = left;
        }
    }

    /// Runs the balloon spawner on a given draw.
    pub fn spawn_balloon(&self, model: &mut Model, d: &BalloonDraw)
        requires
            old(model).id_gen.upcoming() < u64::MAX,
            old(model).config.balloon_colors@.len() > 0,
        ensures
            final(model)@ == balloon_spawn_step(old(model)@, self.delta_time, *d),
            old(model).id_gen.upcoming() <= final(model).id_gen.upcoming() <= old(
                model,
            ).id_gen.upcoming() + 1,
    {
        let left = model.next_balloon.sub(self.delta_time);
        if left.raw < 0 {
            let y = model.player.position.y.sub(model.config.balloons.below_player);
            if y.raw > model.config.balloons.min_height.raw {
                let colors = model.config.balloon_colors.len();
                let balloon = Balloon {
                    id: model.id_gen.gen(),
                    mass: model.config.balloon_mass,
                    position: Vec2::new(d.across.mul(model.config.balloons.spawn_area_width), y),
                    velocity: Vec2::zero(),
                    radius: Fixed::from_raw(250_000),
                    length: model.config.balloon_length,
                    drag: model.config.balloon_drag,
                    color: model.config.balloon_colors[d.color % colors],
                    attached_to_player: false,
                    popped: false,
                };
                model.balloons.insert(balloon);
            }
            model.next_balloon = left.add(d.delay);
        } else {
            model.next_balloon = left;
        }
    }

    /// Runs the three spawners on given draws.
    pub fn generation_with(&self, model: &mut Model, d: &Draws)
        requires
            old(model).id_gen.upcoming() <= u64::MAX - 3,
            old(model).config.balloon_colors@.len() > 0,
        ensures
            final(model)@ == generation_step(old(model)@, self.delta_time, *d),
            old(model).id_gen.upcoming() <= final(model).id_gen.upcoming() <= old(
                model,
            ).id_gen.upcoming() + 3,
    {
        self.spawn_obstacle(model, &d.obstacle);
        self.spawn_cloud(model, &d.cloud);
        self.spawn_balloon(model, &d.balloon);
    }

    /// Runs the three spawners, drawing from `rng` what each one needs once
    /// its countdown is negative. The draws made are returned.
    pub fn generation(&self, model: &mut Model, rng: &mut StdRng) -> (d: Draws)
        requires
            old(model).id_gen.upcoming() <= u64::MAX - 3,
            old(model).config.valid(),
        ensures
            d.within(old(model).config),
            final(model)@ == generation_step(old(model)@, self.delta_time, d),
            old(model).id_gen.upcoming() <= final(model).id_gen.upcoming() <= old(
                model,
            ).id_gen.upcoming() + 3,
    {
        let obstacle = if model.next_obstacle.sub(self.delta_time).raw < 0 {
            draw_spawn(rng, &model.config.obstacles)
        } else {
            idle_spawn(&model.config.obstacles)
        };
        self.spawn_obstacle(model, &obstacle);
        let cloud = if model.next_obstacle.sub(self.delta_time).raw < 0 {
            draw_spawn(rng, &model.config.clouds)
        } else {
            idle_spawn(&model.config.clouds)
        };
        self.spawn_cloud(model, &cloud);
        let colors = model.config.balloon_colors.len();
        let balloon = if model.next_balloon.sub(self.delta_time).raw < 0 {
            draw_balloon(rng, &model.config.balloons, colors)
        } else {
            idle_balloon(&model.config.balloons, colors)
        };
        self.spawn_balloon(model, &balloon);
        Draws { pop: 0, obstacle, cloud, balloon }
    }
}

} // verus!
