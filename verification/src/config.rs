//! The tunables of one run. The simulation reads them and never changes
//! them.

use vstd::prelude::*;
use crate::fixed::{Coord, Fixed, Time};
use crate::vec2::Vec2;

verus! {

/// A colour with eight bits for each of red, green, blue and opacity.
#[derive(Debug, Clone, Copy, PartialEq, Eq, Hash, Structural)]
pub struct Color {
    pub r: u8,
    pub g: u8,
    pub b: u8,
    pub a: u8,
}

/// How obstacles, or clouds, are spawned.
#[derive(Debug, Clone, Copy)]
pub struct ObstacleConfig {
    pub spawn_area_width: Coord,
    pub min_speed: Coord,
    pub max_speed: Coord,
    pub min_height: Coord,
    pub above_player: Coord,
    pub below_player: Coord,
    pub ahead_of_player: Time,
    pub min_delay: Time,
    pub max_delay: Time,
}

/// How free balloons are spawned.
#[derive(Debug, Clone, Copy)]
pub struct BalloonsConfig {
    pub spawn_area_width: Coord,
    pub min_height: Coord,
    pub below_player: Coord,
    pub min_delay: Time,
    pub max_delay: Time,
}

/// Every tunable of a run.
#[derive(Debug)]
pub struct Config {
    pub gravity: Vec2,
    pub arena_width: Coord,
    pub balloon_pop_time: Time,
    pub player_speed_h: Coord,
    pub player_speed_v_down: Coord,
    pub player_speed_v_up: Coord,
    pub initial_balloons: usize,
    pub balloon_mass: Fixed,
    pub player_mass: Fixed,
    pub balloon_drag: Fixed,
    pub balloon_attached_drag: Fixed,
    pub player_drag: Fixed,
    pub balloon_length: Coord,
    pub obstacles: ObstacleConfig,
    pub clouds: ObstacleConfig,
    pub balloons: BalloonsConfig,
    pub balloon_colors: Vec<Color>,
}

impl ObstacleConfig {
    /// Whether each range that a spawn draws from holds a value.
    pub open spec fn valid(self) -> bool {
        &&& self.below_player.spec_neg().raw <= self.above_player.raw
        &&& self.min_speed.raw <= self.max_speed.raw
        &&& self.min_delay.raw <= self.max_delay.raw
    }

    /// Tests [`ObstacleConfig::valid`].
    pub fn is_valid(&self) -> (r: bool)
        ensures
            r == self.valid(),
    {
        self.below_player.neg().raw <= self.above_player.raw && self.min_speed.raw
            <= self.max_speed.raw && self.min_delay.raw <= self.max_delay.raw
    }
}

impl BalloonsConfig {
    /// Whether the range of delays holds a value.
    pub open spec fn valid(self) -> bool {
        self.min_delay.raw <= self.max_delay.raw
    }

    /// Tests [`BalloonsConfig::valid`].
    pub fn is_valid(&self) -> (r: bool)
        ensures
            r == self.valid(),
    {
        self.min_delay.raw <= self.max_delay.raw
    }
}

impl Config {
    /// Whether a world can run on these tunables: every range that is drawn
    /// from holds a value, there is a colour to give to a balloon, and no
    /// mass is zero.
    pub open spec fn valid(self) -> bool {
        &&& self.obstacles.valid()
        &&& self.clouds.valid()
        &&& self.balloons.valid()
        &&& self.balloon_colors@.len() > 0
        &&& self.balloon_mass.raw != 0
        &&& self.player_mass.raw != 0
    }

    /// Tests [`Config::valid`].
    pub fn is_valid(&self) -> (r: bool)
        ensures
            r == self.valid(),
    {
        self.obstacles.is_valid() && self.clouds.is_valid() && self.balloons.is_valid()
            && self.balloon_colors.len() > 0 && self.balloon_mass.raw != 0 && self.player_mass.raw
            != 0
    }
}

} // verus!
