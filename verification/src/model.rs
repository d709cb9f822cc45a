//! The state of a world and the mathematical view that its steps are stated
//! over.

use vstd::prelude::*;
use crate::collection::{distinct_ids, Collection, HasId};
use crate::config::{Color, Config};
use crate::fixed::{Coord, Fixed, Time};
use crate::id::{Id, IdGenerator};
use crate::vec2::Vec2;

verus! {

/// A height-derived count of points.
pub type Score = u64;

/// Something that happened during a step and that a listener may want to
/// play a sound for.
#[derive(Debug, Clone, Copy, PartialEq, Eq, Structural)]
pub enum Event {
    /// The player hit the ground hard.
    Splash,
    /// An obstacle hit the player.
    Hit,
    /// A free balloon became attached.
    Attach,
    /// A balloon popped where it was.
    Pop { position: Vec2 },
}

/// The player.
#[derive(Debug)]
pub struct Player {
    pub animation_time: Time,
    pub alive: bool,
    pub mass: Fixed,
    pub position: Vec2,
    pub velocity: Vec2,
    pub radius: Coord,
    pub drag: Fixed,
    pub balloons: Vec<Id>,
}

/// A balloon, tethered to the player or drifting free.
#[derive(Debug, Clone, Copy, PartialEq, Eq)]
pub struct Balloon {
    pub id: Id,
    pub mass: Fixed,
    pub position: Vec2,
    pub velocity: Vec2,
    pub radius: Coord,
    pub length: Coord,
    pub drag: Fixed,
    pub color: Color,
    pub attached_to_player: bool,
    pub popped: bool,
}

/// Something that kills the player and pops balloons on touch.
#[derive(Debug, Clone, Copy, PartialEq, Eq)]
pub struct Obstacle {
    pub id: Id,
    pub animation_speed: Fixed,
    pub animation_time: Time,
    pub obstacle_type: ObstacleType,
    pub position: Vec2,
    pub velocity: Vec2,
    pub radius: Coord,
}

/// The kinds of obstacle.
#[derive(Debug, Clone, Copy, PartialEq, Eq, Structural)]
pub enum ObstacleType {
    Plane,
    Helicopter1,
    Helicopter2,
}

/// A cloud. Clouds touch nothing.
#[derive(Debug, Clone, Copy, PartialEq, Eq)]
pub struct Cloud {
    pub id: Id,
    pub cloud_type: CloudType,
    pub position: Vec2,
    pub velocity: Vec2,
    pub radius: Coord,
}

/// The looks of a cloud.
#[derive(Debug, Clone, Copy, PartialEq, Eq, Structural)]
pub enum CloudType {
    Cloud0,
    Cloud1,
    Cloud2,
}

impl HasId for Balloon {
    open spec fn spec_id(&self) -> Id {
        self.id
    }

    fn id(&self) -> (r: Id) {
        self.id
    }
}

impl HasId for Obstacle {
    open spec fn spec_id(&self) -> Id {
        self.id
    }

    fn id(&self) -> (r: Id) {
        self.id
    }
}

impl HasId for Cloud {
    open spec fn spec_id(&self) -> Id {
        self.id
    }

    fn id(&self) -> (r: Id) {
        self.id
    }
}

/// The whole state of a run.
pub struct Model {
    pub config: Config,
    pub id_gen: IdGenerator,
    pub next_obstacle: Time,
    pub next_cloud: Time,
    pub next_balloon: Time,
    pub next_pop: Time,
    pub player_control_velocity: Vec2,
    pub player: Player,
    pub balloons: Collection<Balloon>,
    pub obstacles: Collection<Obstacle>,
    pub clouds: Collection<Cloud>,
    pub high_score: Score,
    pub score: Score,
    pub volume: Fixed,
    pub wind_volume: Fixed,
    pub helicopter_volume: Fixed,
    pub spawn_animation: Option<Time>,
    pub events: Vec<Event>,
}

/// The player as a mathematical value.
pub struct PlayerView {
    pub animation_time: Time,
    pub alive: bool,
    pub mass: Fixed,
    pub position: Vec2,
    pub velocity: Vec2,
    pub radius: Coord,
    pub drag: Fixed,
    pub balloons: Seq<Id>,
}

/// The world as a mathematical value.
pub struct ModelView {
    pub config: Config,
    pub id_gen: IdGenerator,
    pub next_obstacle: Time,
    pub next_cloud: Time,
    pub next_balloon: Time,
    pub next_pop: Time,
    pub player_control_velocity: Vec2,
    pub player: PlayerView,
    pub balloons: Seq<Balloon>,
    pub obstacles: Seq<Obstacle>,
    pub clouds: Seq<Cloud>,
    pub high_score: Score,
    pub score: Score,
    pub volume: Fixed,
    pub wind_volume: Fixed,
    pub helicopter_volume: Fixed,
    pub spawn_animation: Option<Time>,
    pub events: Seq<Event>,
}

impl View for Player {
    type V = PlayerView;

    open spec fn view(&self) -> PlayerView {
        PlayerView {
            animation_time: self.animation_time,
            alive: self.alive,
            mass: self.mass,
            position: self.position,
            velocity: self.velocity,
            radius: self.radius,
            drag: self.drag,
            balloons: self.balloons@,
        }
    }
}

impl View for Model {
    type V = ModelView;

    open spec fn view(&self) -> ModelView {
        ModelView {
            config: self.config,
            id_gen: self.id_gen,
            next_obstacle: self.next_obstacle,
            next_cloud: self.next_cloud,
            next_balloon: self.next_balloon,
            next_pop: self.next_pop,
            player_control_velocity: self.player_control_velocity,
            player: self.player@,
            balloons: self.balloons@,
            obstacles: self.obstacles@,
            clouds: self.clouds@,
            high_score: self.high_score,
            score: self.score,
            volume: self.volume,
            wind_volume: self.wind_volume,
            helicopter_volume: self.helicopter_volume,
            spawn_animation: self.spawn_animation,
            events: self.events@,
        }
    }
}

impl ModelView {
    /// What a step needs of a world so that nothing in it divides by zero,
    /// draws from an empty range or runs out of identifiers: valid
    /// tunables, a player and balloons with mass, and three identifiers
    /// still to issue.
    pub open spec fn ready(self) -> bool {
        &&& self.config.valid()
        &&& self.massive()
        &&& self.id_gen.upcoming() <= u64::MAX - 3
    }

    /// Whether the player and every balloon have a mass other than zero, so
    /// that the impulse law can divide by it.
    pub open spec fn massive(self) -> bool {
        &&& self.player.mass.raw != 0
        &&& forall|i: int| 0 <= i < self.balloons.len() ==>
            (#[trigger] self.balloons[i]).mass.raw != 0
    }

    /// Whether the identifier is in the player's list of balloons.
    pub open spec fn holds(self, id: Id) -> bool {
        self.player.balloons.contains(id)
    }

    /// The invariant of a world between steps: identifiers are distinct
    /// within each collection and older than the generator's next one; the
    /// player's list names each attached balloon once and nothing else; no
    /// balloon is marked as popped.
    pub open spec fn wf(self) -> bool {
        &&& distinct_ids(self.balloons)
        &&& distinct_ids(self.obstacles)
        &&& distinct_ids(self.clouds)
        &&& self.player.balloons.no_duplicates()
        &&& forall|k: int|
            0 <= k < self.player.balloons.len() ==> tied(
                self.balloons,
                #[trigger] self.player.balloons[k],
            )
        &&& forall|i: int|
            0 <= i < self.balloons.len() && (#[trigger] self.balloons[i]).attached_to_player
                ==> self.holds(self.balloons[i].id)
        &&& forall|i: int| 0 <= i < self.balloons.len() ==> !(#[trigger] self.balloons[i]).popped
        &&& forall|i: int|
            0 <= i < self.balloons.len() ==> (#[trigger] self.balloons[i]).id@
                < self.id_gen.upcoming()
        &&& forall|i: int|
            0 <= i < self.obstacles.len() ==> (#[trigger] self.obstacles[i]).id@
                < self.id_gen.upcoming()
        &&& forall|i: int|
            0 <= i < self.clouds.len() ==> (#[trigger] self.clouds[i]).id@ < self.id_gen.upcoming()
    }
}

/// Whether the identifier names a balloon of the sequence that is attached.
pub open spec fn tied(balloons: Seq<Balloon>, id: Id) -> bool {
    exists|i: int|
        0 <= i < balloons.len() && (#[trigger] balloons[i]).id == id
            && balloons[i].attached_to_player
}

} // verus!
