//! The start of a run, and starting over.

use vstd::prelude::*;
use batbox::rng::StdRng;
use crate::collection::{distinct_ids, has_id, ids_of, Collection};
use crate::config::Config;
use crate::fixed::{Fixed, SCALE};
use crate::id::IdGenerator;
use crate::model::{tied, Balloon, Model, ModelView, Player, PlayerView, Score};
use crate::random::{draw_fixed, draw_index};
use crate::vec2::Vec2;

verus! {

/// The player at the start of a run: alive at the origin, at rest, with no
/// balloons yet.
pub open spec fn initial_player(config: Config) -> PlayerView {
    PlayerView {
        animation_time: Fixed { raw: 0 },
        alive: true,
        mass: config.player_mass,
        position: Vec2::spec_zero(),
        velocity: Vec2::spec_zero(),
        radius: Fixed { raw: 300_000 },
        drag: config.player_drag,
        balloons: Seq::empty(),
    }
}

/// The world at the start of a run, before the first balloons are tied on.
pub open spec fn initial_view(config: Config, high_score: Score) -> ModelView {
    ModelView {
        config,
        id_gen: IdGenerator::spec_fresh(),
        next_obstacle: Fixed { raw: 0 },
        next_cloud: Fixed { raw: 0 },
        next_balloon: Fixed { raw: 0 },
        next_pop: config.balloon_pop_time,
        player_control_velocity: Vec2::spec_zero(),
        player: initial_player(config),
        balloons: Seq::empty(),
        obstacles: Seq::empty(),
        clouds: Seq::empty(),
        high_score,
        score: 0,
        volume: Fixed { raw: 500_000 },
        wind_volume: Fixed { raw: 0 },
        helicopter_volume: Fixed { raw: 0 },
        spawn_animation: Some(Fixed { raw: 0 }),
        events: Seq::empty(),
    }
}

/// Whether `b` can be the balloon that is tied on as number `number` at the
/// start of a run: attached, at rest, just above the player, in a colour of
/// the palette.
pub open spec fn initial_balloon(b: Balloon, config: Config, number: int) -> bool {
    &&& b.id@ == number
    &&& b.mass == config.balloon_mass
    &&& -SCALE <= b.position.x.raw <= SCALE
    &&& 1_900_000 <= b.position.y.raw <= 2_100_000
    &&& b.velocity == Vec2::spec_zero()
    &&& b.radius == (Fixed { raw: 250_000 })
    &&& b.length == config.balloon_length
    &&& b.drag == config.balloon_drag
    &&& config.balloon_colors@.contains(b.color)
    &&& b.attached_to_player
    &&& !b.popped
}

/// Whether `m` can be the world at the start of a run on `config`: the
/// initial world with `config.initial_balloons` balloons tied on, numbered
/// from zero, and the player's list naming them in that order.
pub open spec fn started(m: ModelView, config: Config, high_score: Score) -> bool {
    &&& m == (ModelView {
        id_gen: m.id_gen,
        player: PlayerView { balloons: m.player.balloons, ..initial_player(config) },
        balloons: m.balloons,
        ..initial_view(config, high_score)
    })
    &&& m.id_gen.upcoming() == config.initial_balloons
    &&& m.balloons.len() == config.initial_balloons
    &&& forall|i: int|
        0 <= i < m.balloons.len() ==> initial_balloon(#[trigger] m.balloons[i], config, i)
    &&& m.player.balloons == ids_of(m.balloons)
}

/// A world at the start of a run satisfies the invariant.
pub proof fn lemma_started_wf(m: ModelView, config: Config, high_score: Score)
    requires
        started(m, config, high_score),
    ensures
        m.wf(),
{
    assert forall|i: int, j: int| 0 <= i < j < m.balloons.len()
        implies (#[trigger] m.balloons[i]).id
        != (#[trigger] m.balloons[j]).id by {
        assert(initial_balloon(m.balloons[i], config, i));
        assert(initial_balloon(m.balloons[j], config, j));
    }
    assert(distinct_ids(m.balloons));
    let list = m.player.balloons;
    assert forall|k: int| 0 <= k < list.len() implies tied(m.balloons, #[trigger] list[k]) by {
        assert(initial_balloon(m.balloons[k], config, k));
        assert(m.balloons[k].id == list[k]);
    }
    assert forall|i: int, j: int| 0 <= i < list.len() && 0 <= j < list.len() && i != j
        implies list[i]
        != list[j] by {
        assert(initial_balloon(m.balloons[i], config, i));
        assert(initial_balloon(m.balloons[j], config, j));
    }
    assert forall|i: int|
        0 <= i < m.balloons.len() && (#[trigger] m.balloons[i]).attached_to_player implies m.holds(
        m.balloons[i].id,
    ) by {
        assert(list[i] == m.balloons[i].id);
    }
    assert forall|i: int| 0 <= i < m.balloons.len() implies !(#[trigger] m.balloons[i]).popped
        && m.balloons[i].id@ < m.id_gen.upcoming() by {
        assert(initial_balloon(m.balloons[i], config, i));
    }
}

impl Model {
    /// A world at the start of a run on `config`, with the first balloons
    /// tied to the player. Where each balloon floats and what colour it has
    /// is drawn from `rng`.
    pub fn new(config: Config, rng: &mut StdRng, high_score: Score) -> (r: Model)
        requires
            config.initial_balloons > 0 ==> config.balloon_colors@.len() > 0,
        ensures
            started(r@, config, high_score),
            r@.wf(),
    {
        let mut model = Model {
            id_gen: IdGenerator::new(),
            next_obstacle: Fixed::zero(),
            next_cloud: Fixed::zero(),
            next_balloon: Fixed::zero(),
            next_pop: config.balloon_pop_time,
            player_control_velocity: Vec2::zero(),
            player: Player {
                animation_time: Fixed::zero(),
                alive: true,
                mass: config.player_mass,
                position: Vec2::zero(),
                velocity: Vec2::zero(),
                radius: Fixed::from_raw(300_000),
                drag: config.player_drag,
                balloons: Vec::new(),
            },
            balloons: Collection::new(),
            obstacles: Collection::new(),
            clouds: Collection::new(),
            config,
            high_score,
            score: 0,
            volume: Fixed::from_raw(500_000),
            wind_volume: Fixed::zero(),
            helicopter_volume: Fixed::zero(),
            spawn_animation: Some(Fixed::zero()),
            events: Vec::new(),
        };
        model.tie_balloons(rng);
        proof {
            lemma_started_wf(model@, config, high_score);
        }
        model
    }

    /// Ties the first balloons of a run to the player of a world that has
    /// none yet.
    fn tie_balloons(&mut self, rng: &mut StdRng)
        requires
            old(self)@ == initial_view(old(self).config, old(self).high_score),
            old(self).config.initial_balloons > 0 ==> old(self).config.balloon_colors@.len() > 0,
        ensures
            started(final(self)@, old(self).config, old(self).high_score),
    {
        let ghost config = self.config;
        let ghost high_score = self.high_score;
        let mut i: usize = 0;
        proof {
            IdGenerator::lemma_fresh();
            assert(self.player.balloons@ =~= ids_of(self.balloons@));
        }
        while i < self.config.initial_balloons
            invariant
                i <= config.initial_balloons,
                self.config == config,
                config.initial_balloons > 0 ==> config.balloon_colors@.len() > 0,
                self@ == (ModelView {
                    id_gen: self.id_gen,
                    player: PlayerView {
                        balloons: self.player.balloons@,
                        ..initial_player(config)
                    },
                    balloons: self.balloons@,
                    ..initial_view(config, high_score)
                }),
                self.id_gen.upcoming() == i,
                self.balloons@.len() == i,
                forall|k: int|
                    0 <= k < i ==> initial_balloon(#[trigger] self.balloons@[k], config, k),
                self.player.balloons@ == ids_of(self.balloons@),
            decreases config.initial_balloons - i,
        {
            let x = draw_fixed(rng, Fixed::from_raw(-1_000_000), Fixed::from_raw(1_000_000));
            let y = draw_fixed(rng, Fixed::from_raw(-100_000), Fixed::from_raw(100_000));
            let pick = draw_index(rng, self.config.balloon_colors.len());
            let color = self.config.balloon_colors[pick];
            let balloon = Balloon {
                id: self.id_gen.gen(),
                mass: self.config.balloon_mass,
                position: Vec2::new(Fixed::zero().add(x), Fixed::from_raw(2_000_000).add(y)),
                velocity: Vec2::zero(),
                radius: Fixed::from_raw(250_000),
                length: self.config.balloon_length,
                drag: self.config.balloon_drag,
                color,
                attached_to_player: true,
                popped: false,
            };
            let ghost before = self.balloons@;
            proof {
                assert forall|k: int| 0 <= k < before.len() implies (#[trigger] before[k]).id
                    != balloon.id by {
                    assert(initial_balloon(before[k], config, k));
                }
                assert(!has_id(before, balloon.id));
            }
            self.balloons.insert(balloon);
            self.player.balloons.push(balloon.id);
            proof {
                assert(self.balloons@ == before.push(balloon));
                assert(self.player.balloons@ =~= ids_of(self.balloons@));
                assert forall|k: int| 0 <= k < i + 1 implies initial_balloon(
                    #[trigger] self.balloons@[k],
                    config,
                    k,
                ) by {
                    if k < i {
                        assert(self.balloons@[k] == before[k]);
                    }
                }
            }
            i += 1;
        }
    }

    /// Starts the run over: the high score rises to the score where that is
    /// more, and the world becomes what [`Model::new`] makes of the same
    /// tunables and that high score.
    pub fn reset(&mut self, rng: &mut StdRng)
        requires
            old(self).config.initial_balloons > 0 ==> old(self).config.balloon_colors@.len() > 0,
        ensures
            started(
                final(self)@,
                old(self).config,
                if old(self).score > old(self).high_score {
                    old(self).score
                } else {
                    old(self).high_score
                },
            ),
            final(self)@.wf(),
    {
        if self.score > self.high_score {
            self.high_score = self.score;
        }
        self.id_gen = IdGenerator::new();
        self.next_obstacle = Fixed::zero();
        self.next_cloud = Fixed::zero();
        self.next_balloon = Fixed::zero();
        self.next_pop = self.config.balloon_pop_time;
        self.player_control_velocity = Vec2::zero();
        self.player = Player {
            animation_time: Fixed::zero(),
            alive: true,
            mass: self.config.player_mass,
            position: Vec2::zero(),
            velocity: Vec2::zero(),
            radius: Fixed::from_raw(300_000),
            drag: self.config.player_drag,
            balloons: Vec::new(),
        };
        self.balloons = Collection::new();
        self.obstacles = Collection::new();
        self.clouds = Collection::new();
        self.score = 0;
        self.volume = Fixed::from_raw(500_000);
        self.wind_volume = Fixed::zero();
        self.helicopter_volume = Fixed::zero();
        self.spawn_animation = Some(Fixed::zero());
        self.events = Vec::new();
        self.tie_balloons(rng);
        proof {
            lemma_started_wf(self@, self.config, self.high_score);
        }
    }

    /// Tests whether a frame can be run on this world, that is
    /// [`ModelView::ready`].
    pub fn is_ready(&self) -> (r: bool)
        ensures
            r == self@.ready(),
    {
        if !self.config.is_valid() || self.player.mass.raw == 0 || self.id_gen.remaining() < 3 {
            return false;
        }
        let mut i: usize = 0;
        while i < self.balloons.len()
            invariant
                i <= self.balloons@.len(),
                forall|k: int| 0 <= k < i ==> (#[trigger] self.balloons@[k]).mass.raw != 0,
            decreases self.balloons@.len() - i,
        {
            if self.balloons.at(i).mass.raw == 0 {
                proof {
                    assert(self@.balloons[i as int].mass.raw == 0);
                    assert(!self@.massive());
                }
                return false;
            }
            i += 1;
        }
        true
    }
}

} // verus!
