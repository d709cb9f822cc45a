//! A whole frame.

use vstd::prelude::*;
use batbox::rng::StdRng;
use crate::fixed::{Fixed, Time};
use crate::frame::{axis, control_step, frame_step, height_score, Draws};
use crate::laws::{
    higher, lemma_before_collisions, lemma_collision_keeps, lemma_frame_holds_tethers,
    lemma_frame_keeps_setup, lemma_frame_score, tethers_hold,
};
use crate::logic::Logic;
use crate::model::Model;
use crate::shape::lemma_frame_step_wf;
use crate::vec2::Vec2;

verus! {

impl Logic {
    /// Runs one frame on given draws.
    pub fn process_with(&self, model: &mut Model, d: &Draws)
        requires
            old(model)@.ready(),
        ensures
            final(model)@ == frame_step(old(model)@, self.delta_time, *d),
            final(model).config == old(model).config,
            final(model)@.massive(),
            final(model).id_gen.upcoming() <= old(model).id_gen.upcoming() + 3,
            final(model).score ==
                higher(old(model).score, height_score(old(model).player.position.y)),
            final(model).high_score == old(model).high_score,
            tethers_hold(final(model)@),
            old(model)@.wf() ==> final(model)@.wf(),
    {
        proof {
            lemma_before_collisions(old(model)@, self.delta_time, d.pop as int);
            lemma_frame_keeps_setup(old(model)@, self.delta_time, *d);
            lemma_frame_score(old(model)@, self.delta_time, *d);
            lemma_frame_holds_tethers(old(model)@, self.delta_time, *d);
            if old(model)@.wf() {
                lemma_frame_step_wf(old(model)@, self.delta_time, *d);
            }
        }
        model.events = Vec::new();
        self.sounds(model);
        self.update_score(model);
        self.apply_gravity(model);
        self.player_balloon(model);
        self.pop_at(model, d.pop);
        proof {
            lemma_collision_keeps(model@);
        }
        self.collisions(model);
        self.movement(model);
        self.generation_with(model, d);
        self.animations(model);
    }

    /// Runs one frame, drawing from `rng` what the frame needs at random.
    /// The draws made are returned.
    pub fn process(&self, model: &mut Model, rng: &mut StdRng) -> (d: Draws)
        requires
            old(model)@.ready(),
        ensures
            d.within(old(model).config),
            final(model)@ == frame_step(old(model)@, self.delta_time, d),
            final(model).config == old(model).config,
            final(model)@.massive(),
            final(model).id_gen.upcoming() <= old(model).id_gen.upcoming() + 3,
            final(model).score ==
                higher(old(model).score, height_score(old(model).player.position.y)),
            final(model).high_score == old(model).high_score,
            tethers_hold(final(model)@),
            old(model)@.wf() ==> final(model)@.wf(),
    {
        model.events = Vec::new();
        self.sounds(model);
        self.update_score(model);
        self.apply_gravity(model);
        self.player_balloon(model);
        let pick = self.pop(model, rng);
        proof {
            lemma_before_collisions(old(model)@, self.delta_time, pick as int);
            lemma_collision_keeps(model@);
        }
        self.collisions(model);
        self.movement(model);
        let drawn = self.generation(model, rng);
        self.animations(model);
        let d = Draws {
            pop: pick,
            obstacle: drawn.obstacle,
            cloud: drawn.cloud,
            balloon: drawn.balloon,
        };
        proof {
            lemma_frame_keeps_setup(old(model)@, self.delta_time, d);
            lemma_frame_score(old(model)@, self.delta_time, d);
            lemma_frame_holds_tethers(old(model)@, self.delta_time, d);
            if old(model)@.wf() {
                lemma_frame_step_wf(old(model)@, self.delta_time, d);
            }
        }
        d
    }
}

impl Model {
    /// Advances the world by one frame of `delta_time`, drawing from `rng`.
    pub fn update(&mut self, delta_time: Time, rng: &mut StdRng) -> (d: Draws)
        requires
            old(self)@.ready(),
        ensures
            d.within(old(self).config),
            final(self)@ == frame_step(old(self)@, delta_time, d),
            final(self).config == old(self).config,
            final(self)@.massive(),
            final(self).id_gen.upcoming() <= old(self).id_gen.upcoming() + 3,
            final(self).score == higher(old(self).score, height_score(old(self).player.position.y)),
            final(self).high_score == old(self).high_score,
            tethers_hold(final(self)@),
            old(self)@.wf() ==> final(self)@.wf(),
    {
        let logic = Logic { delta_time };
        logic.process(self, rng)
    }

    /// Advances the world by one frame of `delta_time` on given draws.
    pub fn update_with(&mut self, delta_time: Time, d: &Draws)
        requires
            old(self)@.ready(),
        ensures
            final(self)@ == frame_step(old(self)@, delta_time, *d),
            final(self).config == old(self).config,
            final(self)@.massive(),
            final(self).id_gen.upcoming() <= old(self).id_gen.upcoming() + 3,
            final(self).score == higher(old(self).score, height_score(old(self).player.position.y)),
            final(self).high_score == old(self).high_score,
            tethers_hold(final(self)@),
            old(self)@.wf() ==> final(self)@.wf(),
    {
        let logic = Logic { delta_time };
        logic.process_with(self, d);
    }

    /// Steers the player by the keys that are held.
    pub fn control(&mut self, left: bool, right: bool, down: bool, up: bool, delta_time: Time)
        ensures
            final(self)@ == control_step(old(self)@, left, right, down, up, delta_time),
    {
        if !self.player.alive {
            self.player_control_velocity = Vec2::zero();
            return;
        }
        let dx = direction(right, left);
        let dy = direction(up, down);
        let speed_y = if self.player.balloons.len() == 0 {
            Fixed::zero()
        } else if dy < 0 {
            self.config.player_speed_v_down
        } else {
            self.config.player_speed_v_up
        };
        let target = Vec2::new(
            Fixed::from_int(dx).mul(self.config.player_speed_h),
            Fixed::from_int(dy).mul(speed_y),
        );
        let change = target.sub(self.player_control_velocity).clamp_len(
            Fixed::from_raw(10_000_000).mul(delta_time),
        );
        self.player_control_velocity = self.player_control_velocity.add(change);
    }
}

/// The direction that two opposite keys ask for along one axis.
pub fn direction(plus: bool, minus: bool) -> (r: i64)
    ensures
        r == axis(plus, minus),
{
    let a: i64 = if plus {
        1
    } else {
        0
    };
    let b: i64 = if minus {
        1
    } else {
        0
    };
    a - b
}

} // verus!
