use balloon_sim::collection::Collection;
use balloon_sim::config::{BalloonsConfig, Color, Config, ObstacleConfig};
use balloon_sim::fixed::Fixed;
use balloon_sim::frame::{BalloonDraw, Draws, SpawnDraw};
use balloon_sim::id::{Id, IdGenerator};
use balloon_sim::logic::{advance_phase, score_of, tether, Logic};
use balloon_sim::model::{Balloon, CloudType, Event, Model, Obstacle, ObstacleType, Player};
use balloon_sim::spawner::{
    draw_balloon, draw_spawn, height_for, idle_balloon, idle_spawn, position_for, sign_of,
    velocity_for,
};
use balloon_sim::vec2::Vec2;
use batbox::rng::{SeedableRng, StdRng};

fn fx(x: f64) -> Fixed {
    Fixed::from_raw((x * 1e6).round() as i64)
}

fn v(x: f64, y: f64) -> Vec2 {
    Vec2::new(fx(x), fx(y))
}

fn spawn_config() -> ObstacleConfig {
    ObstacleConfig {
        spawn_area_width: fx(10.0),
        min_speed: fx(1.0),
        max_speed: fx(3.0),
        min_height: fx(5.0),
        above_player: fx(12.0),
        below_player: fx(2.0),
        ahead_of_player: fx(1.0),
        min_delay: fx(1.0),
        max_delay: fx(2.0),
    }
}

fn config() -> Config {
    Config {
        gravity: v(0.0, -10.0),
        arena_width: fx(8.0),
        balloon_pop_time: fx(10.0),
        player_speed_h: fx(3.0),
        player_speed_v_down: fx(2.0),
        player_speed_v_up: fx(1.0),
        initial_balloons: 3,
        balloon_mass: fx(0.5),
        player_mass: fx(2.0),
        balloon_drag: fx(0.1),
        balloon_attached_drag: fx(0.05),
        player_drag: fx(0.02),
        balloon_length: fx(1.5),
        obstacles: spawn_config(),
        clouds: spawn_config(),
        balloons: BalloonsConfig {
            spawn_area_width: fx(6.0),
            min_height: fx(3.0),
            below_player: fx(4.0),
            min_delay: fx(0.5),
            max_delay: fx(1.5),
        },
        balloon_colors: vec![
            Color { r: 255, g: 0, b: 0, a: 255 },
            Color { r: 0, g: 255, b: 0, a: 255 },
            Color { r: 0, g: 0, b: 255, a: 255 },
        ],
    }
}

/// A world with a player at the origin and nothing else, whose countdowns
/// are far from running out.
fn bare(config: Config) -> Model {
    Model {
        id_gen: IdGenerator::new(),
        next_obstacle: fx(1000.0),
        next_cloud: fx(1000.0),
        next_balloon: fx(1000.0),
        next_pop: fx(1000.0),
        player_control_velocity: Vec2::zero(),
        player: Player {
            animation_time: Fixed::zero(),
            alive: true,
            mass: config.player_mass,
            position: Vec2::zero(),
            velocity: Vec2::zero(),
            radius: fx(0.3),
            drag: config.player_drag,
            balloons: Vec::new(),
        },
        balloons: Collection::new(),
        obstacles: Collection::new(),
        clouds: Collection::new(),
        config,
        high_score: 0,
        score: 0,
        volume: fx(0.5),
        wind_volume: Fixed::zero(),
        helicopter_volume: Fixed::zero(),
        spawn_animation: None,
        events: Vec::new(),
    }
}

/// Adds a balloon at a place and returns its identifier.
fn add_balloon(model: &mut Model, x: f64, y: f64, attached: bool) -> Id {
    let id = model.id_gen.gen();
    model.balloons.insert(Balloon {
        id,
        mass: model.config.balloon_mass,
        position: v(x, y),
        velocity: Vec2::zero(),
        radius: fx(0.25),
        length: model.config.balloon_length,
        drag: model.config.balloon_drag,
        color: model.config.balloon_colors[0],
        attached_to_player: attached,
        popped: false,
    });
    if attached {
        model.player.balloons.push(id);
    }
    id
}

/// Adds an obstacle at a place and returns its identifier.
fn add_obstacle(model: &mut Model, x: f64, y: f64, kind: ObstacleType) -> Id {
    let id = model.id_gen.gen();
    model.obstacles.insert(Obstacle {
        id,
        animation_speed: fx(5.0),
        animation_time: Fixed::zero(),
        obstacle_type: kind,
        position: v(x, y),
        velocity: v(-2.0, 0.0),
        radius: fx(0.5),
    });
    id
}

fn idle_draws() -> Draws {
    let spawn =
        SpawnDraw { offset: fx(0.0), right: false, speed: fx(1.0), kind: 0, delay: fx(1.0) };
    Draws {
        pop: 0,
        obstacle: spawn,
        cloud: spawn,
        balloon: BalloonDraw { across: fx(0.0), color: 0, delay: fx(1.0) },
    }
}

fn step(dt: f64) -> Logic {
    Logic { delta_time: fx(dt) }
}

#[test]
fn gravity_pulls_the_player_down_and_lifts_balloons() {
    let mut model = bare(config());
    let a = add_balloon(&mut model, 0.0, 1.0, true);
    let b = add_balloon(&mut model, 3.0, 1.0, false);
    step(0.1).apply_gravity(&mut model);
    assert_eq!(model.player.velocity, v(0.0, -1.0));
    assert_eq!(model.balloons.get(&a).unwrap().velocity, v(0.0, 1.0));
    assert_eq!(model.balloons.get(&b).unwrap().velocity, v(0.0, 1.0));
    step(0.1).apply_gravity(&mut model);
    assert_eq!(model.player.velocity, v(0.0, -2.0));
    assert_eq!(model.balloons.get(&a).unwrap().velocity, v(0.0, 2.0));
    assert_eq!(model.player.position, v(0.0, 0.0));
}

#[test]
fn the_score_is_the_whole_part_of_the_height() {
    assert_eq!(score_of(fx(3.7)), 3);
    assert_eq!(score_of(fx(4.0)), 4);
    assert_eq!(score_of(fx(0.999999)), 0);
    assert_eq!(score_of(fx(0.0)), 0);
    assert_eq!(score_of(fx(-2.5)), 0);
    assert_eq!(score_of(Fixed::from_raw(i64::MAX)), 9_223_372_036_854);
}

#[test]
fn the_score_rises_with_the_player_and_never_falls() {
    let mut model = bare(config());
    model.player.position = v(0.0, 3.7);
    step(0.1).update_score(&mut model);
    assert_eq!(model.score, 3);
    model.player.position = v(0.0, 1.2);
    step(0.1).update_score(&mut model);
    assert_eq!(model.score, 3);
    model.player.position = v(0.0, -5.0);
    step(0.1).update_score(&mut model);
    assert_eq!(model.score, 3);
    model.player.position = v(0.0, 12.0);
    step(0.1).update_score(&mut model);
    assert_eq!(model.score, 12);
    assert_eq!(model.high_score, 0);
}

#[test]
fn a_slack_tether_pulls_nothing() {
    let mut model = bare(config());
    let a = add_balloon(&mut model, 0.0, 1.0, true);
    model.player.velocity = v(0.0, -1.0);
    step(0.1).player_balloon(&mut model);
    assert_eq!(model.player.velocity, v(0.0, -1.0));
    assert_eq!(model.balloons.get(&a).unwrap().velocity, v(0.0, 0.0));
    assert_eq!(model.player.balloons, vec![a]);
}

#[test]
fn a_taut_tether_exchanges_momentum_along_the_tether() {
    let mut model = bare(config());
    let a = add_balloon(&mut model, 0.0, 2.0, true);
    model.player.velocity = v(0.0, -1.0);
    let mut b = *model.balloons.get(&a).unwrap();
    b.velocity = v(0.0, 1.0);
    model.balloons.insert(b);
    step(0.1).player_balloon(&mut model);
    assert_eq!(model.player.velocity, v(0.0, -0.375));
    assert_eq!(model.balloons.get(&a).unwrap().velocity, v(0.0, -1.5));
    assert_eq!(model.balloons.get(&a).unwrap().position, v(0.0, 2.0));
    assert_eq!(model.player.balloons, vec![a]);
}

#[test]
fn a_tether_at_exactly_its_length_is_taut() {
    let mut model = bare(config());
    let a = add_balloon(&mut model, 1.5, 0.0, true);
    model.player.velocity = v(-1.0, 0.0);
    step(0.1).player_balloon(&mut model);
    assert_eq!(model.player.velocity, v(-0.5, 0.0));
    assert_eq!(model.balloons.get(&a).unwrap().velocity, v(-2.0, 0.0));
}

#[test]
fn the_list_forgets_balloons_that_are_gone() {
    let mut model = bare(config());
    let gone = model.id_gen.gen();
    model.player.balloons.push(gone);
    let a = add_balloon(&mut model, 0.0, 1.0, true);
    step(0.1).player_balloon(&mut model);
    assert_eq!(model.player.balloons, vec![a]);
    assert_eq!(model.balloons.len(), 1);
}

#[test]
fn later_tethers_see_what_earlier_ones_did_to_the_player() {
    let mut model = bare(config());
    let a = add_balloon(&mut model, 0.0, 2.0, true);
    let b = add_balloon(&mut model, 0.0, -2.0, true);
    model.player.velocity = v(0.0, -1.0);
    step(0.1).player_balloon(&mut model);
    // first tether: player 2 * -1, balloon at rest: impulse (0, 1) -> player -0.5, balloon -2
    assert_eq!(model.balloons.get(&a).unwrap().velocity, v(0.0, -2.0));
    // second tether, along (0, -1), starts from the player's new velocity -0.5
    assert_eq!(model.balloons.get(&b).unwrap().velocity, v(0.0, -1.0));
    assert_eq!(model.player.velocity, v(0.0, -0.25));
}

#[test]
fn the_periodic_pop_removes_the_picked_balloon() {
    let mut model = bare(config());
    let a = add_balloon(&mut model, 0.0, 1.0, true);
    let b = add_balloon(&mut model, 0.5, 1.0, true);
    let c = add_balloon(&mut model, 1.0, 1.0, true);
    model.next_pop = fx(0.05);
    step(0.1).pop_at(&mut model, 1);
    assert_eq!(model.player.balloons, vec![a, c]);
    assert_eq!(model.balloons.ids(), vec![a, c]);
    assert_eq!(model.balloons.get(&b), None);
    assert_eq!(model.events, vec![Event::Pop { position: v(0.5, 1.0) }]);
    assert_eq!(model.next_pop, fx(10.0));
}

#[test]
fn the_pick_counts_round_the_list() {
    let mut model = bare(config());
    let a = add_balloon(&mut model, 0.0, 1.0, true);
    let b = add_balloon(&mut model, 0.5, 1.0, true);
    let c = add_balloon(&mut model, 1.0, 1.0, true);
    model.next_pop = fx(-3.0);
    step(0.1).pop_at(&mut model, 5);
    assert_eq!(model.player.balloons, vec![a, b]);
    assert_eq!(model.balloons.get(&c), None);
}

#[test]
fn the_pop_countdown_only_counts_while_it_is_not_negative() {
    let mut model = bare(config());
    let a = add_balloon(&mut model, 0.0, 1.0, true);
    model.next_pop = fx(1.0);
    step(0.1).pop_at(&mut model, 0);
    assert_eq!(model.next_pop, fx(0.9));
    assert_eq!(model.player.balloons, vec![a]);
    assert!(model.events.is_empty());
    model.next_pop = fx(0.1);
    step(0.1).pop_at(&mut model, 0);
    assert_eq!(model.next_pop, fx(0.0));
    assert_eq!(model.balloons.len(), 1);
}

#[test]
fn a_pop_with_no_balloon_attached_only_restarts_the_countdown() {
    let mut model = bare(config());
    let free = add_balloon(&mut model, 0.0, 1.0, false);
    model.next_pop = fx(0.0);
    step(0.1).pop_at(&mut model, 7);
    assert_eq!(model.next_pop, fx(10.0));
    assert_eq!(model.balloons.ids(), vec![free]);
    assert!(model.events.is_empty());
}

#[test]
fn a_listed_balloon_that_is_gone_pops_silently() {
    let mut model = bare(config());
    let gone = model.id_gen.gen();
    model.player.balloons.push(gone);
    model.next_pop = fx(0.0);
    step(0.1).pop_at(&mut model, 0);
    assert!(model.player.balloons.is_empty());
    assert!(model.events.is_empty());
}

#[test]
fn the_ground_stops_a_falling_player() {
    let mut model = bare(config());
    model.player.position = v(2.0, -1.0);
    model.player.velocity = v(1.0, -5.0);
    step(0.1).ground(&mut model);
    assert_eq!(model.player.position, v(2.0, 0.0));
    assert_eq!(model.player.velocity, v(0.0, 0.0));
    assert_eq!(model.events, vec![Event::Splash]);
}

#[test]
fn a_soft_landing_makes_no_splash() {
    let mut model = bare(config());
    model.player.position = v(0.0, -0.1);
    model.player.velocity = v(0.0, -2.0);
    step(0.1).ground(&mut model);
    assert_eq!(model.player.position, v(0.0, 0.0));
    assert_eq!(model.player.velocity, v(0.0, 0.0));
    assert!(model.events.is_empty());
}

#[test]
fn a_player_on_or_above_the_ground_is_left_alone() {
    let mut model = bare(config());
    model.player.position = v(0.0, 0.0);
    model.player.velocity = v(0.0, -5.0);
    step(0.1).ground(&mut model);
    assert_eq!(model.player.velocity, v(0.0, -5.0));
    assert!(model.events.is_empty());
}

#[test]
fn the_first_overlapping_obstacle_is_found() {
    let mut model = bare(config());
    add_obstacle(&mut model, 5.0, 0.0, ObstacleType::Plane);
    add_obstacle(&mut model, 0.5, 0.0, ObstacleType::Helicopter1);
    add_obstacle(&mut model, 0.0, 0.5, ObstacleType::Plane);
    assert_eq!(step(0.1).find_hit(&model), Some(1));
    model.player.position = v(-3.0, 0.0);
    assert_eq!(step(0.1).find_hit(&model), None);
}

#[test]
fn an_obstacle_that_only_touches_does_not_hit() {
    let mut model = bare(config());
    add_obstacle(&mut model, 0.8, 0.0, ObstacleType::Plane);
    assert_eq!(step(0.1).find_hit(&model), None);
    model.player.position = v(0.000001, 0.0);
    assert_eq!(step(0.1).find_hit(&model), Some(0));
}

#[test]
fn an_obstacle_kills_the_player_and_frees_its_balloons() {
    let mut model = bare(config());
    let a = add_balloon(&mut model, 0.0, 1.0, true);
    let b = add_balloon(&mut model, 0.5, 1.0, true);
    let free = add_balloon(&mut model, 5.0, 1.0, false);
    add_obstacle(&mut model, 0.5, 0.0, ObstacleType::Plane);
    model.player.velocity = v(0.5, 1.0);
    step(0.1).touch(&mut model);
    assert!(!model.player.alive);
    assert!(model.player.balloons.is_empty());
    assert!(!model.balloons.get(&a).unwrap().attached_to_player);
    assert!(!model.balloons.get(&b).unwrap().attached_to_player);
    assert!(!model.balloons.get(&free).unwrap().attached_to_player);
    assert_eq!(model.balloons.len(), 3);
    assert_eq!(model.player.velocity, v(-1.5, 1.0));
    assert_eq!(model.events, vec![Event::Hit]);
}

#[test]
fn only_the_first_obstacle_hands_over_its_velocity() {
    let mut model = bare(config());
    let first = add_obstacle(&mut model, 0.5, 0.0, ObstacleType::Plane);
    add_obstacle(&mut model, -0.5, 0.0, ObstacleType::Plane);
    let mut o = *model.obstacles.get(&first).unwrap();
    o.velocity = v(7.0, 0.0);
    model.obstacles.insert(o);
    step(0.1).touch(&mut model);
    assert_eq!(model.player.velocity, v(7.0, 0.0));
    assert_eq!(model.events, vec![Event::Hit]);
}

#[test]
fn killing_cuts_loose_what_the_list_names() {
    let mut model = bare(config());
    let a = add_balloon(&mut model, 0.0, 1.0, true);
    let gone = model.id_gen.gen();
    model.player.balloons.push(gone);
    step(0.1).kill_player(&mut model);
    assert!(!model.player.alive);
    assert!(model.player.balloons.is_empty());
    assert!(!model.balloons.get(&a).unwrap().attached_to_player);
    assert_eq!(model.balloons.len(), 1);
}

#[test]
fn a_live_player_catches_the_free_balloons_it_overlaps() {
    let mut model = bare(config());
    let near = add_balloon(&mut model, 0.4, 0.0, false);
    let far = add_balloon(&mut model, 2.0, 0.0, false);
    let tied = add_balloon(&mut model, 0.1, 0.0, true);
    let also = add_balloon(&mut model, 0.0, -0.3, false);
    step(0.1).touch(&mut model);
    assert!(model.player.alive);
    assert!(model.balloons.get(&near).unwrap().attached_to_player);
    assert!(!model.balloons.get(&far).unwrap().attached_to_player);
    assert!(model.balloons.get(&also).unwrap().attached_to_player);
    assert_eq!(model.player.balloons, vec![tied, near, also]);
    assert_eq!(model.events, vec![Event::Attach, Event::Attach]);
}

#[test]
fn a_dead_player_touches_nothing() {
    let mut model = bare(config());
    let near = add_balloon(&mut model, 0.4, 0.0, false);
    add_obstacle(&mut model, 0.5, 0.0, ObstacleType::Plane);
    model.player.alive = false;
    step(0.1).touch(&mut model);
    assert!(!model.balloons.get(&near).unwrap().attached_to_player);
    assert!(model.player.balloons.is_empty());
    assert_eq!(model.player.velocity, v(0.0, 0.0));
    assert!(model.events.is_empty());
}

#[test]
fn a_killed_player_catches_nothing_in_the_same_step() {
    let mut model = bare(config());
    let near = add_balloon(&mut model, 0.4, 0.0, false);
    add_obstacle(&mut model, 0.5, 0.0, ObstacleType::Plane);
    step(0.1).touch(&mut model);
    assert!(!model.player.alive);
    assert!(!model.balloons.get(&near).unwrap().attached_to_player);
    assert!(model.player.balloons.is_empty());
}

#[test]
fn overlapping_balloons_part_and_a_free_one_joins_an_attached_one() {
    let mut model = bare(config());
    let a = add_balloon(&mut model, 0.0, 5.0, true);
    let b = add_balloon(&mut model, 0.4, 5.0, false);
    step(0.1).balloon_pairs(&mut model);
    assert_eq!(model.balloons.get(&a).unwrap().position, v(-0.05, 5.0));
    assert_eq!(model.balloons.get(&b).unwrap().position, v(0.45, 5.0));
    assert!(model.balloons.get(&b).unwrap().attached_to_player);
    assert_eq!(model.player.balloons, vec![a, b]);
    assert_eq!(model.events, vec![Event::Attach]);
}

#[test]
fn attachment_spreads_along_a_chain_of_balloons() {
    let mut model = bare(config());
    let a = add_balloon(&mut model, 0.0, 5.0, true);
    let b = add_balloon(&mut model, 0.4, 5.0, false);
    let c = add_balloon(&mut model, 0.8, 5.0, false);
    step(0.1).balloon_pairs(&mut model);
    assert_eq!(model.player.balloons, vec![a, b, c]);
    assert!(model.balloons.get(&c).unwrap().attached_to_player);
    assert_eq!(model.balloons.get(&a).unwrap().position, v(-0.05, 5.0));
    assert_eq!(model.balloons.get(&b).unwrap().position, v(0.375, 5.0));
    assert_eq!(model.balloons.get(&c).unwrap().position, v(0.875, 5.0));
    assert_eq!(model.events, vec![Event::Attach, Event::Attach]);
}

#[test]
fn two_free_balloons_part_without_attaching() {
    let mut model = bare(config());
    let a = add_balloon(&mut model, 0.0, 5.0, false);
    let b = add_balloon(&mut model, 0.0, 5.3, false);
    let mut moving = *model.balloons.get(&a).unwrap();
    moving.velocity = v(0.0, 1.0);
    model.balloons.insert(moving);
    step(0.1).balloon_pairs(&mut model);
    assert_eq!(model.balloons.get(&a).unwrap().position, v(0.0, 4.9));
    assert_eq!(model.balloons.get(&b).unwrap().position, v(0.0, 5.4));
    assert_eq!(model.balloons.get(&a).unwrap().velocity, v(0.0, 0.5));
    assert_eq!(model.balloons.get(&b).unwrap().velocity, v(0.0, 0.5));
    assert!(model.player.balloons.is_empty());
    assert!(model.events.is_empty());
}

#[test]
fn balloons_apart_are_left_alone() {
    let mut model = bare(config());
    let a = add_balloon(&mut model, 0.0, 5.0, true);
    let b = add_balloon(&mut model, 0.5, 5.0, false);
    step(0.1).balloon_pairs(&mut model);
    assert_eq!(model.balloons.get(&a).unwrap().position, v(0.0, 5.0));
    assert_eq!(model.balloons.get(&b).unwrap().position, v(0.5, 5.0));
    assert!(!model.balloons.get(&b).unwrap().attached_to_player);
    assert_eq!(model.player.balloons, vec![a]);
}

#[test]
fn an_obstacle_pops_the_balloons_it_overlaps() {
    let mut model = bare(config());
    let a = add_balloon(&mut model, 0.0, 5.0, true);
    let b = add_balloon(&mut model, 3.0, 5.0, true);
    let c = add_balloon(&mut model, 3.5, 5.5, false);
    add_obstacle(&mut model, 3.2, 5.2, ObstacleType::Plane);
    add_obstacle(&mut model, 3.0, 5.0, ObstacleType::Helicopter2);
    let struck = *model.balloons.get(&b).unwrap();
    assert!(step(0.1).is_struck(&model, &struck));
    let spared = *model.balloons.get(&a).unwrap();
    assert!(!step(0.1).is_struck(&model, &spared));
    step(0.1).burst(&mut model);
    assert_eq!(model.balloons.ids(), vec![a]);
    assert_eq!(model.player.balloons, vec![a]);
    assert_eq!(model.balloons.get(&b), None);
    assert_eq!(model.balloons.get(&c), None);
    assert_eq!(
        model.events,
        vec![Event::Pop { position: v(3.0, 5.0) }, Event::Pop { position: v(3.5, 5.5) }]
    );
    assert!(!model.balloons.at(0).popped);
}

#[test]
fn a_balloon_marked_before_the_step_leaves_without_a_sound() {
    let mut model = bare(config());
    let a = add_balloon(&mut model, 0.0, 5.0, true);
    let mut marked = *model.balloons.get(&a).unwrap();
    marked.popped = true;
    model.balloons.insert(marked);
    step(0.1).burst(&mut model);
    assert!(model.balloons.is_empty());
    assert!(model.player.balloons.is_empty());
    assert!(model.events.is_empty());
}

#[test]
fn the_collision_step_does_all_four_in_order() {
    let mut model = bare(config());
    model.player.position = v(0.0, -0.5);
    model.player.velocity = v(0.0, -9.0);
    let near = add_balloon(&mut model, 0.4, 0.0, false);
    let next = add_balloon(&mut model, 0.8, 0.0, false);
    step(0.1).collisions(&mut model);
    // on the ground the player overlaps `near`, which then takes `next` along
    assert_eq!(model.player.position, v(0.0, 0.0));
    assert_eq!(model.player.velocity, v(0.0, 0.0));
    assert_eq!(model.player.balloons, vec![near, next]);
    assert_eq!(model.events, vec![Event::Splash, Event::Attach, Event::Attach]);
}

#[test]
fn movement_applies_drag_and_then_moves() {
    let mut model = bare(config());
    model.player.velocity = v(1.0, 0.0);
    step(0.5).movement(&mut model);
    assert_eq!(model.player.velocity, v(0.99, 0.0));
    assert_eq!(model.player.position, v(0.495, 0.0));
}

#[test]
fn the_steered_velocity_moves_the_player_without_drag() {
    let mut model = bare(config());
    model.player_control_velocity = v(2.0, -1.0);
    step(0.5).movement(&mut model);
    assert_eq!(model.player.velocity, v(0.0, 0.0));
    assert_eq!(model.player.position, v(1.0, -0.5));
}

#[test]
fn the_player_stays_in_the_arena() {
    let mut model = bare(config());
    model.player.position = v(7.9, 1.0);
    model.player.velocity = v(1.0, 0.0);
    step(0.5).movement(&mut model);
    assert_eq!(model.player.position, v(8.0, 1.0));
    model.player.position = v(-7.9, 1.0);
    model.player.velocity = v(-1.0, 0.0);
    step(0.5).movement(&mut model);
    assert_eq!(model.player.position, v(-8.0, 1.0));
}

#[test]
fn an_attached_balloon_is_pulled_back_to_its_tether() {
    let mut model = bare(config());
    let a = add_balloon(&mut model, 3.0, 4.0, true);
    let b = add_balloon(&mut model, -3.0, 4.0, false);
    let c = add_balloon(&mut model, 0.3, 0.4, true);
    step(0.5).movement(&mut model);
    assert_eq!(model.balloons.get(&a).unwrap().position, v(0.9, 1.2));
    assert_eq!(model.balloons.get(&b).unwrap().position, v(-3.0, 4.0));
    assert_eq!(model.balloons.get(&c).unwrap().position, v(0.3, 0.4));
    assert_eq!(model.balloons.get(&a).unwrap().drag, fx(0.05));
    assert_eq!(model.balloons.get(&b).unwrap().drag, fx(0.1));
    assert_eq!(tether(v(3.0, 4.0), v(0.0, 0.0), fx(1.5)), v(0.9, 1.2));
    assert_eq!(tether(v(4.0, 5.0), v(1.0, 1.0), fx(2.5)), v(2.5, 3.0));
    assert_eq!(tether(v(4.0, 5.0), v(1.0, 1.0), fx(-1.0)), v(1.0, 1.0));
}

#[test]
fn the_tether_follows_the_moved_player() {
    let mut model = bare(config());
    model.player_control_velocity = v(4.0, 0.0);
    let a = add_balloon(&mut model, 0.0, 1.5, true);
    step(0.5).movement(&mut model);
    assert_eq!(model.player.position, v(2.0, 0.0));
    // from (2, 0) the balloon at (0, 1.5) is 2.5 away: pulled to 1.5 along (-0.8, 0.6)
    assert_eq!(model.balloons.get(&a).unwrap().position, v(0.8, 0.9));
}

#[test]
fn balloons_drag_by_their_own_coefficient() {
    let mut model = bare(config());
    let a = add_balloon(&mut model, 0.0, 1.0, true);
    let b = add_balloon(&mut model, 5.0, 1.0, false);
    for id in [a, b] {
        let mut moving = *model.balloons.get(&id).unwrap();
        moving.velocity = v(0.0, 2.0);
        model.balloons.insert(moving);
    }
    step(0.1).movement(&mut model);
    // attached: 1 - 4 * 0.05 * 0.1 = 0.98; free: 1 - 4 * 0.1 * 0.1 = 0.96
    assert_eq!(model.balloons.get(&a).unwrap().velocity, v(0.0, 1.96));
    assert_eq!(model.balloons.get(&b).unwrap().velocity, v(0.0, 1.92));
    assert_eq!(model.balloons.get(&a).unwrap().position, v(0.0, 1.196));
    assert_eq!(model.balloons.get(&b).unwrap().position, v(5.0, 1.192));
}

#[test]
fn obstacles_and_clouds_move_at_their_velocity() {
    let mut model = bare(config());
    let o = add_obstacle(&mut model, 5.0, 3.0, ObstacleType::Plane);
    let id = model.id_gen.gen();
    model.clouds.insert(balloon_sim::model::Cloud {
        id,
        cloud_type: CloudType::Cloud1,
        position: v(-4.0, 6.0),
        velocity: v(1.0, 0.5),
        radius: fx(0.5),
    });
    step(0.5).movement(&mut model);
    assert_eq!(model.obstacles.get(&o).unwrap().position, v(4.0, 3.0));
    assert_eq!(model.clouds.get(&id).unwrap().position, v(-3.5, 6.25));
}

#[test]
fn an_obstacle_spawns_from_its_draw() {
    let mut model = bare(config());
    model.player.position = v(0.0, 10.0);
    model.player.velocity = v(0.0, 2.0);
    model.next_obstacle = fx(0.05);
    let next = model.id_gen;
    let draw = SpawnDraw { offset: fx(3.0), right: true, speed: fx(2.0), kind: 1, delay: fx(1.5) };
    step(0.1).spawn_obstacle(&mut model, &draw);
    assert_eq!(model.obstacles.len(), 1);
    let o = *model.obstacles.at(0);
    let mut ids = next;
    assert_eq!(o.id, ids.gen());
    assert_eq!(o.position, v(10.5, 15.0));
    assert_eq!(o.velocity, v(-2.0, 0.0));
    assert_eq!(o.radius, fx(0.5));
    assert_eq!(o.obstacle_type, ObstacleType::Helicopter1);
    assert_eq!(o.animation_speed, fx(5.0));
    assert_eq!(o.animation_time, fx(0.0));
    assert_eq!(model.next_obstacle, fx(1.45));
    assert_eq!(model.id_gen.remaining(), u64::MAX - 1);
}

#[test]
fn an_obstacle_from_the_left_flies_right() {
    let mut model = bare(config());
    model.player.position = v(0.0, 10.0);
    model.next_obstacle = fx(0.0);
    let draw =
        SpawnDraw { offset: fx(-2.0), right: false, speed: fx(3.0), kind: 3, delay: fx(1.0) };
    step(0.1).spawn_obstacle(&mut model, &draw);
    let o = *model.obstacles.at(0);
    assert_eq!(o.position, v(-10.5, 8.0));
    assert_eq!(o.velocity, v(3.0, 0.0));
    assert_eq!(o.obstacle_type, ObstacleType::Plane);
    assert_eq!(o.animation_speed, fx(1.0));
    assert_eq!(model.next_obstacle, fx(0.9));
}

#[test]
fn the_third_kind_of_obstacle() {
    let mut model = bare(config());
    model.player.position = v(0.0, 10.0);
    model.next_obstacle = fx(0.0);
    let draw = SpawnDraw { offset: fx(0.0), right: false, speed: fx(3.0), kind: 2, delay: fx(1.0) };
    step(0.1).spawn_obstacle(&mut model, &draw);
    assert_eq!(model.obstacles.at(0).obstacle_type, ObstacleType::Helicopter2);
    assert_eq!(model.obstacles.at(0).animation_speed, fx(5.0));
}

#[test]
fn a_spawn_too_low_is_skipped_but_the_countdown_is_armed_again() {
    let mut model = bare(config());
    model.player.position = v(0.0, 1.0);
    model.next_obstacle = fx(-0.4);
    let draw = SpawnDraw { offset: fx(4.0), right: true, speed: fx(2.0), kind: 0, delay: fx(2.0) };
    step(0.1).spawn_obstacle(&mut model, &draw);
    // height 1 + 0 + 4 = 5 is not above the least height 5
    assert!(model.obstacles.is_empty());
    assert_eq!(model.next_obstacle, fx(1.5));
    assert_eq!(model.id_gen.remaining(), u64::MAX);
}

#[test]
fn a_countdown_that_has_not_run_out_only_counts_down() {
    let mut model = bare(config());
    model.player.position = v(0.0, 10.0);
    model.next_obstacle = fx(0.5);
    model.next_balloon = fx(0.1);
    let draws = idle_draws();
    step(0.1).spawn_obstacle(&mut model, &draws.obstacle);
    assert_eq!(model.next_obstacle, fx(0.4));
    step(0.1).spawn_balloon(&mut model, &draws.balloon);
    assert_eq!(model.next_balloon, fx(0.0));
    assert!(model.obstacles.is_empty());
    assert!(model.balloons.is_empty());
}

#[test]
fn clouds_count_on_the_obstacle_countdown() {
    let mut model = bare(config());
    model.player.position = v(0.0, 10.0);
    model.next_obstacle = fx(0.05);
    model.next_cloud = fx(0.0);
    let draw = SpawnDraw { offset: fx(1.0), right: false, speed: fx(1.5), kind: 2, delay: fx(2.0) };
    step(0.1).spawn_cloud(&mut model, &draw);
    assert_eq!(model.clouds.len(), 1);
    let c = *model.clouds.at(0);
    assert_eq!(c.cloud_type, CloudType::Cloud2);
    assert_eq!(c.position, v(-10.5, 11.0));
    assert_eq!(c.velocity, v(1.5, 0.0));
    assert_eq!(c.radius, fx(0.5));
    assert_eq!(model.next_obstacle, fx(1.95));
    assert_eq!(model.next_cloud, fx(0.0));
    assert!(model.obstacles.is_empty());
}

#[test]
fn a_balloon_spawns_below_the_player() {
    let mut model = bare(config());
    model.player.position = v(1.0, 10.0);
    model.next_balloon = fx(0.0);
    let draw = BalloonDraw { across: fx(0.5), color: 4, delay: fx(1.25) };
    step(0.1).spawn_balloon(&mut model, &draw);
    assert_eq!(model.balloons.len(), 1);
    let b = *model.balloons.at(0);
    assert_eq!(b.position, v(3.0, 6.0));
    assert_eq!(b.velocity, v(0.0, 0.0));
    assert_eq!(b.mass, fx(0.5));
    assert_eq!(b.radius, fx(0.25));
    assert_eq!(b.length, fx(1.5));
    assert_eq!(b.drag, fx(0.1));
    assert_eq!(b.color, Color { r: 0, g: 255, b: 0, a: 255 });
    assert!(!b.attached_to_player);
    assert!(!b.popped);
    assert!(model.player.balloons.is_empty());
    assert_eq!(model.next_balloon, fx(1.15));
}

#[test]
fn a_balloon_too_low_is_skipped_but_the_countdown_is_armed_again() {
    let mut model = bare(config());
    model.player.position = v(0.0, 7.0);
    model.next_balloon = fx(-1.0);
    let draw = BalloonDraw { across: fx(-1.0), color: 0, delay: fx(0.5) };
    step(0.1).spawn_balloon(&mut model, &draw);
    assert!(model.balloons.is_empty());
    assert_eq!(model.next_balloon, fx(-0.6));
}

#[test]
fn the_three_spawners_run_one_after_the_other() {
    let mut model = bare(config());
    model.player.position = v(0.0, 10.0);
    model.next_obstacle = fx(0.0);
    model.next_balloon = fx(0.0);
    let mut draws = idle_draws();
    draws.obstacle.delay = fx(0.05);
    draws.cloud.delay = fx(3.0);
    step(0.1).generation_with(&mut model, &draws);
    // obstacles: -0.1 + 0.05 = -0.05; clouds: -0.15 + 3
    assert_eq!(model.obstacles.len(), 1);
    assert_eq!(model.clouds.len(), 1);
    assert_eq!(model.balloons.len(), 1);
    assert_eq!(model.next_obstacle, fx(2.85));
    assert_eq!(model.next_balloon, fx(0.9));
    assert_eq!(model.obstacles.at(0).id.raw(), 0);
    assert_eq!(model.clouds.at(0).id.raw(), 1);
    assert_eq!(model.balloons.at(0).id.raw(), 2);
}

#[test]
fn animation_phases_wrap_at_one() {
    assert_eq!(advance_phase(fx(0.95), fx(1.0), fx(0.1)), fx(0.05));
    assert_eq!(advance_phase(fx(0.2), fx(5.0), fx(0.1)), fx(0.7));
    assert_eq!(advance_phase(fx(0.9), fx(1.0), fx(0.1)), fx(0.0));
    assert_eq!(advance_phase(fx(0.5), fx(5.0), fx(0.5)), fx(2.0));
    let mut model = bare(config());
    model.player.animation_time = fx(0.95);
    let o = add_obstacle(&mut model, 5.0, 5.0, ObstacleType::Plane);
    step(0.1).animations(&mut model);
    assert_eq!(model.player.animation_time, fx(0.05));
    assert_eq!(model.obstacles.get(&o).unwrap().animation_time, fx(0.5));
}

#[test]
fn the_wind_grows_with_the_root_of_the_height() {
    let mut model = bare(config());
    model.player.position = v(0.0, 5.0);
    step(0.1).sounds(&mut model);
    assert_eq!(model.wind_volume, fx(0.25));
    model.player.position = v(0.0, 80.0);
    step(0.1).sounds(&mut model);
    assert_eq!(model.wind_volume, fx(0.5));
    model.player.position = v(0.0, -3.0);
    step(0.1).sounds(&mut model);
    assert_eq!(model.wind_volume, fx(0.0));
    assert_eq!(model.helicopter_volume, fx(0.0));
}

#[test]
fn sounds_fall_off_with_the_square_of_the_distance() {
    let model = bare(config());
    assert_eq!(model.sound_volume(v(0.0, 0.0)), fx(0.5));
    assert_eq!(model.sound_volume(v(5.0, 0.0)), fx(0.375));
    assert_eq!(model.sound_volume(v(3.0, 4.0)), fx(0.375));
    assert_eq!(model.sound_volume(v(10.0, 0.0)), fx(0.0));
    assert_eq!(model.sound_volume(v(0.0, -50.0)), fx(0.0));
}

#[test]
fn the_loudest_helicopter_is_heard() {
    let mut model = bare(config());
    add_obstacle(&mut model, 0.0, 1.0, ObstacleType::Plane);
    step(0.1).sounds(&mut model);
    assert_eq!(model.helicopter_volume, fx(0.0));
    add_obstacle(&mut model, 8.0, 0.0, ObstacleType::Helicopter1);
    add_obstacle(&mut model, 0.0, 5.0, ObstacleType::Helicopter2);
    add_obstacle(&mut model, 20.0, 0.0, ObstacleType::Helicopter1);
    step(0.1).sounds(&mut model);
    assert_eq!(model.helicopter_volume, fx(0.375));
}

#[test]
fn a_random_pop_picks_one_of_the_listed_balloons() {
    let mut rng = StdRng::seed_from_u64(3);
    let mut seen = [false; 3];
    for _ in 0..60 {
        let mut model = bare(config());
        let ids = [
            add_balloon(&mut model, 0.0, 1.0, true),
            add_balloon(&mut model, 0.5, 1.0, true),
            add_balloon(&mut model, 1.0, 1.0, true),
        ];
        model.next_pop = fx(0.0);
        let pick = step(0.1).pop(&mut model, &mut rng);
        assert!(pick < 3);
        seen[pick] = true;
        assert_eq!(model.balloons.get(&ids[pick]), None);
        assert!(!model.player.balloons.contains(&ids[pick]));
        assert_eq!(model.balloons.len(), 2);
        assert_eq!(model.player.balloons.len(), 2);
        assert_eq!(model.next_pop, fx(10.0));
    }
    assert_eq!(seen, [true, true, true]);
}

#[test]
fn a_random_pop_draws_nothing_before_its_time() {
    let mut rng = StdRng::seed_from_u64(3);
    let mut model = bare(config());
    let a = add_balloon(&mut model, 0.0, 1.0, true);
    model.next_pop = fx(5.0);
    assert_eq!(step(0.1).pop(&mut model, &mut rng), 0);
    assert_eq!(model.player.balloons, vec![a]);
    assert_eq!(model.next_pop, fx(4.9));
}

#[test]
fn spawns_are_drawn_within_the_tunables() {
    let mut rng = StdRng::seed_from_u64(12);
    let c = spawn_config();
    let mut kinds = [0usize; 3];
    let mut sides = [0usize; 2];
    for _ in 0..300 {
        let d = draw_spawn(&mut rng, &c);
        assert!(fx(-2.0).raw <= d.offset.raw && d.offset.raw <= fx(12.0).raw);
        assert!(fx(1.0).raw <= d.speed.raw && d.speed.raw <= fx(3.0).raw);
        assert!(fx(1.0).raw <= d.delay.raw && d.delay.raw <= fx(2.0).raw);
        kinds[d.kind] += 1;
        sides[d.right as usize] += 1;
    }
    assert!(kinds.iter().all(|n| *n > 50));
    assert!(sides.iter().all(|n| *n > 100));
    let idle = idle_spawn(&c);
    assert_eq!(idle.offset, fx(12.0));
    assert_eq!(idle.speed, fx(1.0));
    assert_eq!(idle.delay, fx(1.0));
    assert_eq!(idle.kind, 0);
}

#[test]
fn balloons_are_drawn_within_the_tunables() {
    let mut rng = StdRng::seed_from_u64(13);
    let c = config().balloons;
    let mut colours = [0usize; 4];
    for _ in 0..400 {
        let d = draw_balloon(&mut rng, &c, 4);
        assert!(fx(-1.0).raw <= d.across.raw && d.across.raw <= fx(1.0).raw);
        assert!(fx(0.5).raw <= d.delay.raw && d.delay.raw <= fx(1.5).raw);
        colours[d.color] += 1;
    }
    assert!(colours.iter().all(|n| *n > 50));
    let idle = idle_balloon(&c, 4);
    assert_eq!(idle.across, fx(0.0));
    assert_eq!(idle.color, 0);
    assert_eq!(idle.delay, fx(0.5));
}

#[test]
fn the_spawners_draw_only_what_is_due() {
    let mut rng = StdRng::seed_from_u64(14);
    let mut model = bare(config());
    model.player.position = v(0.0, 10.0);
    let quiet = step(0.1).generation(&mut model, &mut rng);
    assert_eq!(quiet.obstacle, idle_spawn(&spawn_config()));
    assert_eq!(quiet.cloud, idle_spawn(&spawn_config()));
    assert_eq!(quiet.balloon, idle_balloon(&config().balloons, 3));
    assert_eq!(model.next_obstacle, fx(999.8));
    assert_eq!(model.next_balloon, fx(999.9));
    assert!(model.obstacles.is_empty());
    model.next_obstacle = fx(0.0);
    model.next_balloon = fx(0.0);
    let drawn = step(0.1).generation(&mut model, &mut rng);
    assert_eq!(model.balloons.len(), 1);
    assert_eq!(model.next_balloon, fx(-0.1).add(drawn.balloon.delay));
    assert!(model.next_balloon.raw > 0);
    // the obstacle's delay of at least one second leaves the shared countdown
    // positive, so no cloud is due in the same frame
    assert_eq!(model.obstacles.len(), 1);
    assert!(model.clouds.is_empty());
    assert_eq!(model.next_obstacle, fx(-0.1).add(drawn.obstacle.delay).sub(fx(0.1)));
    let o = *model.obstacles.at(0);
    assert_eq!(o.position.y, fx(10.0).add(drawn.obstacle.offset));
    assert_eq!(o.velocity, velocity_for(drawn.obstacle.right, drawn.obstacle.speed));
}

#[test]
fn the_geometry_of_a_spawn() {
    assert_eq!(sign_of(true), fx(1.0));
    assert_eq!(sign_of(false), fx(-1.0));
    let c = spawn_config();
    assert_eq!(position_for(&c, true, fx(7.0)), v(10.5, 7.0));
    assert_eq!(position_for(&c, false, fx(7.0)), v(-10.5, 7.0));
    assert_eq!(velocity_for(true, fx(2.5)), v(-2.5, 0.0));
    assert_eq!(velocity_for(false, fx(2.5)), v(2.5, 0.0));
    let mut model = bare(config());
    model.player.position = v(0.0, 4.0);
    model.player.velocity = v(3.0, -2.0);
    assert_eq!(height_for(&model.player, &c, fx(1.5)), fx(3.5));
}

#[test]
fn catching_leaves_attached_and_distant_balloons_alone() {
    let mut model = bare(config());
    let tied = add_balloon(&mut model, 0.0, 0.2, true);
    let far = add_balloon(&mut model, 0.0, 0.56, false);
    let near = add_balloon(&mut model, 0.0, 0.54, false);
    step(0.1).catch_balloons(&mut model);
    assert_eq!(model.player.balloons, vec![tied, near]);
    assert!(!model.balloons.get(&far).unwrap().attached_to_player);
    assert!(model.balloons.get(&near).unwrap().attached_to_player);
    assert_eq!(model.events, vec![Event::Attach]);
}
