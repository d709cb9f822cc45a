//! A frame-stepped simulation of a balloon flight: a player rises on
//! tethered balloons, dodges obstacles, loses balloons to them and to time,
//! and catches new ones.
//!
//! The choices that shape the library:
//!
//! * Numbers are decimal fixed-point ([`fixed::Fixed`], millionths in an
//!   `i64`). Every operation is total, rounds toward zero and clamps to the
//!   representable range, so a step has one exact result on every machine.
//! * Each step of a frame is stated twice: as a function of the world's
//!   mathematical view in [`frame`], and as code in [`logic`], [`spawner`]
//!   and [`update`] that is proved to compute that function.
//! * Drag is quadratic: a velocity is multiplied by one minus its squared
//!   length times the drag coefficient times the elapsed time.
//! * Contacts between balloons are tested once for each pair, in the order
//!   of the collection.
//! * Clouds count down on the same countdown as obstacles.
//! * Randomness comes from a seedable generator that the caller hands in
//!   ([`random`]), and every frame can also be run on given draws.
//! * What a listener may want to play a sound for is left in the world's
//!   list of events, which each frame starts afresh.
//!
//! The laws that the steps obey are proved in [`physics`], [`laws`] and
//! [`shape`].

pub mod collection;
pub mod config;
pub mod fixed;
pub mod frame;
pub mod id;
pub mod laws;
pub mod logic;
pub mod model;
pub mod physics;
pub mod random;
pub mod setup;
pub mod shape;
pub mod spawner;
pub mod update;
pub mod vec2;
