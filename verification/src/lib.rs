//! Fixed-point steering kinematics: agents that turn toward a target at a bounded
//! rate and gather speed along their heading.
//!
//! Every quantity is an integer counted in millionths: lengths in millionths of a
//! world unit, angles in microradians, time in microseconds. An orientation is an
//! angle, counter-clockwise positive; which way an agent of orientation zero faces
//! is for the caller to say, who hands in the forward axis that belongs to an
//! orientation. The right axis is the forward axis a quarter turn clockwise.
//!
//! The trigonometry that links an orientation to its forward axis, and a cosine to
//! its angle, is the caller's. The controllers take it as two functions:
//!
//! - [`rotate_to_cursor`], the heading controller, looks from the agent along its
//!   forward axis for the target, turns the agent toward it and decides whether it
//!   is aligned;
//! - [`update_movement`], the speed controller, sets the speed and moves the agent
//!   along its forward axis;
//! - [`tick`] runs the two in that order.
//!
//! The rules they apply stand on their own, for a caller that has the values
//! already: [`sight`] yields the cosine of the angle to the target and the side
//! the target is on, [`steer`] turns the agent for a given angle, [`advance`]
//! moves it along a given axis. What holds of the rules on every input is proved
//! in [`laws`].

pub mod fixed;
pub mod geometry;
pub mod agent;
pub mod controller;
pub mod laws;

pub use agent::advance;
pub use agent::steer;
pub use agent::Agent;
pub use controller::rotate_to_cursor;
pub use controller::tick;
pub use controller::update_movement;
pub use controller::Frame;
pub use controller::Look;
pub use agent::ALIGN_TOLERANCE;
pub use fixed::SCALE;
pub use geometry::aim;
pub use geometry::sight;
pub use geometry::sight_along;
pub use geometry::Direction;
pub use geometry::Sighting;
pub use geometry::Vec2;
pub use geometry::COINCIDENT_SQ;
pub use geometry::WORLD_LIMIT;
