//! Core of an interactive 2D card-hand widget: screen-to-world coordinate
//! mapping, axis-aligned hit-testing, exclusive hover arbitration, the drag
//! lifecycle, click-to-play resolution against a shared numeric target, and
//! the fan layout that positions every card from its index in the hand.
//!
//! All coordinates are fixed-point integers in tenths of a world unit, so
//! every geometric rule is exact. The expression evaluator that a played
//! card's formula is fed to is an outside collaborator reached through the
//! [`runtime`] module; the [`sim`] module ties the stages into the per-tick
//! pipeline.

pub mod cards;
pub mod drag;
pub mod geometry;
pub mod hover;
pub mod layout;
pub mod mapper;
pub mod numtext;
pub mod play;
pub mod runtime;
pub mod sim;
pub mod target;

pub use cards::{Card, CardState, Hand};
pub use geometry::{BoundingBox, Vec2, Vec3};
pub use mapper::Camera;
pub use runtime::JsRuntime;
pub use sim::{SimulationState, TickInput};
pub use target::Target;
