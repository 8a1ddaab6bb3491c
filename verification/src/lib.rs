//! The footprint of a road intersection.
//!
//! Roads meet at intersections. Each road has a centerline and a number of
//! lanes on either side of it. This library gives an intersection its
//! polygon and cuts the centerlines of its roads back so that they end at
//! the polygon: a dead end and a meeting of two roads in closed form, three
//! roads or more corner by corner.
//!
//! The library decides; it does not measure. Polylines stay with the
//! caller, who knows how to shift, cut and cross them, and are known here
//! by number only. Whatever the library needs to know of them it asks for,
//! one [`survey::Query`] at a time: the builder
//! [`intersections::initial_intersection_polygon`] returns either what it
//! has built or the question that stands in its way. The caller measures,
//! records the answer in the [`survey::Survey`] and calls again. Lengths are
//! whole numbers of a unit that the caller chooses; directions are
//! thousandths of a degree.
//!
//! Every function is verified against a model of what it computes. The
//! models are the `*_of` functions; [`laws`] holds what follows from them.

pub mod borders;
pub mod corners;
pub mod degenerate;
pub mod geometry;
pub mod import;
pub mod intersections;
pub mod laws;
pub mod network;
pub mod order;
pub mod pairs;
pub mod resolution;
pub mod ring;
pub mod runs;
pub mod survey;
pub mod wraparound;
