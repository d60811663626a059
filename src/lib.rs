//! A traffic simulation on a grid of roads and intersections: direction
//! primitives, turn rules, the road model, intersection signal controllers and
//! the per-tick update of cars.
pub mod city;
pub mod common;
pub mod controller;
pub mod intersection;
pub mod road;
pub mod simulation;
