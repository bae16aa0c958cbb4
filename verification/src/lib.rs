//! A verified engine for an interactive Conway's Game of Life.
//!
//! The crate is split into the four components of the simulator: a bounded
//! cell [`grid`](grid::Grid) with the standard Life rule, a pan/zoom
//! [`viewport`](viewport::Viewport) mapping screen pixels to cells, a
//! mouse-gesture [`controller`](controller::Controller), and a run/pause
//! simulation [`clock`](clock::Clock). The [`engine`](engine::App) couples
//! them, consuming a stream of input [`event`](event::Event)s and producing
//! a renderable frame on demand.

pub mod clock;
pub mod controller;
pub mod engine;
pub mod event;
pub mod grid;
pub mod viewport;
