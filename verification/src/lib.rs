//! A minimal terminal-rendering and input-dispatch engine.
//!
//! The engine gives an application an immediate-mode character-grid drawing
//! surface and a normalized stream of keyboard and mouse events.  Rendering is
//! double buffered: each frame the application paints into a draw grid, and
//! `Console::draw` computes the minimal set of device commands that brings the
//! screen from the previously committed frame to the new one.  Input records
//! from the device are folded through `Context`, which turns the raw,
//! stateless records into edge-triggered events (key down/up, button down/up,
//! synthesized clicks, scroll direction).

pub mod buffer;
pub mod console;
pub mod context;
pub mod input;
pub mod pixel;
