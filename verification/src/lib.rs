//! The core logic of a handheld grid-button device with an LED strip and a
//! small display: the 30-key mask table, the debounced matrix-keyboard scan
//! model with level and edge queries, and a discrete-grid snake simulation
//! with food placement and a scaling render adapter. Everything here is pure
//! logic over plain values; the electrical strobing, display and LED driving
//! around it live with the hardware glue.

pub mod keyboard;
pub mod keys;
pub mod render;
pub mod rng;
pub mod snake;
