//! A real-time cryptocurrency price visualizer.
//!
//! The crate decodes exchange price-stream messages (several wire dialects),
//! drives a resilient reconnecting stream as a pure state machine, keeps a
//! rolling window of recent prices, and renders that window as a small pixel
//! matrix for a terminal, an LED panel, or a nixie-tube display.

pub mod character;
pub mod codec;
pub mod digits;
pub mod fixed;
pub mod json;
pub mod matrix;
pub mod nixie;
pub mod pixels_to_string;
pub mod price_queue;
pub mod rgb;
pub mod screen;
pub mod stream;
pub mod wire;
