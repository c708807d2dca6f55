//! A WS2812 (NeoPixel) strip driven over SPI: colors, the bit-pulse transmit
//! frame, the animation state machine and the command handling around it, and
//! a playlist for the player that feeds it.

pub mod color;
pub mod config;
pub mod error;
pub mod frame;
pub mod lemmas;
pub mod playlist;
pub mod strip;
pub mod task;

pub use color::{Color, SCALE_ONE};
pub use config::SpiConfig;
pub use error::Ws2812Error;
pub use frame::{byte_to_spi_bits, BYTES_PER_LED, LED_ONE, LED_ZERO, RESET_BYTES_COUNT};
pub use playlist::{is_audio_file, Playlist, Track};
pub use strip::{Animation, Ws2812, MIN_BREATHE_FRAMES, REFRESH_FPS};
pub use task::{LedStripStatus, SetLedStripStatusEvent};
