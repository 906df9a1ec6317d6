//! The integer core of a look-ahead brick-wall limiter: audio layouts and
//! frame bookkeeping, the true-peak configuration table, the ITU-R BS.1770-5
//! interpolator taps, order-key peak collection and the moving minimum that
//! holds the permissible gain.
//!
//! Sample magnitudes and gains are carried as order keys: for non-negative,
//! finite IEEE-754 values the raw bit pattern orders exactly as the value does,
//! so the peak maxima and the held gain minimum are taken on the keys.

pub mod config;
pub mod dispatch;
pub mod envelope;
pub mod error;
pub mod layout;
pub mod peak;

pub use dispatch::dispatch;
pub use envelope::MovingMinimum;
pub use error::LimiterError;
pub use layout::{AudioLayout, validate_layout};
