//! Calendar arithmetic and a fixed-width text calendar for a status bar.
pub mod gregorian;
pub mod text;
pub mod chrono_bridge;
pub mod week_row;
pub mod calendar;
