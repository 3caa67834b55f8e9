//! The expansion board: its panel and its three buttons.

pub mod button;
pub mod oled;
