//! Fruit Drop: a catcher moves left and right along the bottom of the screen
//! and catches fruit that falls from above, faster as the score grows.
//!
//! Positions are fixed-point integers in hundredths of a screen unit, with the
//! origin in the middle of the screen and y growing upwards.

pub mod player;
pub mod score;
pub mod fruit;
pub mod game;
