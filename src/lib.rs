#![allow(non_snake_case)]

pub mod error;
pub mod model;
pub mod player;
pub mod text;
mod shared;
