//! The rules of a brick-breaking arcade game, its text layout and its
//! resource bookkeeping, with every function proved against its contract.

pub mod ball_object;
pub mod collision;
pub mod debug_output;
pub mod filesystem;
pub mod game;
pub mod game_level;
pub mod game_object;
pub mod input;
pub mod level_format;
pub mod math;
pub mod particle_generator;
pub mod post_processor;
pub mod power_up;
pub mod resource_manager;
pub mod rng;
pub mod scene;
pub mod strings;
pub mod text_renderer;
