//! Core logic of the Lumina game engine: handles, bit sets, pools,
//! button state tracking, entity allocation, editor layout and tooling.

pub mod utils;
pub mod button;
pub mod entity;
pub mod query;
pub mod component;
pub mod memory;
pub mod text;
pub mod components_2d;
pub mod toolbar;
pub mod assets;
pub mod layout;
pub mod layout_tree;
pub mod tab_bar;
pub mod lines;
pub mod web_input;
pub mod events;
pub mod ai_types;
pub mod dataset;
pub mod scene_description;
pub mod live_preview;
pub mod game_generator;
pub mod engine;
pub mod scene_objects;
pub mod panels;
pub mod web_game;
pub mod docking;
pub mod asset_db;
pub mod input_state;
