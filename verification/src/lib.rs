//! The rules of Orewar.

pub mod measure;
pub mod protocol;
pub mod rules;
pub mod player;
pub mod game;
pub mod combat;
pub mod shells;
pub mod weapons;
pub mod drive;
pub mod collide;
pub mod economy;
pub mod capture;
pub mod respawn;
pub mod tick;
pub mod snapshot;
pub mod laws;
pub mod alike;
pub mod text;
pub mod wording;
pub mod server;
pub mod clock;
pub mod console;
pub mod predict;
pub mod state;
pub mod link;
pub mod controls;
pub mod menu;
pub mod hud;
pub mod connect;
pub mod hosting;
pub mod scene;
pub mod camera;
