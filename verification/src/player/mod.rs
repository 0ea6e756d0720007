pub mod controller;
pub mod view;
pub mod mpv_engine;
