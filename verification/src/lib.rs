pub mod ids;
pub mod render;
pub mod schedule;
pub mod ships;
pub mod solves;
pub mod attendance_store;
pub mod failure;
pub mod wiring;
pub mod voice_text;
pub mod voice;
pub mod voice_store;
pub mod attendance;
pub mod text;
pub mod table;
pub mod lookup;
pub mod config;
pub mod logging;
pub mod startup;
pub mod info;
pub mod replies;
