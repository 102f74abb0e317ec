pub mod audio;
pub mod capture;
pub mod cli;
pub mod now_playing;
pub mod permission;
pub mod text;
pub mod visualizer;
