pub mod config;
pub mod speak;
pub mod tts;
pub mod utils;
