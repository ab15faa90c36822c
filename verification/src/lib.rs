pub mod text;
pub mod hexcode;
pub mod paths;
pub mod parser;
pub mod crypto;
pub mod config;
pub mod merger;
pub mod downloader;
pub mod tasks;
pub mod queue;
pub mod display;

pub use config::{AppConfig, TempNameStrategy};
