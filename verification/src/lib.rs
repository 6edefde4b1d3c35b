pub mod text;
pub mod auth;
pub mod navigation;
pub mod json;
pub mod config;
pub mod client;
pub mod vk_api;
pub mod ui;
pub mod test_client;
