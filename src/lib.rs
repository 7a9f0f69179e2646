pub mod web_url;
pub mod frontier;
pub mod summary;
pub mod config;
pub mod events;
pub mod robots;
pub mod page;
pub mod seed_crawler;
pub mod multi_crawler;
pub mod telemetry;
