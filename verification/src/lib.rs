//! Short links for long URLs: base-62 slugs, the settings of the services,
//! and the decisions the services take on each request.

pub mod text;
pub mod base62;
pub mod config;
pub mod server_config;
pub mod settings;
pub mod uri;
pub mod actions;
pub mod reply;
pub mod urls;
pub mod routes;
pub mod health_checks;
