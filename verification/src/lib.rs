pub mod compiler;
pub mod config;
pub mod frontmatter;
pub mod request_logger;
pub mod routes;
pub mod server;
pub mod table;
pub mod text;
pub mod watcher;
