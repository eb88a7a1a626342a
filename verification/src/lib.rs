pub mod coordinator;
pub mod endpoints;
pub mod files;
pub mod filter;
pub mod identity;
pub mod laws;
pub mod model;
pub mod prompt;
pub mod protocol;
pub mod report;
pub mod session;
pub mod settings;
pub mod text;
