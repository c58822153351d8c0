//! What the commands of the application do.
pub mod cache;
pub mod finish;
pub mod output;
pub mod record;
pub mod session;
pub mod transcript;
