pub mod cli;
pub mod hashes;
pub mod password;
pub mod registry;
