//! Accounts and their pool.

pub mod laws;
pub mod state;
pub mod user;
pub mod user_manager;
