//! Interpreting instructions over symbolic values.

pub mod exploration;
pub mod stack;
pub mod state;
pub mod state_manager;
pub mod symbol;
