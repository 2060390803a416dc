//! Timing and coordination logic of an Alpenglow voting validator.

pub mod bank_forks_controller;
pub mod common;
pub mod event;
pub mod leader_schedule;
pub mod messages;
pub mod multiplier;
pub mod standstill;
pub mod time;
pub mod timer_manager;
