//! Verified SQL text builder for a small item / tag / date database.
pub mod text;
pub mod calendar;
pub mod myquery;
pub mod sorted;
pub mod mydb;
pub mod app;
