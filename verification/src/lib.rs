//! A proof-of-work search: find an integer whose product with a fixed
//! multiplier, written in base ten and hashed with SHA-256, has a hexadecimal
//! digest that begins with a required prefix.
//!
//! The candidate space is split among a fixed number of workers, each walking
//! one residue class, and the workers stop one another through a shared flag.

pub mod decimal;
pub mod digest;
pub mod config;
pub mod predicate;
pub mod signal;
pub mod worker;
