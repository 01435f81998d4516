//! Control plane of a soil-moisture-driven irrigation hub and its sensor nodes:
//! the pulse/soak scheduler, the safety gate, the stuck-valve watchdog, the
//! ingest handlers and the supervisor policies, as verified state machines.

pub mod adc;
pub mod clock;
pub mod config;
pub mod db;
pub mod ingest;
pub mod level;
pub mod mqtt;
pub mod safety;
pub mod scheduler;
pub mod sim;
pub mod state;
pub mod supervisor;
pub mod table;
pub mod text;
pub mod valve;
pub mod watchdog;
pub mod web;
