//! Idle detection for a Linux machine: deciding, from the output of system
//! tools and a configuration file, whether the machine has been idle long
//! enough and whether anything blocks treating it as idle.

pub mod text;
pub mod number;
pub mod error;
pub mod wtime;
pub mod config;
pub mod report;
pub mod idle;
pub mod x11;
pub mod nonidle;
pub mod daemon;
