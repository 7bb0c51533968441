//! Disk-usage reporting: volume records with derived usage statistics,
//! size filtering, ordering, severity classification and report rendering.

pub mod types;
pub mod display;
pub mod filter;
pub mod disk;
pub mod cli;
pub mod pipeline;
