pub mod apps;
pub mod cli;
pub mod compositor;
pub mod contract;
