pub mod result;
pub mod template_engine;
pub mod fill_order;
pub mod paths;
pub mod theme_spec;
pub mod planner;
pub mod report;
pub mod compositor;
pub mod cycle;
pub mod transaction;
pub mod executor;
pub mod recovery;
