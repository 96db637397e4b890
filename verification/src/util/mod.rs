//! Helpers of the view model.
pub mod measure_execution_time;
pub mod name_map;
pub mod ordered_map;
pub mod platform_specific;
pub mod update;
pub mod url;
