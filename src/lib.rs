pub mod dict;
pub mod fluid;
pub mod report;
pub mod words;

pub use dict::{Dict, DictError};
pub use fluid::Fluid;
pub use report::group_thousands;
pub use words::{dedup_runs, filter};
