pub mod engine;
pub mod guard;
pub mod laws;
pub mod render;
pub mod report;
pub mod samples;
pub mod schema;
pub mod stats;
pub mod value;

pub use engine::diff;
pub use engine::diff_with_config;
pub use report::ColumnStat;
pub use report::DiffConfig;
pub use report::DiffError;
pub use report::DiffOutcome;
pub use report::DiffReport;
pub use report::DupKeyWarning;
pub use report::dtype_label;
pub use samples::Sample;
pub use schema::Column;
pub use schema::Dataset;
pub use value::DataType;
pub use value::Value;
