pub mod calendar;
pub mod datetime;
pub mod error;
pub mod series;
pub mod value;

pub use calendar::ExDate;
pub use datetime::ExDateTime;
pub use error::ExplorerError;
pub use series::{DType, EncodedSeries};
pub use value::{ExAnyValue, EngineScalar};
