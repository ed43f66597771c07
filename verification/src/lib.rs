pub mod counter;
pub mod error;
pub mod matrix;
pub mod metrics;
pub mod pool;
pub mod text;
pub mod util;
pub mod vector;

pub use error::{MatrixError, MetricsError};
pub use matrix::{multiply, Matrix};
pub use metrics::amap::AmapMetrics;
pub use metrics::cmap::CmapMetrics;
pub use metrics::map::HmapMetrics;
pub use metrics::Metrics;
pub use pool::{Msg, MsgInput, MsgOutput, NUM_THREADS};
pub use vector::{dot_product, Vector};
