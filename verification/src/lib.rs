//! Performance monitoring of Apple Silicon: the rules that turn what the
//! hardware reports into metrics, serve them over HTTP, and hand them to C.
//!
//! Reading the hardware, the network and the file system is left to the caller;
//! everything here is a function of what was read.
pub mod agreement;
pub mod arith;
pub mod c_layout;
pub mod c_text;
pub mod exact;
pub mod ffi;
pub mod http;
pub mod json;
pub mod launchd;
pub mod measured;
pub mod metrics;
pub mod names;
pub mod opening;
pub mod prometheus;
pub mod sampler;
pub mod serve;
pub mod soc;
pub mod text;

pub use metrics::{
    zero_div, CoreUsageEntry, CpuUsageEntry, GpuUsageEntry, MemMetrics, Metrics, PowerMetrics,
    TempMetrics,
};
pub use sampler::Sampler;
pub use soc::{CpuDomainInfo, SocInfo};
