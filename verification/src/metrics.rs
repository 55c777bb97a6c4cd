//! The interface through which traffic is counted.

use std::sync::Arc;
use vstd::prelude::*;

verus! {

/// Records traffic. Implementations are shared between tasks and must not block.
pub trait MetricsRecorder: Send + Sync {
    /// Notes that `bytes` bytes went through the tunnel of `subdomain`.
    fn record_bytes(&self, subdomain: &str, bytes: u64);

    /// Notes a new connection of the given kind, `http` or `websocket`.
    fn record_connection(&self, subdomain: &str, connection_type: &str);
}

/// A recorder that records nothing.
#[derive(Clone)]
pub struct NoOpMetrics;

impl MetricsRecorder for NoOpMetrics {
    fn record_bytes(&self, subdomain: &str, bytes: u64) {
    }

    fn record_connection(&self, subdomain: &str, connection_type: &str) {
    }
}

/// The recorder that the relay starts with: one that records nothing. The
/// handle can be shared between tasks, and used wherever a recorder is asked for.
pub fn create_metrics() -> (r: Arc<NoOpMetrics>) {
    Arc::new(NoOpMetrics)
}

} // verus!
