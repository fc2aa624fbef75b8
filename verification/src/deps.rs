//! The outside services a session needs, for users of the library to provide.
use crate::trace_cache::TraceCacheFile;
use crate::types::{CachedTxInfo, ExecutionResultInfo, StepSnapshot};
use vstd::prelude::*;

verus! {

/// Fetches the data of a transaction from a JSON-RPC endpoint.
pub trait TxFetcher: Send + Sync + 'static {
    type Fut<'a>: core::future::Future<Output = Result<CachedTxInfo, anyhow::Error>> + Send + 'a where
        Self: 'a;

    fn fetch<'a>(&'a self, tx_hash: &'a str, rpc_url: &'a str) -> Self::Fut<'a>;
}

/// Stores and reads complete replays.
pub trait TraceCache: Send + Sync + 'static {
    fn trace_cache_path(&self, tx_hash: &str, chain_id: Option<u64>, block_number: u64) -> String;

    fn load(&self, path: &str) -> Result<Option<TraceCacheFile>, anyhow::Error>;

    fn save(
        &self,
        path: &str,
        snapshots: &[StepSnapshot],
        result: &Option<ExecutionResultInfo>,
    ) -> Result<(), anyhow::Error>;
}

} // verus!
