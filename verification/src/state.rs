//! The state that the handlers share.

use vstd::prelude::*;
use crate::ai::Brain;
use crate::history::MetricLog;
use crate::hub::{BroadcastHub, HubState};
use crate::shared::SystemMetric;
use crate::store::{Document, VectorStore};

verus! {

/// Everything the service holds between requests.
pub struct AppState {
    /// The samples that were persisted.
    pub metrics: MetricLog,
    /// The hub through which new samples reach live viewers.
    pub tx: BroadcastHub,
    /// The knowledge base.
    pub knowledge: VectorStore,
    /// The client of the generation service.
    pub brain: Brain,
}

impl AppState {
    /// A state without samples, viewers or documents, for queues of `capacity`
    /// samples and embeddings of `dimension` components.
    pub fn new(capacity: usize, dimension: usize, brain: Brain) -> (state: AppState)
        ensures
            state.metrics@ == Seq::<SystemMetric>::empty(),
            state.tx@ == HubState::empty(capacity as nat),
            state.tx@.well_formed(),
            state.knowledge@ == Seq::<Document>::empty(),
            state.knowledge.dimension() == dimension,
            state.brain == brain,
    {
        AppState {
            metrics: MetricLog::new(),
            tx: BroadcastHub::new(capacity),
            knowledge: VectorStore::new(dimension),
            brain,
        }
    }
}

} // verus!
