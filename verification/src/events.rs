//! Changes of object state, as they are handed to event consumers.
use std::sync::Arc;
use vstd::prelude::*;

verus! {

/// Action performed on a data key during a mutation.
#[derive(Debug, Clone, Copy, PartialEq, Eq, Structural)]
pub enum MutAction {
    Create,
    Update,
    Delete,
}

/// Distinguishes the origin of a state mutation for event consumers.
#[derive(Debug, Clone, Copy, PartialEq, Eq, Structural)]
pub enum MutationSource {
    /// Client-initiated operation (API call, invocation)
    Local,
    /// State arrived via replication sync (MST anti-entropy, Raft log apply)
    Sync,
}

/// A key whose value changed.
#[derive(Debug)]
pub struct ChangedKey {
    pub key_canonical: String,
    pub action: MutAction,
    /// Raw entry value bytes, where the collection is set to hand them out and the
    /// mutation is a create/update (never for deletes).
    pub value: Option<Vec<u8>>,
}

/// Where events on objects are handed to.
pub trait EventManager {
    /// What an event is about.
    type Context;

    /// The state of an object.
    type Entry;

    /// Hands an event over.
    fn trigger_event(&self, context: Self::Context);

    /// Hands an event over together with the state of its object.
    fn trigger_event_with_entry(&self, context: Self::Context, object_entry: &Self::Entry);
}

/// A change of an object's state. The consumers' configuration is of type `E`.
#[derive(Debug)]
pub struct MutationContext<E> {
    pub object_id: String,
    pub cls_id: String,
    pub partition_id: u16,
    pub version_before: u64,
    pub version_after: u64,
    pub changed: Vec<ChangedKey>,
    pub source: MutationSource,
    pub event_config: Option<Arc<E>>,
}

impl<E> MutationContext<E> {
    /// Create a new context for a **local** (client-initiated) mutation.
    pub fn new(
        object_id: String,
        cls_id: String,
        partition_id: u16,
        version_before: u64,
        version_after: u64,
        changed: Vec<ChangedKey>,
    ) -> (r: Self)
        ensures
            r == (MutationContext::<E> {
                object_id,
                cls_id,
                partition_id,
                version_before,
                version_after,
                changed,
                source: MutationSource::Local,
                event_config: None,
            }),
    {
        MutationContext {
            object_id,
            cls_id,
            partition_id,
            version_before,
            version_after,
            changed,
            source: MutationSource::Local,
            event_config: None,
        }
    }

    /// Create a new context for a **sync** (replication-originated) mutation.
    pub fn new_sync(
        object_id: String,
        cls_id: String,
        partition_id: u16,
        version_before: u64,
        version_after: u64,
        changed: Vec<ChangedKey>,
    ) -> (r: Self)
        ensures
            r == (MutationContext::<E> {
                object_id,
                cls_id,
                partition_id,
                version_before,
                version_after,
                changed,
                source: MutationSource::Sync,
                event_config: None,
            }),
    {
        MutationContext {
            object_id,
            cls_id,
            partition_id,
            version_before,
            version_after,
            changed,
            source: MutationSource::Sync,
            event_config: None,
        }
    }

    /// The context with a configuration of the consumers.
    pub fn with_event_config(self, cfg: Option<Arc<E>>) -> (r: Self)
        ensures
            r == (MutationContext { event_config: cfg, ..self }),
    {
        MutationContext { event_config: cfg, ..self }
    }
}

/// A change that a client made is local and one that replication brought is not; neither has a
/// configuration yet, both keep what they are given, and a configuration changes nothing else.
pub proof fn law_mutation_contexts<E>(
    object_id: String,
    cls_id: String,
    partition_id: u16,
    version_before: u64,
    version_after: u64,
    changed: Vec<ChangedKey>,
    local: MutationContext<E>,
    sync: MutationContext<E>,
    cfg: Option<Arc<E>>,
    configured: MutationContext<E>,
)
    requires
        call_ensures(
            MutationContext::<E>::new,
            (object_id, cls_id, partition_id, version_before, version_after, changed),
            local,
        ),
        call_ensures(
            MutationContext::<E>::new_sync,
            (object_id, cls_id, partition_id, version_before, version_after, changed),
            sync,
        ),
        call_ensures(MutationContext::<E>::with_event_config, (local, cfg), configured),
    ensures
        local.source is Local && sync.source is Sync,
        local.event_config is None && sync.event_config is None,
        local.object_id == object_id && sync.object_id == object_id,
        local.cls_id == cls_id && sync.cls_id == cls_id,
        local.partition_id == partition_id && sync.partition_id == partition_id,
        local.version_before == version_before && sync.version_before == version_before,
        local.version_after == version_after && sync.version_after == version_after,
        local.changed == changed && sync.changed == changed,
        configured == (MutationContext { event_config: cfg, ..local }),
{
}

} // verus!
