//! Conflict resolution between a local and a remote replica of a value.

use crate::ids::{now_millis, ReplicaId};
use crate::keyed::KeyedMap;
use crate::text::str_eq;
use vstd::prelude::*;
use vstd::string::*;

verus! {

/// Values that replicas can merge.
///
/// Implementations state, through the two spec functions, when two values
/// conflict and what merging one into the other gives (`None`: the merge is
/// refused with an error, and the value is left as it was).
pub trait Mergeable: Sized + Clone {
    spec fn spec_has_conflict(&self, other: &Self) -> bool;

    spec fn spec_merge(self, other: Self) -> Option<Self>;

    /// The message with which merging `other` into `self` is refused.
    spec fn spec_merge_error(self, other: Self) -> String;

    /// Merges `other` into `self`.
    fn merge(&mut self, other: &Self) -> (r: Result<(), String>)
        ensures
            match old(self).spec_merge(*other) {
                Some(m) => r is Ok && *final(self) == m,
                None => r == Err::<(), String>(old(self).spec_merge_error(*other)) && *final(self)
                    == *old(self),
            },
    ;

    /// Whether the two values are in conflict.
    fn has_conflict(&self, other: &Self) -> (r: bool)
        ensures
            r == self.spec_has_conflict(other),
    ;
}

/// Conflict resolution strategy.
#[derive(Clone, Copy, Debug, PartialEq, Eq, Structural)]
pub enum ConflictStrategy {
    /// Last-Write-Wins (default)
    LastWriteWins,
    /// First-Write-Wins
    FirstWriteWins,
    /// Custom merge by conflict type
    CustomMerge,
    /// Manual resolution required
    ManualResolution,
    /// Conflict avoidance
    ConflictAvoidance,
}

/// Why a conflict could not be resolved.
#[derive(Debug)]
pub enum ConflictResolutionError {
    Unresolvable(String),
    StrategyNotApplicable(String),
    InvalidData(String),
}

impl ConflictResolutionError {
    /// The text the error displays.
    pub fn message(&self) -> (r: String)
        ensures
            r@ == match self {
                ConflictResolutionError::Unresolvable(s) => "Unresolvable conflict: "@ + s@,
                ConflictResolutionError::StrategyNotApplicable(s) => "Strategy not applicable: "@
                    + s@,
                ConflictResolutionError::InvalidData(s) => "Invalid conflict data: "@ + s@,
            },
    {
        match self {
            ConflictResolutionError::Unresolvable(s) => String::from_str(
                "Unresolvable conflict: ",
            ).concat(s.as_str()),
            ConflictResolutionError::StrategyNotApplicable(s) => String::from_str(
                "Strategy not applicable: ",
            ).concat(s.as_str()),
            ConflictResolutionError::InvalidData(s) => String::from_str(
                "Invalid conflict data: ",
            ).concat(s.as_str()),
        }
    }
}

/// Conflict metadata. `timestamp` is in milliseconds since the Unix epoch.
#[derive(Debug)]
pub struct ConflictMetadata {
    pub replica_id: ReplicaId,
    pub timestamp: i64,
    pub version: u64,
    pub conflict_type: String,
    pub resolution_strategy: ConflictStrategy,
}

impl Clone for ConflictMetadata {
    fn clone(&self) -> (r: Self)
        ensures
            r == *self,
    {
        ConflictMetadata {
            replica_id: self.replica_id,
            timestamp: self.timestamp,
            version: self.version,
            conflict_type: self.conflict_type.clone(),
            resolution_strategy: self.resolution_strategy,
        }
    }
}

/// Result of resolving one conflict.
#[derive(Debug)]
pub struct ConflictResolution<T> {
    pub resolved_value: T,
    pub strategy_used: ConflictStrategy,
    pub metadata: ConflictMetadata,
    pub conflicts_resolved: usize,
}

/// `out` is what merging `remote` into a copy of `local` gives.
pub open spec fn merges_to<T: Mergeable>(
    local: T,
    remote: T,
    out: Result<T, ConflictResolutionError>,
) -> bool {
    exists|c: T|
        #![trigger c.spec_merge(remote)]
        cloned::<T>(local, c) && match c.spec_merge(remote) {
            Some(m) => out == Ok::<T, ConflictResolutionError>(m),
            None => out matches Err(ConflictResolutionError::InvalidData(s)) && s@ == "Merge failed: "@
                + c.spec_merge_error(remote)@,
        }
}

/// The conflict types for which custom merging is known but not available.
pub open spec fn custom_merge_refused(t: Seq<char>) -> bool {
    t == "text"@ || t == "numeric"@ || t == "list"@
}

/// The message with which custom merging of a known type is refused.
pub open spec fn custom_merge_refusal(t: Seq<char>) -> Seq<char> {
    if t == "text"@ {
        "Text merging not implemented"@
    } else if t == "numeric"@ {
        "Numeric merging not implemented"@
    } else {
        "List merging not implemented"@
    }
}

/// What resolving a real conflict with the given metadata returns.
pub open spec fn conflict_outcome<T: Mergeable>(
    local: T,
    remote: T,
    metadata: ConflictMetadata,
    r: Result<ConflictResolution<T>, ConflictResolutionError>,
) -> bool {
    let strategy = metadata.resolution_strategy;
    if strategy == ConflictStrategy::ManualResolution {
        r matches Err(ConflictResolutionError::Unresolvable(s)) && s@
            == "Manual resolution required"@
    } else if strategy == ConflictStrategy::CustomMerge && custom_merge_refused(
        metadata.conflict_type@,
    ) {
        r matches Err(ConflictResolutionError::StrategyNotApplicable(s)) && s@
            == custom_merge_refusal(metadata.conflict_type@)
    } else {
        match r {
            Ok(res) => merges_to(local, remote, Ok(res.resolved_value)) && res.strategy_used
                == strategy && res.metadata == metadata && res.conflicts_resolved == 1,
            Err(e) => merges_to(local, remote, Err(e)),
        }
    }
}

/// Trait for conflict resolution strategies that can be registered.
pub trait ConflictResolutionStrategy {
    spec fn spec_name(&self) -> Seq<char>;

    spec fn spec_can_resolve(&self, conflict_type: Seq<char>) -> bool;

    fn name(&self) -> (r: &str)
        ensures
            r@ == self.spec_name(),
    ;

    fn can_resolve(&self, conflict_type: &str) -> (r: bool)
        ensures
            r == self.spec_can_resolve(conflict_type@),
    ;
}

/// Last-Write-Wins strategy.
pub struct LastWriteWinsStrategy;

impl ConflictResolutionStrategy for LastWriteWinsStrategy {
    open spec fn spec_name(&self) -> Seq<char> {
        "last-write-wins"@
    }

    open spec fn spec_can_resolve(&self, conflict_type: Seq<char>) -> bool {
        true
    }

    fn name(&self) -> (r: &str) {
        "last-write-wins"
    }

    fn can_resolve(&self, _conflict_type: &str) -> (r: bool) {
        true
    }
}

/// First-Write-Wins strategy.
pub struct FirstWriteWinsStrategy;

impl ConflictResolutionStrategy for FirstWriteWinsStrategy {
    open spec fn spec_name(&self) -> Seq<char> {
        "first-write-wins"@
    }

    open spec fn spec_can_resolve(&self, conflict_type: Seq<char>) -> bool {
        true
    }

    fn name(&self) -> (r: &str) {
        "first-write-wins"
    }

    fn can_resolve(&self, _conflict_type: &str) -> (r: bool) {
        true
    }
}

/// Custom merge strategy: handles the text, numeric and list conflict types.
pub struct CustomMergeStrategy;

impl ConflictResolutionStrategy for CustomMergeStrategy {
    open spec fn spec_name(&self) -> Seq<char> {
        "custom-merge"@
    }

    open spec fn spec_can_resolve(&self, conflict_type: Seq<char>) -> bool {
        custom_merge_refused(conflict_type)
    }

    fn name(&self) -> (r: &str) {
        "custom-merge"
    }

    fn can_resolve(&self, conflict_type: &str) -> (r: bool) {
        str_eq(conflict_type, "text") || str_eq(conflict_type, "numeric") || str_eq(
            conflict_type,
            "list",
        )
    }
}

/// Conflict resolver with registered strategies and a history of the
/// conflicts it met.
pub struct AdvancedConflictResolver {
    strategies: KeyedMap<String, String>,
    default_strategy: ConflictStrategy,
    conflict_history: Vec<ConflictMetadata>,
}

impl AdvancedConflictResolver {
    pub closed spec fn wf(&self) -> bool {
        self.strategies.wf()
    }

    /// Registered strategies: registration name to the strategy's own name.
    pub closed spec fn registry(&self) -> Map<Seq<char>, Seq<char>> {
        self.strategies.map().map_values(|s: String| s@)
    }

    pub closed spec fn spec_default_strategy(&self) -> ConflictStrategy {
        self.default_strategy
    }

    pub closed spec fn history(&self) -> Seq<ConflictMetadata> {
        self.conflict_history@
    }

    /// A resolver with the "lww", "fww" and "custom" strategies registered,
    /// Last-Write-Wins as default and an empty history.
    pub fn new() -> (r: Self)
        ensures
            r.wf(),
            r.spec_default_strategy() == ConflictStrategy::LastWriteWins,
            r.history() == Seq::<ConflictMetadata>::empty(),
            r.registry() == Map::<Seq<char>, Seq<char>>::empty().insert(
                "lww"@,
                "last-write-wins"@,
            ).insert("fww"@, "first-write-wins"@).insert("custom"@, "custom-merge"@),
    {
        let mut resolver = AdvancedConflictResolver {
            strategies: KeyedMap::new(),
            default_strategy: ConflictStrategy::LastWriteWins,
            conflict_history: Vec::new(),
        };
        assert(resolver.registry() =~= Map::<Seq<char>, Seq<char>>::empty());
        resolver.register_strategy("lww", LastWriteWinsStrategy);
        resolver.register_strategy("fww", FirstWriteWinsStrategy);
        resolver.register_strategy("custom", CustomMergeStrategy);
        resolver
    }

    pub fn with_default_strategy(self, strategy: ConflictStrategy) -> (r: Self)
        requires
            self.wf(),
        ensures
            r.wf(),
            r.spec_default_strategy() == strategy,
            r.history() == self.history(),
            r.registry() == self.registry(),
    {
        AdvancedConflictResolver { default_strategy: strategy, ..self }
    }

    pub fn default_strategy(&self) -> (r: ConflictStrategy)
        ensures
            r == self.spec_default_strategy(),
    {
        self.default_strategy
    }

    /// Registers (or replaces) a strategy under a name.
    pub fn register_strategy<S: ConflictResolutionStrategy>(&mut self, name: &str, strategy: S)
        requires
            old(self).wf(),
        ensures
            final(self).wf(),
            final(self).registry() == old(self).registry().insert(name@, strategy.spec_name()),
            final(self).history() == old(self).history(),
            final(self).spec_default_strategy() == old(self).spec_default_strategy(),
    {
        let key = String::from_str(name);
        let label = String::from_str(strategy.name());
        let ghost before = self.strategies.map();
        self.strategies.insert(key, label);
        assert(self.strategies.map().map_values(|s: String| s@) =~= before.map_values(
            |s: String| s@,
        ).insert(name@, strategy.spec_name()));
    }

    /// Whether a strategy is registered under the name.
    pub fn has_strategy(&self, name: &str) -> (r: bool)
        requires
            self.wf(),
        ensures
            r == self.registry().contains_key(name@),
    {
        let key = String::from_str(name);
        self.strategies.contains_key(&key)
    }

    /// Resolves a conflict between a local and a remote value.
    ///
    /// Without metadata, the resolver's default strategy is used, with
    /// conflict type "default", version 1, a fresh replica id and the current
    /// time.
    pub fn resolve<T: Mergeable>(
        &mut self,
        local: &T,
        remote: &T,
        metadata: Option<ConflictMetadata>,
    ) -> (r: Result<ConflictResolution<T>, ConflictResolutionError>)
        requires
            old(self).wf(),
        ensures
            final(self).wf(),
            final(self).registry() == old(self).registry(),
            final(self).spec_default_strategy() == old(self).spec_default_strategy(),
            exists|m: ConflictMetadata|
                #[trigger] metadata_used(metadata, old(self).spec_default_strategy(), m)
                    && resolution_outcome(
                    *local,
                    *remote,
                    m,
                    old(self).history(),
                    final(self).history(),
                    r,
                ),
    {
        let ghost metadata_arg = metadata;
        let metadata = match metadata {
            Some(m) => m,
            None => ConflictMetadata {
                replica_id: ReplicaId::random(),
                timestamp: now_millis(),
                version: 1,
                conflict_type: String::from_str("default"),
                resolution_strategy: self.default_strategy,
            },
        };
        let ghost m = metadata;
        let ghost given = metadata_arg;
        let r = self.resolve_with(local, remote, metadata);
        assert(metadata_used(given, old(self).spec_default_strategy(), m));
        r
    }

    /// Resolves a conflict with the given metadata.
    pub fn resolve_with<T: Mergeable>(
        &mut self,
        local: &T,
        remote: &T,
        metadata: ConflictMetadata,
    ) -> (r: Result<ConflictResolution<T>, ConflictResolutionError>)
        requires
            old(self).wf(),
        ensures
            final(self).wf(),
            final(self).registry() == old(self).registry(),
            final(self).spec_default_strategy() == old(self).spec_default_strategy(),
            resolution_outcome(*local, *remote, metadata, old(self).history(), final(self).history(), r),
    {
        if !local.has_conflict(remote) {
            let v = local.clone();
            return Ok(
                ConflictResolution {
                    resolved_value: v,
                    strategy_used: ConflictStrategy::LastWriteWins,
                    metadata,
                    conflicts_resolved: 0,
                },
            );
        }
        self.conflict_history.push(metadata.clone());
        let strategy = metadata.resolution_strategy;
        let resolved = match strategy {
            ConflictStrategy::LastWriteWins => merge_into_copy(local, remote),
            ConflictStrategy::FirstWriteWins => merge_into_copy(local, remote),
            ConflictStrategy::CustomMerge => {
                if str_eq(metadata.conflict_type.as_str(), "text") {
                    Err(
                        ConflictResolutionError::StrategyNotApplicable(
                            String::from_str("Text merging not implemented"),
                        ),
                    )
                } else if str_eq(metadata.conflict_type.as_str(), "numeric") {
                    Err(
                        ConflictResolutionError::StrategyNotApplicable(
                            String::from_str("Numeric merging not implemented"),
                        ),
                    )
                } else if str_eq(metadata.conflict_type.as_str(), "list") {
                    Err(
                        ConflictResolutionError::StrategyNotApplicable(
                            String::from_str("List merging not implemented"),
                        ),
                    )
                } else {
                    merge_into_copy(local, remote)
                }
            },
            ConflictStrategy::ManualResolution => {
                return Err(
                    ConflictResolutionError::Unresolvable(
                        String::from_str("Manual resolution required"),
                    ),
                );
            },
            ConflictStrategy::ConflictAvoidance => {
                let mut first = local.clone();
                match first.merge(remote) {
                    Ok(()) => Ok(first),
                    Err(_) => merge_into_copy(local, remote),
                }
            },
        };
        match resolved {
            Ok(v) => Ok(
                ConflictResolution {
                    resolved_value: v,
                    strategy_used: strategy,
                    metadata,
                    conflicts_resolved: 1,
                },
            ),
            Err(e) => Err(e),
        }
    }

    pub fn get_conflict_history(&self) -> (r: &[ConflictMetadata])
        ensures
            r@ == self.history(),
    {
        self.conflict_history.as_slice()
    }

    pub fn clear_conflict_history(&mut self)
        requires
            old(self).wf(),
        ensures
            final(self).wf(),
            final(self).history() == Seq::<ConflictMetadata>::empty(),
            final(self).registry() == old(self).registry(),
            final(self).spec_default_strategy() == old(self).spec_default_strategy(),
    {
        self.conflict_history.clear();
    }
}

/// The metadata a resolution goes by: the given one, or else a default one
/// with the resolver's default strategy.
pub open spec fn metadata_used(
    given: Option<ConflictMetadata>,
    default_strategy: ConflictStrategy,
    m: ConflictMetadata,
) -> bool {
    match given {
        Some(g) => m == g,
        None => m.version == 1 && m.conflict_type@ == "default"@ && m.resolution_strategy
            == default_strategy,
    }
}

/// The whole outcome of a resolution: the answer and the history afterwards.
pub open spec fn resolution_outcome<T: Mergeable>(
    local: T,
    remote: T,
    metadata: ConflictMetadata,
    history_before: Seq<ConflictMetadata>,
    history_after: Seq<ConflictMetadata>,
    r: Result<ConflictResolution<T>, ConflictResolutionError>,
) -> bool {
    if !local.spec_has_conflict(&remote) {
        &&& history_after == history_before
        &&& r matches Ok(res)
        &&& cloned::<T>(local, res.resolved_value)
        &&& res.strategy_used == ConflictStrategy::LastWriteWins
        &&& res.metadata == metadata
        &&& res.conflicts_resolved == 0
    } else {
        &&& history_after == history_before.push(metadata)
        &&& conflict_outcome(local, remote, metadata, r)
    }
}

/// Each resolution of a real conflict adds its metadata to the history,
/// and a pair without conflict leaves the history as it was.
pub proof fn law_history_records_each_conflict<T: Mergeable>(
    local: T,
    remote: T,
    metadata: ConflictMetadata,
    before: Seq<ConflictMetadata>,
    after: Seq<ConflictMetadata>,
    r: Result<ConflictResolution<T>, ConflictResolutionError>,
)
    requires
        resolution_outcome(local, remote, metadata, before, after, r),
    ensures
        local.spec_has_conflict(&remote) ==> after.len() == before.len() + 1 && after.last()
            == metadata && after.drop_last() == before,
        !local.spec_has_conflict(&remote) ==> after == before && (r matches Ok(res)
            && res.conflicts_resolved == 0),
{
    if local.spec_has_conflict(&remote) {
        assert(after.drop_last() =~= before);
    }
}

/// Merges `remote` into a copy of `local`.
fn merge_into_copy<T: Mergeable>(local: &T, remote: &T) -> (r: Result<T, ConflictResolutionError>)
    ensures
        merges_to(*local, *remote, r),
{
    let mut result = local.clone();
    let ghost c = result;
    match result.merge(remote) {
        Ok(()) => {
            assert(cloned::<T>(*local, c));
            Ok(result)
        },
        Err(e) => {
            let msg = String::from_str("Merge failed: ").concat(e.as_str());
            assert(cloned::<T>(*local, c));
            Err(ConflictResolutionError::InvalidData(msg))
        },
    }
}

impl Default for AdvancedConflictResolver {
    fn default() -> (r: Self)
        ensures
            r.wf(),
            r.spec_default_strategy() == ConflictStrategy::LastWriteWins,
            r.history() == Seq::<ConflictMetadata>::empty(),
    {
        Self::new()
    }
}

/// Default conflict resolver: merges the remote value into a copy of the
/// local one.
pub struct DefaultConflictResolver;

impl DefaultConflictResolver {
    pub fn resolve<T: Mergeable>(&self, local: &T, remote: &T) -> (r: Result<T, String>)
        ensures
            exists|c: T|
                #![trigger c.spec_merge(*remote)]
                cloned::<T>(*local, c) && match c.spec_merge(*remote) {
                    Some(m) => r == Ok::<T, String>(m),
                    None => r == Err::<T, String>(c.spec_merge_error(*remote)),
                },
    {
        let mut result = local.clone();
        let ghost c = result;
        match result.merge(remote) {
            Ok(()) => Ok(result),
            Err(e) => Err(e),
        }
    }
}

} // verus!
