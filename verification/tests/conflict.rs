use leptos_sync_core::conflict::{
    AdvancedConflictResolver, ConflictMetadata, ConflictResolutionError, ConflictResolutionStrategy,
    ConflictStrategy, CustomMergeStrategy, DefaultConflictResolver, FirstWriteWinsStrategy,
    LastWriteWinsStrategy, Mergeable,
};
use leptos_sync_core::ids::ReplicaId;

/// A last-write-wins register for the tests.
#[derive(Clone, Debug, PartialEq)]
struct Reg {
    value: String,
    ts: u64,
}

impl Mergeable for Reg {
    fn spec_has_conflict(&self, other: &Self) -> bool {
        self.has_conflict(other)
    }

    fn spec_merge_error(self, other: Self) -> String {
        let mut merged = self;
        match merged.merge(&other) {
            Ok(()) => String::new(),
            Err(e) => e,
        }
    }

    fn spec_merge(self, other: Self) -> Option<Self> {
        let mut merged = self;
        match merged.merge(&other) {
            Ok(()) => Some(merged),
            Err(_) => None,
        }
    }

    fn merge(&mut self, other: &Self) -> Result<(), String> {
        if other.value == "poison" {
            return Err("poisoned".to_string());
        }
        if other.ts > self.ts {
            self.value = other.value.clone();
            self.ts = other.ts;
        }
        Ok(())
    }

    fn has_conflict(&self, other: &Self) -> bool {
        self.ts == other.ts && self.value != other.value
    }
}

fn reg(v: &str, ts: u64) -> Reg {
    Reg { value: v.to_string(), ts }
}

fn metadata(strategy: ConflictStrategy, conflict_type: &str) -> ConflictMetadata {
    ConflictMetadata {
        replica_id: ReplicaId::from_u128(1),
        timestamp: 1_700_000_000_000,
        version: 1,
        conflict_type: conflict_type.to_string(),
        resolution_strategy: strategy,
    }
}

#[test]
fn test_advanced_conflict_resolver_creation() {
    let resolver = AdvancedConflictResolver::new();
    assert_eq!(resolver.default_strategy(), ConflictStrategy::LastWriteWins);
}

#[test]
fn test_conflict_resolution_lww() {
    let mut resolver = AdvancedConflictResolver::new();
    let result = resolver.resolve(&reg("local", 1), &reg("remote", 2), Some(metadata(ConflictStrategy::LastWriteWins, "text")));
    assert!(result.is_ok());
}

#[test]
fn test_conflict_strategy_registration() {
    let mut resolver = AdvancedConflictResolver::new();
    resolver.register_strategy("custom", CustomMergeStrategy);
    assert!(resolver.has_strategy("custom"));
    assert!(!resolver.has_strategy("other"));
}

#[test]
fn test_conflict_history_tracking() {
    let mut resolver = AdvancedConflictResolver::new();
    assert_eq!(resolver.get_conflict_history().len(), 0);
    let r = resolver.resolve(&reg("local", 5), &reg("remote", 5), Some(metadata(ConflictStrategy::LastWriteWins, "text")));
    assert!(r.is_ok());
    assert_eq!(resolver.get_conflict_history().len(), 1);
    resolver.clear_conflict_history();
    assert_eq!(resolver.get_conflict_history().len(), 0);
}

#[test]
fn test_conflict_strategy_validation() {
    assert!(LastWriteWinsStrategy.can_resolve("text"));
    assert!(LastWriteWinsStrategy.can_resolve("numeric"));
    assert!(FirstWriteWinsStrategy.can_resolve("list"));
    assert!(CustomMergeStrategy.can_resolve("text"));
    assert!(CustomMergeStrategy.can_resolve("numeric"));
    assert!(CustomMergeStrategy.can_resolve("list"));
    assert!(!CustomMergeStrategy.can_resolve("unknown"));
    assert_eq!(LastWriteWinsStrategy.name(), "last-write-wins");
    assert_eq!(FirstWriteWinsStrategy.name(), "first-write-wins");
    assert_eq!(CustomMergeStrategy.name(), "custom-merge");
}

#[test]
fn no_conflict_gives_back_local_and_records_nothing() {
    let mut resolver = AdvancedConflictResolver::new();
    let res = resolver.resolve(&reg("a", 1), &reg("b", 2), None).unwrap();
    assert_eq!(res.resolved_value, reg("a", 1));
    assert_eq!(res.conflicts_resolved, 0);
    assert_eq!(res.strategy_used, ConflictStrategy::LastWriteWins);
    assert!(resolver.get_conflict_history().is_empty());
}

#[test]
fn each_conflict_is_recorded_once() {
    let mut resolver = AdvancedConflictResolver::new();
    for i in 0..3u64 {
        let res = resolver.resolve(&reg("x", i), &reg("y", i), Some(metadata(ConflictStrategy::FirstWriteWins, "text"))).unwrap();
        assert_eq!(res.conflicts_resolved, 1);
        assert_eq!(res.strategy_used, ConflictStrategy::FirstWriteWins);
    }
    assert_eq!(resolver.get_conflict_history().len(), 3);
}

#[test]
fn manual_resolution_is_refused() {
    let mut resolver = AdvancedConflictResolver::new();
    let r = resolver.resolve(&reg("x", 3), &reg("y", 3), Some(metadata(ConflictStrategy::ManualResolution, "text")));
    assert!(matches!(r, Err(ConflictResolutionError::Unresolvable(ref m)) if m == "Manual resolution required"));
    assert_eq!(resolver.get_conflict_history().len(), 1);
}

#[test]
fn custom_merge_of_known_types_is_not_available() {
    let mut resolver = AdvancedConflictResolver::new();
    let r = resolver.resolve(&reg("x", 3), &reg("y", 3), Some(metadata(ConflictStrategy::CustomMerge, "numeric")));
    assert!(matches!(r, Err(ConflictResolutionError::StrategyNotApplicable(ref m)) if m == "Numeric merging not implemented"));
    let r = resolver.resolve(&reg("x", 3), &reg("y", 3), Some(metadata(ConflictStrategy::CustomMerge, "other")));
    assert!(r.is_ok());
}

#[test]
fn refused_merge_is_invalid_data() {
    let mut resolver = AdvancedConflictResolver::new();
    let r = resolver.resolve(&reg("x", 3), &reg("poison", 3), Some(metadata(ConflictStrategy::LastWriteWins, "text")));
    assert!(matches!(r, Err(ConflictResolutionError::InvalidData(ref m)) if m.starts_with("Merge failed: ")));
}

#[test]
fn default_resolver_merges_remote_into_local() {
    let resolver = DefaultConflictResolver;
    assert_eq!(resolver.resolve(&reg("old", 1), &reg("new", 2)).unwrap(), reg("new", 2));
    assert_eq!(resolver.resolve(&reg("keep", 5), &reg("older", 2)).unwrap(), reg("keep", 5));
    assert!(resolver.resolve(&reg("a", 1), &reg("poison", 2)).is_err());
}

#[test]
fn error_messages() {
    assert_eq!(ConflictResolutionError::Unresolvable("u".to_string()).message(), "Unresolvable conflict: u");
    assert_eq!(ConflictResolutionError::StrategyNotApplicable("s".to_string()).message(), "Strategy not applicable: s");
    assert_eq!(ConflictResolutionError::InvalidData("i".to_string()).message(), "Invalid conflict data: i");
}

#[test]
fn with_default_strategy_sets_it() {
    let r = AdvancedConflictResolver::new().with_default_strategy(ConflictStrategy::FirstWriteWins);
    assert_eq!(r.default_strategy(), ConflictStrategy::FirstWriteWins);
}

#[test]
fn test_conflict_resolution_with_different_strategies() {
    let mut resolver = AdvancedConflictResolver::new();
    let local = reg("local", 1);
    let remote = reg("remote", 2);
    assert!(resolver.resolve(&local, &remote, Some(metadata(ConflictStrategy::LastWriteWins, "text"))).is_ok());
    assert!(resolver.resolve(&local, &remote, Some(metadata(ConflictStrategy::FirstWriteWins, "text"))).is_ok());
    assert!(resolver.resolve(&local, &remote, Some(metadata(ConflictStrategy::CustomMerge, "text"))).is_ok());
}

#[test]
fn refused_merges_report_the_merge_error() {
    let resolver = DefaultConflictResolver;
    assert_eq!(resolver.resolve(&reg("a", 1), &reg("poison", 2)), Err("poisoned".to_string()));
    let mut advanced = AdvancedConflictResolver::new();
    let r = advanced.resolve(&reg("x", 3), &reg("poison", 3), Some(metadata(ConflictStrategy::LastWriteWins, "text")));
    assert!(matches!(r, Err(ConflictResolutionError::InvalidData(ref m)) if m == "Merge failed: poisoned"));
}
