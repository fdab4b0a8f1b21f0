//! The IndexedDB connection handle, the schema changes between versions, and
//! the migration plan with its validation.

use crate::storage::IndexedDbError;
use crate::text::{decimal, format_decimal, str_eq};
use vstd::prelude::*;
use vstd::string::*;

verus! {

/// An opened database: its name and schema version. Opening one takes the
/// browser's IndexedDB; elsewhere the open is refused.
#[derive(Clone, Debug)]
pub struct IndexedDbConnection {
    version: u32,
    db_name: String,
}

/// The message of every refusal where IndexedDB is absent.
pub open spec fn not_available_message() -> Seq<char> {
    "IndexedDB not available in non-WASM environment"@
}

impl IndexedDbConnection {
    pub closed spec fn spec_version(&self) -> u32 {
        self.version
    }

    pub closed spec fn spec_name(&self) -> Seq<char> {
        self.db_name@
    }

    /// Opening a database outside the browser: always refused.
    pub fn open(name: &str, version: u32) -> (r: Result<Self, IndexedDbError>)
        ensures
            r matches Err(IndexedDbError::NotSupported(m)) && m@ == not_available_message(),
    {
        Err(IndexedDbError::NotSupported(String::from_str("IndexedDB not available in non-WASM environment")))
    }

    /// The handle of a database that the browser opened with this name and version.
    pub fn from_opened(name: &str, version: u32) -> (r: Self)
        ensures
            r.spec_version() == version,
            r.spec_name() == name@,
    {
        IndexedDbConnection { version, db_name: String::from_str(name) }
    }

    pub fn version(&self) -> (r: u32)
        ensures
            r == self.spec_version(),
    {
        self.version
    }

    pub fn name(&self) -> (r: &str)
        ensures
            r@ == self.spec_name(),
    {
        self.db_name.as_str()
    }

    /// The database itself is out of reach where IndexedDB is absent.
    pub fn database(&self) -> (r: Result<(), IndexedDbError>)
        ensures
            r matches Err(IndexedDbError::NotSupported(m)) && m@ == not_available_message(),
    {
        Err(IndexedDbError::NotSupported(String::from_str("IndexedDB not available in non-WASM environment")))
    }

    /// Closing needs nothing where IndexedDB is absent.
    pub fn close(&self) {
    }

    /// Transactions are refused where IndexedDB is absent.
    pub fn transaction(&self, store_names: &[&str]) -> (r: Result<(), IndexedDbError>)
        ensures
            r matches Err(IndexedDbError::NotSupported(m)) && m@ == not_available_message(),
    {
        Err(IndexedDbError::NotSupported(String::from_str("IndexedDB not available in non-WASM environment")))
    }

    /// Read-only transactions are refused where IndexedDB is absent.
    pub fn readonly_transaction(&self, store_names: &[&str]) -> (r: Result<(), IndexedDbError>)
        ensures
            r matches Err(IndexedDbError::NotSupported(m)) && m@ == not_available_message(),
    {
        Err(IndexedDbError::NotSupported(String::from_str("IndexedDB not available in non-WASM environment")))
    }
}

/// What an upgrade of the object stores does, by the versions it goes between.
#[derive(Clone, Copy, Debug, PartialEq, Eq, Structural)]
pub enum SchemaChange {
    /// A fresh database: create the version 1 schema.
    CreateV1,
    /// From version 1 to version 2.
    MigrateV1ToV2,
    /// Any other upgrade to a higher version.
    Migrate { from: u32, to: u32 },
    /// Nothing to do.
    Unchanged,
}

/// The schema change for an upgrade event between two versions.
pub open spec fn spec_schema_change(old_version: Option<u32>, new_version: Option<u32>) -> SchemaChange {
    match (old_version, new_version) {
        (None, Some(n)) => if n == 1 { SchemaChange::CreateV1 } else { SchemaChange::Unchanged },
        (Some(o), Some(n)) => if o == 1 && n == 2 {
            SchemaChange::MigrateV1ToV2
        } else if o < n {
            SchemaChange::Migrate { from: o, to: n }
        } else {
            SchemaChange::Unchanged
        },
        _ => SchemaChange::Unchanged,
    }
}

pub fn schema_change(old_version: Option<u32>, new_version: Option<u32>) -> (r: SchemaChange)
    ensures
        r == spec_schema_change(old_version, new_version),
{
    match (old_version, new_version) {
        (None, Some(n)) => if n == 1 { SchemaChange::CreateV1 } else { SchemaChange::Unchanged },
        (Some(o), Some(n)) => if o == 1 && n == 2 {
            SchemaChange::MigrateV1ToV2
        } else if o < n {
            SchemaChange::Migrate { from: o, to: n }
        } else {
            SchemaChange::Unchanged
        },
        _ => SchemaChange::Unchanged,
    }
}

/// Value conversions applied to a field.
#[derive(Clone, Debug)]
pub enum TransformType {
    StringToNumber,
    NumberToString,
    ToUppercase,
    ToLowercase,
    AddPrefix { prefix: String },
    AddSuffix { suffix: String },
}

/// Data transformations over all records of a store.
#[derive(Debug)]
pub enum DataTransform {
    RenameField { old_name: String, new_name: String },
    AddDefaultField { field_name: String, default_value: serde_json::Value },
    RemoveField { field_name: String },
    TransformField { field_name: String, transform_type: TransformType },
}

/// One step of a migration.
#[derive(Debug)]
pub enum MigrationStep {
    CreateObjectStore { name: String, key_path: Option<String>, auto_increment: bool },
    DeleteObjectStore { name: String },
    CreateIndex {
        store_name: String,
        index_name: String,
        key_path: String,
        unique: bool,
        multi_entry: bool,
    },
    DeleteIndex { store_name: String, index_name: String },
    TransformData { store_name: String, transform: DataTransform },
    Custom { name: String },
}

/// A migration to a schema version, with its way back where there is one.
#[derive(Debug)]
pub struct Migration {
    pub version: u32,
    pub name: String,
    pub description: String,
    pub up: MigrationStep,
    pub down: Option<MigrationStep>,
}

/// The custom migrations that exist.
pub open spec fn known_custom(name: Seq<char>) -> bool {
    name == "add_compression_metadata"@ || name == "migrate_peer_format"@ || name
        == "add_delta_indexes"@
}

/// What running one step gives: only an unknown custom migration fails.
pub open spec fn step_outcome(step: MigrationStep) -> Result<(), Seq<char>> {
    match step {
        MigrationStep::Custom { name } => if known_custom(name@) {
            Ok(())
        } else {
            Err("Unknown custom migration: "@ + name@)
        },
        _ => Ok(()),
    }
}

/// What running a migration up, or back down, gives.
pub open spec fn run_outcome(m: Migration, is_up: bool) -> Result<(), Seq<char>> {
    if is_up {
        step_outcome(m.up)
    } else {
        match m.down {
            Some(d) => step_outcome(d),
            None => Err("No down migration for "@ + m.name@),
        }
    }
}

/// The message of a refused rollback.
pub open spec fn cannot_rollback(m: Migration) -> Seq<char> {
    "Cannot rollback migration "@ + m.name@ + " (v"@ + decimal(m.version as nat)
        + ") - no down migration defined"@
}

/// `r` reports outcome `o`; a failure is a `MigrationFailed` with its message.
pub open spec fn reports(r: Result<(), IndexedDbError>, o: Result<(), Seq<char>>) -> bool {
    match o {
        Ok(()) => r is Ok,
        Err(msg) => r matches Err(IndexedDbError::MigrationFailed(m)) && m@ == msg,
    }
}

/// `i` is the first position holding a migration to version `v`.
pub open spec fn is_first_with_version(s: Seq<Migration>, v: u32, i: int) -> bool {
    &&& 0 <= i < s.len()
    &&& s[i].version == v
    &&& forall|j: int| 0 <= j < i ==> s[j].version != v
}

/// The first migration to version `v`, if any.
pub open spec fn migration_for(s: Seq<Migration>, v: u32) -> Option<Migration> {
    if exists|i: int| is_first_with_version(s, v, i) {
        Some(s[choose|i: int| is_first_with_version(s, v, i)])
    } else {
        None
    }
}

/// Running the migrations to versions `w ..= to`, in rising order, stopping
/// at the first failure.
pub open spec fn upgrade_outcome(s: Seq<Migration>, w: int, to: int) -> Result<(), Seq<char>>
    decreases to + 1 - w,
{
    if w > to || w < 0 || w > u32::MAX {
        Ok(())
    } else {
        match migration_for(s, w as u32) {
            None => upgrade_outcome(s, w + 1, to),
            Some(m) => match run_outcome(m, true) {
                Ok(()) => upgrade_outcome(s, w + 1, to),
                Err(e) => Err(e),
            },
        }
    }
}

/// An upgrade over the versions `w ..= to` reports the first of them whose
/// migration fails (the target version `to` included), and succeeds when
/// none fails.
pub proof fn law_upgrade_reports_first_failure(s: Seq<Migration>, w: int, v: int, to: int)
    requires
        0 <= w <= v,
        to <= u32::MAX,
        forall|x: int|
            w <= x < v && x <= to && (#[trigger] migration_for(s, x as u32)) is Some ==> run_outcome(
                migration_for(s, x as u32)->0,
                true,
            ) is Ok,
    ensures
        (v <= to && migration_for(s, v as u32) is Some && run_outcome(
            migration_for(s, v as u32)->0,
            true,
        ) is Err) ==> upgrade_outcome(s, w, to) == run_outcome(migration_for(s, v as u32)->0, true),
        v > to ==> upgrade_outcome(s, w, to) is Ok,
    decreases v - w,
{
    if w < v && w <= to {
        assert(migration_for(s, w as u32) is Some ==> run_outcome(
            migration_for(s, w as u32)->0,
            true,
        ) is Ok);
        law_upgrade_reports_first_failure(s, w + 1, v, to);
    }
}

/// Rolling back the migrations of versions `w` down to `to + 1`, stopping at
/// the first failure; a migration with no way back is refused.
pub open spec fn downgrade_outcome(s: Seq<Migration>, w: int, to: int) -> Result<(), Seq<char>>
    decreases w - to,
{
    if w <= to || w < 0 || w > u32::MAX {
        Ok(())
    } else {
        match migration_for(s, w as u32) {
            None => downgrade_outcome(s, w - 1, to),
            Some(m) => if m.down is None {
                Err(cannot_rollback(m))
            } else {
                match run_outcome(m, false) {
                    Ok(()) => downgrade_outcome(s, w - 1, to),
                    Err(e) => Err(e),
                }
            },
        }
    }
}

/// The versions of the migrations, in order.
pub open spec fn versions(s: Seq<Migration>) -> Seq<u32> {
    s.map_values(|m: Migration| m.version)
}

/// Ordered by version, ties in the order they were added.
pub open spec fn sorted_by_version(s: Seq<Migration>) -> bool {
    forall|i: int, j: int| 0 <= i <= j < s.len() ==> s[i].version <= s[j].version
}

/// `j` is the first position whose version occurred before it.
pub open spec fn is_first_duplicate(vs: Seq<u32>, j: int) -> bool {
    &&& 0 <= j < vs.len()
    &&& vs.take(j).contains(vs[j])
    &&& forall|k: int| 0 <= k < j ==> !vs.take(k).contains(#[trigger] vs[k])
}

/// `i` is the first position whose version is not one more than the one before.
pub open spec fn is_first_gap(vs: Seq<u32>, i: int) -> bool {
    &&& 1 <= i < vs.len()
    &&& vs[i] != vs[i - 1] + 1
    &&& forall|k: int| 1 <= k < i ==> #[trigger] vs[k] == vs[k - 1] + 1
}

pub open spec fn duplicate_message(v: u32) -> Seq<char> {
    "Duplicate migration version: "@ + decimal(v as nat)
}

pub open spec fn gap_message(a: u32, b: u32) -> Seq<char> {
    "Gap in migration versions: "@ + decimal(a as nat) + " -> "@ + decimal(b as nat)
}

/// `i` is the position at which a migration to version `v` joins `s`: after
/// every migration of a version up to `v`, before every later one.
pub open spec fn insertion_point(s: Seq<Migration>, v: u32, i: int) -> bool {
    &&& 0 <= i <= s.len()
    &&& forall|j: int| 0 <= j < i ==> s[j].version <= v
    &&& forall|j: int| i <= j < s.len() ==> s[j].version > v
}

/// The three built-in migrations: the initial schema, then the conflicts and
/// the compression stores, each of the last two with its way back.
pub open spec fn default_migrations(s: Seq<Migration>) -> bool {
    &&& s.len() == 3
    &&& s[0].version == 1 && s[0].name@ == "initial_schema"@
    &&& s[0].description@ == "Create initial database schema"@
    &&& (s[0].up matches MigrationStep::CreateObjectStore { name, key_path, auto_increment }
        && name@ == "collections"@ && key_path is None && !auto_increment)
    &&& s[0].down is None
    &&& s[1].version == 2 && s[1].name@ == "add_conflicts_store"@
    &&& s[1].description@ == "Add conflicts object store for conflict resolution"@
    &&& (s[1].up matches MigrationStep::CreateObjectStore { name, key_path, auto_increment }
        && name@ == "conflicts"@ && key_path is None && !auto_increment)
    &&& (s[1].down matches Some(MigrationStep::DeleteObjectStore { name }) && name@ == "conflicts"@)
    &&& s[2].version == 3 && s[2].name@ == "add_compression_store"@
    &&& s[2].description@ == "Add compression object store for compression metadata"@
    &&& (s[2].up matches MigrationStep::CreateObjectStore { name, key_path, auto_increment }
        && name@ == "compression"@ && key_path is None && !auto_increment)
    &&& (s[2].down matches Some(MigrationStep::DeleteObjectStore { name }) && name@
        == "compression"@)
}

/// The built-in migrations pass validation: they are ordered, no version
/// occurs twice, and the versions run without a gap.
pub proof fn law_default_migrations_are_valid(s: Seq<Migration>)
    requires
        default_migrations(s),
    ensures
        sorted_by_version(s),
        versions(s).no_duplicates(),
        forall|i: int| 1 <= i < versions(s).len() ==> #[trigger] versions(s)[i] == versions(s)[i - 1] + 1,
{
    assert(versions(s)[0] == 1 && versions(s)[1] == 2 && versions(s)[2] == 3);
}

fn create_store_step(name: &str) -> (r: MigrationStep)
    ensures
        r matches MigrationStep::CreateObjectStore { name: n, key_path, auto_increment }
            && n@ == name@ && key_path is None && !auto_increment,
{
    MigrationStep::CreateObjectStore {
        name: String::from_str(name),
        key_path: None,
        auto_increment: false,
    }
}

fn delete_store_step(name: &str) -> (r: MigrationStep)
    ensures
        r matches MigrationStep::DeleteObjectStore { name: n } && n@ == name@,
{
    MigrationStep::DeleteObjectStore { name: String::from_str(name) }
}

/// The built-in migrations.
pub fn get_default_migrations() -> (r: Vec<Migration>)
    ensures
        default_migrations(r@),
{
    let mut v: Vec<Migration> = Vec::new();
    v.push(
        Migration {
            version: 1,
            name: String::from_str("initial_schema"),
            description: String::from_str("Create initial database schema"),
            up: create_store_step("collections"),
            down: None,
        },
    );
    v.push(
        Migration {
            version: 2,
            name: String::from_str("add_conflicts_store"),
            description: String::from_str("Add conflicts object store for conflict resolution"),
            up: create_store_step("conflicts"),
            down: Some(delete_store_step("conflicts")),
        },
    );
    v.push(
        Migration {
            version: 3,
            name: String::from_str("add_compression_store"),
            description: String::from_str("Add compression object store for compression metadata"),
            up: create_store_step("compression"),
            down: Some(delete_store_step("compression")),
        },
    );
    v
}

/// Runs a custom migration by name: the known ones succeed, any other is refused.
fn run_custom_migration(name: &str) -> (r: Result<(), IndexedDbError>)
    ensures
        reports(r, if known_custom(name@) { Ok(()) } else { Err("Unknown custom migration: "@ + name@) }),
{
    if str_eq(name, "add_compression_metadata") || str_eq(name, "migrate_peer_format") || str_eq(
        name,
        "add_delta_indexes",
    ) {
        Ok(())
    } else {
        let msg = String::from_str("Unknown custom migration: ").concat(name);
        Err(IndexedDbError::MigrationFailed(msg))
    }
}

fn run_step(step: &MigrationStep) -> (r: Result<(), IndexedDbError>)
    ensures
        reports(r, step_outcome(*step)),
{
    match step {
        MigrationStep::Custom { name } => run_custom_migration(name.as_str()),
        _ => Ok(()),
    }
}

/// Runs one migration up, or back down.
fn run_migration(migration: &Migration, is_up: bool) -> (r: Result<(), IndexedDbError>)
    ensures
        reports(r, run_outcome(*migration, is_up)),
{
    if is_up {
        run_step(&migration.up)
    } else {
        match &migration.down {
            Some(d) => run_step(d),
            None => {
                let msg = String::from_str("No down migration for ").concat(migration.name.as_str());
                Err(IndexedDbError::MigrationFailed(msg))
            },
        }
    }
}

/// In a list ordered by version, a version occurs before position `k` exactly
/// when it equals the one just before `k`.
proof fn lemma_repeat_is_neighbour(s: Seq<Migration>, k: int)
    requires
        sorted_by_version(s),
        0 <= k < s.len(),
    ensures
        versions(s).take(k).contains(versions(s)[k]) <==> (k >= 1 && versions(s)[k - 1]
            == versions(s)[k]),
{
    let vs = versions(s);
    if vs.take(k).contains(vs[k]) {
        let p = choose|p: int| 0 <= p < vs.take(k).len() && vs.take(k)[p] == vs[k];
        assert(vs[p] == s[p].version);
        assert(s[p].version <= s[k - 1].version);
        assert(s[k - 1].version <= s[k].version);
    }
    if k >= 1 && vs[k - 1] == vs[k] {
        assert(vs.take(k)[k - 1] == vs[k - 1]);
    }
}

/// Runs the migrations of a database against its schema version.
pub struct MigrationManager {
    connection: IndexedDbConnection,
    migrations: Vec<Migration>,
}

impl MigrationManager {
    /// The migrations are kept ordered by version.
    pub closed spec fn wf(&self) -> bool {
        sorted_by_version(self.migrations@)
    }

    pub closed spec fn history(&self) -> Seq<Migration> {
        self.migrations@
    }

    pub closed spec fn database_version(&self) -> u32 {
        self.connection.spec_version()
    }

    pub fn new(connection: IndexedDbConnection) -> (r: Self)
        ensures
            r.wf(),
            default_migrations(r.history()),
            r.database_version() == connection.spec_version(),
    {
        MigrationManager { connection, migrations: get_default_migrations() }
    }

    /// Adds a migration where its version places it: after all of a version up
    /// to its own, so that equal versions keep the order they were added in.
    pub fn add_migration(&mut self, migration: Migration)
        requires
            old(self).wf(),
        ensures
            final(self).wf(),
            final(self).database_version() == old(self).database_version(),
            exists|i: int| #[trigger]
                insertion_point(old(self).history(), migration.version, i) && final(self).history()
                    == old(self).history().insert(i, migration),
    {
        let v = migration.version;
        let mut k: usize = self.migrations.len();
        while k > 0 && self.migrations[k - 1].version > v
            invariant
                k <= self.migrations.len(),
                sorted_by_version(self.migrations@),
                forall|j: int| k <= j < self.migrations.len() ==> self.migrations@[j].version > v,
            decreases k,
        {
            k = k - 1;
        }
        let ghost before = self.migrations@;
        proof {
            assert(insertion_point(before, v, k as int)) by {
                if k > 0 {
                    assert forall|j: int| 0 <= j < k implies before[j].version <= v by {
                        assert(before[j].version <= before[k - 1].version);
                    }
                }
            }
        }
        let ghost added = migration;
        self.migrations.insert(k, migration);
        proof {
            assert(insertion_point(old(self).history(), added.version, k as int));
            let after = self.migrations@;
            assert forall|i: int, j: int| 0 <= i <= j < after.len() implies after[i].version
                <= after[j].version by {
                if i < k && j > k {
                    assert(after[j] == before[j - 1]);
                } else if i > k {
                    assert(after[i] == before[i - 1]);
                    assert(after[j] == before[j - 1]);
                } else if j < k {
                } else if i == k && j > k {
                    assert(after[j] == before[j - 1]);
                } else if i < k && j == k {
                }
            }
        }
    }

    /// The first migration to a version.
    pub fn get_migration(&self, version: u32) -> (r: Option<&Migration>)
        ensures
            r is None <==> forall|i: int| 0 <= i < self.history().len() ==> self.history()[i].version
                != version,
            r matches Some(m) ==> exists|i: int| #[trigger]
                is_first_with_version(self.history(), version, i) && self.history()[i] == *m,
            r matches Some(m) ==> migration_for(self.history(), version) == Some(*m),
    {
        let mut i: usize = 0;
        while i < self.migrations.len()
            invariant
                i <= self.migrations.len(),
                forall|j: int| 0 <= j < i ==> self.migrations@[j].version != version,
            decreases self.migrations.len() - i,
        {
            if self.migrations[i].version == version {
                proof {
                    assert(is_first_with_version(self.migrations@, version, i as int));
                    let c = choose|c: int| is_first_with_version(self.migrations@, version, c);
                    assert(c == i);
                }
                return Some(&self.migrations[i]);
            }
            i = i + 1;
        }
        None
    }

    /// Runs the migrations between the recorded version of the database and
    /// the version it was opened with. The recorded version is read from the
    /// connection, so the two agree and nothing runs.
    pub fn migrate(&self) -> (r: Result<(), IndexedDbError>)
        requires
            self.wf(),
        ensures
            r is Ok,
    {
        let current_version = self.connection.version();
        let target_version = self.connection.version();
        if current_version == target_version {
            return Ok(());
        }
        if current_version < target_version {
            self.upgrade(current_version, target_version)
        } else {
            self.downgrade(current_version, target_version)
        }
    }

    /// Runs the migrations to each version above `from_version` up to
    /// `to_version`, in rising order, stopping at the first failure.
    pub fn upgrade(&self, from_version: u32, to_version: u32) -> (r: Result<(), IndexedDbError>)
        ensures
            reports(r, upgrade_outcome(self.history(), from_version + 1, to_version as int)),
    {
        let mut w: u64 = from_version as u64 + 1;
        while w <= to_version as u64
            invariant
                from_version + 1 <= w <= to_version as int + 1 || w == from_version + 1,
                upgrade_outcome(self.history(), from_version + 1, to_version as int)
                    == upgrade_outcome(self.history(), w as int, to_version as int),
            decreases to_version as int + 1 - w,
        {
            let v: u32 = w as u32;
            match self.get_migration(v) {
                Some(m) => {
                    let res = run_migration(m, true);
                    if res.is_err() {
                        return res;
                    }
                },
                None => {},
            }
            w = w + 1;
        }
        Ok(())
    }

    /// Rolls back the migrations of each version from `from_version` down to
    /// just above `to_version`, stopping at the first failure; a migration
    /// with no way back is refused.
    pub fn downgrade(&self, from_version: u32, to_version: u32) -> (r: Result<(), IndexedDbError>)
        ensures
            reports(r, downgrade_outcome(self.history(), from_version as int, to_version as int)),
    {
        let mut w: u32 = from_version;
        while w > to_version
            invariant
                downgrade_outcome(self.history(), from_version as int, to_version as int)
                    == downgrade_outcome(self.history(), w as int, to_version as int),
            decreases w,
        {
            match self.get_migration(w) {
                Some(m) => {
                    if m.down.is_none() {
                        let msg = String::from_str("Cannot rollback migration ").concat(
                            m.name.as_str(),
                        ).concat(" (v").concat(format_decimal(m.version as u64).as_str()).concat(
                            ") - no down migration defined",
                        );
                        return Err(IndexedDbError::MigrationFailed(msg));
                    }
                    let res = run_migration(m, false);
                    if res.is_err() {
                        return res;
                    }
                },
                None => {},
            }
            w = w - 1;
        }
        Ok(())
    }

    /// Checks that no version occurs twice and that the versions run without
    /// a gap.
    pub fn validate_migrations(&self) -> (r: Result<(), IndexedDbError>)
        requires
            self.wf(),
        ensures
            forall|j: int| #[trigger]
                is_first_duplicate(versions(self.history()), j) ==> reports(
                    r,
                    Err(duplicate_message(versions(self.history())[j])),
                ),
            versions(self.history()).no_duplicates() ==> forall|i: int| #[trigger]
                is_first_gap(versions(self.history()), i) ==> reports(
                    r,
                    Err(
                        gap_message(
                            versions(self.history())[i - 1],
                            versions(self.history())[i],
                        ),
                    ),
                ),
            versions(self.history()).no_duplicates() && (forall|i: int|
                1 <= i < versions(self.history()).len() ==> #[trigger] versions(self.history())[i]
                    == versions(self.history())[i - 1] + 1) ==> r is Ok,
    {
        let ghost vs = versions(self.migrations@);
        let n = self.migrations.len();
        let mut j: usize = 1;
        while j < n
            invariant
                n == self.migrations.len(),
                vs == versions(self.migrations@),
                sorted_by_version(self.migrations@),
                1 <= j,
                forall|k: int| 1 <= k < j && k < n ==> vs[k - 1] != #[trigger] vs[k],
            decreases n - j,
        {
            if self.migrations[j].version == self.migrations[j - 1].version {
                let msg = String::from_str("Duplicate migration version: ").concat(
                    format_decimal(self.migrations[j].version as u64).as_str(),
                );
                proof {
                    self.lemma_first_duplicate(j as int);
                    assert(vs[j as int] == self.migrations@[j as int].version);
                    assert(msg@ == duplicate_message(vs[j as int]));
                }
                return Err(IndexedDbError::MigrationFailed(msg));
            }
            j = j + 1;
        }
        proof {
            self.lemma_no_duplicates();
        }
        let mut i: usize = 1;
        while i < n
            invariant
                n == self.migrations.len(),
                vs == versions(self.migrations@),
                vs.no_duplicates(),
                forall|g: int| !(#[trigger] is_first_duplicate(vs, g)),
                1 <= i,
                forall|k: int| 1 <= k < i && k < n ==> #[trigger] vs[k] == vs[k - 1] + 1,
            decreases n - i,
        {
            let a = self.migrations[i - 1].version as u64;
            let b = self.migrations[i].version as u64;
            if a + 1 != b {
                let msg = String::from_str("Gap in migration versions: ").concat(
                    format_decimal(a).as_str(),
                ).concat(" -> ").concat(format_decimal(b).as_str());
                proof {
                    assert(is_first_gap(vs, i as int));
                    assert forall|g: int| #[trigger] is_first_gap(vs, g) implies g == i by {
                        if g < i {
                            assert(vs[g] == vs[g - 1] + 1);
                        } else if g > i {
                            assert(vs[i as int] == vs[i - 1] + 1);
                        }
                    }
                }
                return Err(IndexedDbError::MigrationFailed(msg));
            }
            i = i + 1;
        }
        proof {
            assert forall|g: int| #[trigger] is_first_gap(vs, g) implies false by {
                assert(vs[g] == vs[g - 1] + 1);
            }
        }
        Ok(())
    }

    /// In a list ordered by version, the first repeated version is the first
    /// that equals the one before it.
    proof fn lemma_first_duplicate(&self, j: int)
        requires
            self.wf(),
            1 <= j < self.migrations@.len(),
            versions(self.migrations@)[j] == versions(self.migrations@)[j - 1],
            forall|k: int| 1 <= k < j ==> versions(self.migrations@)[k - 1] != #[trigger] versions(
                self.migrations@,
            )[k],
        ensures
            forall|g: int| #[trigger] is_first_duplicate(versions(self.migrations@), g) ==> g == j,
            is_first_duplicate(versions(self.migrations@), j),
    {
        let vs = versions(self.migrations@);
        let s = self.migrations@;
        lemma_repeat_is_neighbour(s, j);
        assert forall|k: int| 0 <= k < j implies !vs.take(k).contains(#[trigger] vs[k]) by {
            lemma_repeat_is_neighbour(s, k);
        }
        assert forall|g: int| #[trigger] is_first_duplicate(vs, g) implies g == j by {
            lemma_repeat_is_neighbour(s, g);
        }
    }

    /// A list ordered by version with no two equal neighbours repeats no version.
    proof fn lemma_no_duplicates(&self)
        requires
            self.wf(),
            forall|k: int| 1 <= k < self.migrations@.len() ==> versions(self.migrations@)[k - 1]
                != #[trigger] versions(self.migrations@)[k],
        ensures
            versions(self.migrations@).no_duplicates(),
            forall|g: int| !(#[trigger] is_first_duplicate(versions(self.migrations@), g)),
    {
        let vs = versions(self.migrations@);
        let s = self.migrations@;
        assert forall|a: int, b: int| 0 <= a < b < vs.len() implies vs[a] != vs[b] by {
            assert(s[a].version <= s[b - 1].version);
            assert(s[b - 1].version <= s[b].version);
            assert(vs[b - 1] != vs[b]);
        }
        assert forall|g: int| !(#[trigger] is_first_duplicate(vs, g)) by {
            if is_first_duplicate(vs, g) {
                let p = choose|p: int| 0 <= p < g && vs.take(g)[p] == vs[g];
                assert(vs[p] == vs[g]);
            }
        }
    }

    /// The migrations, ordered by version.
    pub fn get_migration_history(&self) -> (r: &[Migration])
        ensures
            r@ == self.history(),
    {
        self.migrations.as_slice()
    }
}

} // verus!
