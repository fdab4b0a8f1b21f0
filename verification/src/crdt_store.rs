//! CRDT-specific storage: deltas, collection metadata and peers, each kept
//! in an object store keyed by id.

use crate::ids::now_millis;
use crate::keyed::KeyedMap;
use crate::storage::IndexedDbError;
use vstd::multiset::Multiset;
use vstd::prelude::*;
use vstd::string::*;
use crate::text::{decimal, format_decimal};

verus! {

/// CRDT delta record for storage.
#[derive(Clone, Debug, PartialEq, Eq)]
pub struct DeltaRecord {
    pub id: String,
    pub collection_id: String,
    pub delta: Vec<u8>,
    pub timestamp: u64,
    pub replica_id: String,
    pub operation_type: String,
}

/// What a delta record holds.
pub struct DeltaView {
    pub id: Seq<char>,
    pub collection_id: Seq<char>,
    pub delta: Seq<u8>,
    pub timestamp: u64,
    pub replica_id: Seq<char>,
    pub operation_type: Seq<char>,
}

impl View for DeltaRecord {
    type V = DeltaView;

    open spec fn view(&self) -> DeltaView {
        DeltaView {
            id: self.id@,
            collection_id: self.collection_id@,
            delta: self.delta@,
            timestamp: self.timestamp,
            replica_id: self.replica_id@,
            operation_type: self.operation_type@,
        }
    }
}

/// The views of a sequence of delta records.
pub open spec fn delta_views(s: Seq<DeltaRecord>) -> Seq<DeltaView> {
    s.map_values(|d: DeltaRecord| d@)
}

/// CRDT collection metadata.
#[derive(Debug, PartialEq, Eq)]
pub struct CollectionMetadata {
    pub id: String,
    pub name: String,
    pub crdt_type: String,
    pub version: u32,
    pub last_sync: u64,
    pub replica_count: u32,
}

/// CRDT peer information.
#[derive(Debug, PartialEq, Eq)]
pub struct PeerInfo {
    pub id: String,
    pub last_seen: u64,
    pub status: String,
    pub version: u32,
}

/// Storage statistics.
#[derive(Clone, Copy, Debug, PartialEq, Eq, Structural)]
pub struct StorageStats {
    pub collections_count: usize,
    pub deltas_count: usize,
    pub peers_count: usize,
}

/// The id of a delta: collection, timestamp and replica joined by `#`.
pub open spec fn spec_delta_id(collection: Seq<char>, timestamp: u64, replica: Seq<char>) -> Seq<
    char,
> {
    collection + "#"@ + decimal(timestamp as nat) + "#"@ + replica
}

pub fn delta_id(collection_id: &str, timestamp: u64, replica_id: &str) -> (r: String)
    ensures
        r@ == spec_delta_id(collection_id@, timestamp, replica_id@),
{
    let ts = format_decimal(timestamp);
    String::from_str(collection_id).concat("#").concat(ts.as_str()).concat("#").concat(replica_id)
}

/// A timestamp lies in the optional, inclusive bounds.
pub open spec fn in_range(t: u64, from: Option<u64>, to: Option<u64>) -> bool {
    (from matches Some(f) ==> t >= f) && (to matches Some(u) ==> t <= u)
}

/// A delta of the collection within the bounds.
pub open spec fn selected(d: DeltaView, collection: Seq<char>, from: Option<u64>, to: Option<u64>) -> bool {
    d.collection_id == collection && in_range(d.timestamp, from, to)
}

/// A window query returns exactly the deltas of the asked collection that
/// lie in the window: none before `from`, none after `to`, and every stored
/// one in between.
pub proof fn law_window_query_returns_the_window(
    all: Seq<DeltaView>,
    out: Seq<DeltaView>,
    collection: Seq<char>,
    from: Option<u64>,
    to: Option<u64>,
)
    requires
        out.to_multiset() == all.filter(|d: DeltaView| selected(d, collection, from, to)).to_multiset(),
    ensures
        forall|i: int|
            0 <= i < out.len() ==> {
                &&& (#[trigger] out[i]).collection_id == collection
                &&& from matches Some(f) ==> out[i].timestamp >= f
                &&& to matches Some(u) ==> out[i].timestamp <= u
            },
        forall|j: int|
            0 <= j < all.len() && (#[trigger] all[j]).collection_id == collection && (from matches Some(
                f,
            ) ==> all[j].timestamp >= f) && (to matches Some(u) ==> all[j].timestamp <= u)
                ==> out.contains(all[j]),
{
    broadcast use vstd::seq_lib::group_to_multiset_ensures;
    broadcast use vstd::seq_lib::group_filter_ensures;

    let pred = |d: DeltaView| selected(d, collection, from, to);
    let f = all.filter(pred);
    assert forall|i: int| 0 <= i < out.len() implies {
        &&& (#[trigger] out[i]).collection_id == collection
        &&& from matches Some(fr) ==> out[i].timestamp >= fr
        &&& to matches Some(u) ==> out[i].timestamp <= u
    } by {
        assert(out.to_multiset().count(out[i]) > 0);
        assert(f.contains(out[i]));
        let k = choose|k: int| 0 <= k < f.len() && f[k] == out[i];
        assert(pred(f[k]));
    }
    assert forall|j: int|
        0 <= j < all.len() && (#[trigger] all[j]).collection_id == collection && (from matches Some(
            fr,
        ) ==> all[j].timestamp >= fr) && (to matches Some(u) ==> all[j].timestamp <= u)
        implies out.contains(all[j]) by {
        assert(pred(all[j]));
        assert(f.contains(all[j]));
        assert(f.to_multiset().count(all[j]) > 0);
        assert(out.to_multiset().count(all[j]) > 0);
    }
}

/// Ordered by timestamp, oldest first.
pub open spec fn sorted_by_time(s: Seq<DeltaView>) -> bool {
    forall|i: int, j: int| 0 <= i < j < s.len() ==> #[trigger] s[i].timestamp <= #[trigger] s[j].timestamp
}

proof fn lemma_insert_multiset(s: Seq<DeltaView>, pos: int, x: DeltaView)
    requires
        0 <= pos <= s.len(),
    ensures
        s.insert(pos, x).to_multiset() =~= s.to_multiset().insert(x),
{
    broadcast use vstd::seq_lib::group_to_multiset_ensures;

    let t = s.insert(pos, x);
    s.insert_ensures(pos, x);
    assert(t.remove(pos) =~= s);
    assert(t.remove(pos).to_multiset() =~= t.to_multiset().remove(t[pos]));
    assert(t.contains(x));
    assert(t.to_multiset().count(x) > 0);
}

/// Inserts a delta after every delta that is not newer.
fn insert_by_time(out: &mut Vec<DeltaRecord>, x: DeltaRecord)
    requires
        sorted_by_time(delta_views(old(out)@)),
    ensures
        sorted_by_time(delta_views(final(out)@)),
        delta_views(final(out)@).to_multiset() == delta_views(old(out)@).to_multiset().insert(x@),
{
    let mut pos: usize = 0;
    while pos < out.len()
        invariant
            pos <= out@.len(),
            forall|k: int| 0 <= k < pos ==> #[trigger] delta_views(out@)[k].timestamp <= x.timestamp,
            sorted_by_time(delta_views(out@)),
        ensures
            pos <= out@.len(),
            forall|k: int| 0 <= k < pos ==> #[trigger] delta_views(out@)[k].timestamp <= x.timestamp,
            pos < out@.len() ==> delta_views(out@)[pos as int].timestamp > x.timestamp,
        decreases out@.len() - pos,
    {
        if out[pos].timestamp > x.timestamp {
            break;
        }
        pos = pos + 1;
    }
    proof {
        if pos < out@.len() {
            assert(delta_views(out@)[pos as int].timestamp > x.timestamp);
        }
    }
    let ghost before = delta_views(out@);
    let ghost xv = x@;
    out.insert(pos, x);
    proof {
        assert(delta_views(out@) =~= before.insert(pos as int, xv));
        lemma_insert_multiset(before, pos as int, xv);
        lemma_insert_sorted(before, pos as int, xv);
    }
}

proof fn lemma_insert_sorted(before: Seq<DeltaView>, pos: int, x: DeltaView)
    requires
        0 <= pos <= before.len(),
        sorted_by_time(before),
        forall|k: int| 0 <= k < pos ==> #[trigger] before[k].timestamp <= x.timestamp,
        pos < before.len() ==> before[pos].timestamp > x.timestamp,
    ensures
        sorted_by_time(before.insert(pos, x)),
{
    before.insert_ensures(pos, x);
    let outv = before.insert(pos, x);
    assert forall|i: int, j: int| 0 <= i < j < outv.len() implies #[trigger] outv[i].timestamp
        <= #[trigger] outv[j].timestamp by {
        if j < pos {
            assert(outv[i] == before[i] && outv[j] == before[j]);
        } else if j == pos {
            assert(outv[i] == before[i]);
        } else if i < pos {
            assert(outv[i] == before[i] && outv[j] == before[j - 1]);
            assert(before[i].timestamp <= x.timestamp);
        } else if i == pos {
            assert(outv[j] == before[j - 1]);
            assert(before[pos].timestamp <= before[j - 1].timestamp || pos == j - 1);
        } else {
            assert(outv[i] == before[i - 1] && outv[j] == before[j - 1]);
        }
    }
}

/// The deltas of a collection within the bounds, oldest first.
pub fn select_deltas(
    records: &Vec<DeltaRecord>,
    collection_id: &str,
    from_timestamp: Option<u64>,
    to_timestamp: Option<u64>,
) -> (r: Vec<DeltaRecord>)
    ensures
        sorted_by_time(delta_views(r@)),
        delta_views(r@).to_multiset() == delta_views(records@).filter(
            |d: DeltaView| selected(d, collection_id@, from_timestamp, to_timestamp),
        ).to_multiset(),
{
    broadcast use vstd::seq_lib::group_to_multiset_ensures;

    let ghost pred = |d: DeltaView| selected(d, collection_id@, from_timestamp, to_timestamp);
    let mut out: Vec<DeltaRecord> = Vec::new();
    let mut i: usize = 0;
    proof {
        assert(delta_views(out@) =~= Seq::<DeltaView>::empty());
        assert(delta_views(records@).subrange(0, 0).filter(pred) =~= Seq::<DeltaView>::empty());
        assert(Seq::<DeltaView>::empty().to_multiset() =~= Multiset::<DeltaView>::empty());
    }
    while i < records.len()
        invariant
            i <= records@.len(),
            sorted_by_time(delta_views(out@)),
            pred == (|d: DeltaView| selected(d, collection_id@, from_timestamp, to_timestamp)),
            delta_views(out@).to_multiset() == delta_views(records@).subrange(0, i as int).filter(
                pred,
            ).to_multiset(),
        decreases records@.len() - i,
    {
        let d = &records[i];
        let within = match from_timestamp {
            Some(f) => d.timestamp >= f,
            None => true,
        } && match to_timestamp {
            Some(t) => d.timestamp <= t,
            None => true,
        };
        let same = crate::text::str_eq(d.collection_id.as_str(), collection_id);
        proof {
            let vs = delta_views(records@);
            let s = vs.subrange(0, i as int);
            assert(vs.subrange(0, i + 1) =~= s.push(vs[i as int]));
            s.lemma_filter_push(vs[i as int], pred);
        }
        let ghost vs = delta_views(records@);
        let ghost prev = vs.subrange(0, i as int).filter(pred);
        if same && within {
            assert(pred(vs[i as int]));
            insert_by_time(&mut out, d.clone_record());
            assert(vs.subrange(0, i + 1).filter(pred) == prev.push(vs[i as int]));
            proof {
                prev.to_multiset_ensures();
            }
        } else {
            assert(!pred(vs[i as int]));
            assert(vs.subrange(0, i + 1).filter(pred) == prev);
        }
        i = i + 1;
    }
    assert(delta_views(records@).subrange(0, records@.len() as int) =~= delta_views(records@));
    out
}

impl DeltaRecord {
    /// A copy of the record.
    pub fn clone_record(&self) -> (r: DeltaRecord)
        ensures
            r.id@ == self.id@,
            r.collection_id@ == self.collection_id@,
            r.delta@ == self.delta@,
            r.timestamp == self.timestamp,
            r.replica_id@ == self.replica_id@,
            r.operation_type@ == self.operation_type@,
            r@ == self@,
    {
        DeltaRecord {
            id: self.id.clone(),
            collection_id: self.collection_id.clone(),
            delta: self.delta.clone(),
            timestamp: self.timestamp,
            replica_id: self.replica_id.clone(),
            operation_type: self.operation_type.clone(),
        }
    }
}

impl Clone for CollectionMetadata {
    fn clone(&self) -> (r: Self)
        ensures
            r == *self,
    {
        CollectionMetadata {
            id: self.id.clone(),
            name: self.name.clone(),
            crdt_type: self.crdt_type.clone(),
            version: self.version,
            last_sync: self.last_sync,
            replica_count: self.replica_count,
        }
    }
}

impl Clone for PeerInfo {
    fn clone(&self) -> (r: Self)
        ensures
            r == *self,
    {
        PeerInfo {
            id: self.id.clone(),
            last_seen: self.last_seen,
            status: self.status.clone(),
            version: self.version,
        }
    }
}

/// Milliseconds since the Unix epoch, as the stores count them (a clock
/// before the epoch counts as zero): a clock reading, so at most `i64::MAX`.
fn clock_millis() -> (r: u64)
    ensures
        r <= i64::MAX,
{
    let t = now_millis();
    if t < 0 {
        0
    } else {
        t as u64
    }
}

/// A peer's record with a new last-seen time.
pub open spec fn peer_seen(p: PeerInfo, t: u64) -> PeerInfo {
    PeerInfo { last_seen: t, ..p }
}

/// The ids of the given deltas.
pub open spec fn ids_of(s: Seq<DeltaView>) -> Set<Seq<char>> {
    s.map_values(|d: DeltaView| d.id).to_set()
}

/// The CRDT object stores: deltas, collection metadata and peers, each keyed
/// by the record's id.
#[derive(Debug)]
pub struct CrdtStore {
    deltas: KeyedMap<String, DeltaRecord>,
    metadata: KeyedMap<String, CollectionMetadata>,
    peers: KeyedMap<String, PeerInfo>,
}

impl CrdtStore {
    pub closed spec fn wf(&self) -> bool {
        &&& self.deltas.wf()
        &&& self.metadata.wf()
        &&& self.peers.wf()
        &&& forall|k: Seq<char>| #[trigger] self.deltas.map().contains_key(k) ==> self.deltas.map()[k].id@ == k
        &&& forall|k: Seq<char>| #[trigger] self.peers.map().contains_key(k) ==> self.peers.map()[k].id@ == k
    }

    /// The delta store: id to record.
    pub closed spec fn delta_store(&self) -> Map<Seq<char>, DeltaView> {
        self.deltas.map().map_values(|d: DeltaRecord| d@)
    }

    /// The stored deltas, in store order.
    pub closed spec fn delta_seq(&self) -> Seq<DeltaView> {
        self.deltas.entries().map_values(|e: (String, DeltaRecord)| e.1@)
    }

    /// The stored deltas of a collection, in store order.
    pub closed spec fn selection(&self, collection: Seq<char>) -> Seq<DeltaView> {
        self.delta_seq().filter(|d: DeltaView| selected(d, collection, None, None))
    }

    /// The stored collection metadata, in store order.
    pub closed spec fn metadata_seq(&self) -> Seq<CollectionMetadata> {
        self.metadata.entries().map_values(|e: (String, CollectionMetadata)| e.1)
    }

    /// The stored peers, in store order.
    pub closed spec fn peer_seq(&self) -> Seq<PeerInfo> {
        self.peers.entries().map_values(|e: (String, PeerInfo)| e.1)
    }

    pub closed spec fn metadata_store(&self) -> Map<Seq<char>, CollectionMetadata> {
        self.metadata.map()
    }

    pub closed spec fn peer_store(&self) -> Map<Seq<char>, PeerInfo> {
        self.peers.map()
    }

    pub fn new() -> (r: Self)
        ensures
            r.wf(),
            r.delta_store() == Map::<Seq<char>, DeltaView>::empty(),
            r.metadata_store() == Map::<Seq<char>, CollectionMetadata>::empty(),
            r.peer_store() == Map::<Seq<char>, PeerInfo>::empty(),
    {
        let r = CrdtStore { deltas: KeyedMap::new(), metadata: KeyedMap::new(), peers: KeyedMap::new() };
        assert(r.delta_store() =~= Map::<Seq<char>, DeltaView>::empty());
        r
    }

    /// Stores a delta taken at the given time, under the id
    /// `<collection>#<timestamp>#<replica>`.
    pub fn store_delta_at(
        &mut self,
        collection_id: &str,
        delta: &[u8],
        replica_id: &str,
        operation_type: &str,
        timestamp: u64,
    ) -> (r: Result<(), IndexedDbError>)
        requires
            old(self).wf(),
        ensures
            final(self).wf(),
            r is Ok,
            final(self).delta_store() == old(self).delta_store().insert(
                spec_delta_id(collection_id@, timestamp, replica_id@),
                DeltaView {
                    id: spec_delta_id(collection_id@, timestamp, replica_id@),
                    collection_id: collection_id@,
                    delta: delta@,
                    timestamp,
                    replica_id: replica_id@,
                    operation_type: operation_type@,
                },
            ),
            final(self).metadata_store() == old(self).metadata_store(),
            final(self).peer_store() == old(self).peer_store(),
    {
        let id = delta_id(collection_id, timestamp, replica_id);
        let record = DeltaRecord {
            id: id.clone(),
            collection_id: String::from_str(collection_id),
            delta: vstd::slice::slice_to_vec(delta),
            timestamp,
            replica_id: String::from_str(replica_id),
            operation_type: String::from_str(operation_type),
        };
        let ghost rv = record@;
        self.deltas.insert(id, record);
        assert(self.delta_store() =~= old(self).delta_store().insert(rv.id, rv));
        Ok(())
    }

    /// Stores a delta taken now.
    pub fn store_delta(
        &mut self,
        collection_id: &str,
        delta: &[u8],
        replica_id: &str,
        operation_type: &str,
    ) -> (r: Result<(), IndexedDbError>)
        requires
            old(self).wf(),
        ensures
            final(self).wf(),
            r is Ok,
            exists|t: u64|
                #[trigger] spec_delta_id(collection_id@, t, replica_id@) == spec_delta_id(collection_id@, t, replica_id@)
                && final(self).delta_store() == old(self).delta_store().insert(
                    spec_delta_id(collection_id@, t, replica_id@),
                    DeltaView {
                        id: spec_delta_id(collection_id@, t, replica_id@),
                        collection_id: collection_id@,
                        delta: delta@,
                        timestamp: t,
                        replica_id: replica_id@,
                        operation_type: operation_type@,
                    },
                ),
            final(self).metadata_store() == old(self).metadata_store(),
            final(self).peer_store() == old(self).peer_store(),
    {
        let t = clock_millis();
        let r = self.store_delta_at(collection_id, delta, replica_id, operation_type, t);
        assert(spec_delta_id(collection_id@, t, replica_id@) == spec_delta_id(collection_id@, t, replica_id@));
        r
    }

    /// Copies of every stored delta, in store order.
    fn all_deltas(&self) -> (r: Vec<DeltaRecord>)
        requires
            self.wf(),
        ensures
            delta_views(r@) == self.delta_seq(),
    {
        let mut out: Vec<DeltaRecord> = Vec::new();
        let mut i: usize = 0;
        while i < self.deltas.entry_count()
            invariant
                self.wf(),
                i <= self.deltas.entries().len(),
                delta_views(out@) == self.delta_seq().subrange(0, i as int),
            decreases self.deltas.entries().len() - i,
        {
            let (_k, d) = self.deltas.entry_at(i);
            let c = d.clone_record();
            let ghost prev = out@;
            out.push(c);
            assert(self.delta_seq()[i as int] == d@);
            assert(out@ == prev.push(c));
            assert(delta_views(out@) =~= delta_views(prev).push(c@));
            assert(delta_views(out@) =~= self.delta_seq().subrange(0, i + 1));
            i = i + 1;
        }
        assert(self.delta_seq().subrange(0, i as int) =~= self.delta_seq());
        out
    }

    /// The deltas of a collection within the optional, inclusive time
    /// bounds, oldest first.
    pub fn get_deltas(
        &self,
        collection_id: &str,
        from_timestamp: Option<u64>,
        to_timestamp: Option<u64>,
    ) -> (r: Result<Vec<DeltaRecord>, IndexedDbError>)
        requires
            self.wf(),
        ensures
            r matches Ok(v) && sorted_by_time(delta_views(v@)) && delta_views(v@).to_multiset()
                == self.delta_seq().filter(
                |d: DeltaView| selected(d, collection_id@, from_timestamp, to_timestamp),
            ).to_multiset(),
    {
        let all = self.all_deltas();
        Ok(select_deltas(&all, collection_id, from_timestamp, to_timestamp))
    }

    /// The newest delta of a collection.
    pub fn get_latest_delta(&self, collection_id: &str) -> (r: Result<Option<DeltaRecord>, IndexedDbError>)
        requires
            self.wf(),
        ensures
            r matches Ok(found) && (found is None <==> self.selection(collection_id@).len() == 0),
            r matches Ok(Some(d)) ==> self.selection(collection_id@).contains(d@) && forall|i: int|
                0 <= i < self.selection(collection_id@).len() ==> #[trigger] self.selection(
                    collection_id@,
                )[i].timestamp <= d.timestamp,
    {
        broadcast use vstd::seq_lib::group_to_multiset_ensures;

        let mut deltas = match self.get_deltas(collection_id, None, None) {
            Ok(v) => v,
            Err(e) => return Err(e),
        };
        let ghost sel = self.selection(collection_id@);
        let ghost dv = delta_views(deltas@);
        proof {
            assert(dv.len() == dv.to_multiset().len());
            assert(sel.len() == sel.to_multiset().len());
        }
        let last = deltas.pop();
        match last {
            None => Ok(None),
            Some(d) => {
                proof {
                    let n = dv.len() - 1;
                    assert(dv[n] == d@);
                    assert(dv.contains(d@));
                    assert(dv.to_multiset().count(d@) > 0);
                    assert(sel.to_multiset().count(d@) > 0);
                    assert forall|i: int| 0 <= i < sel.len() implies #[trigger] sel[i].timestamp
                        <= d.timestamp by {
                        assert(sel.contains(sel[i]));
                        assert(sel.to_multiset().count(sel[i]) > 0);
                        assert(dv.to_multiset().count(sel[i]) > 0);
                        assert(dv.contains(sel[i]));
                        let j = choose|j: int| 0 <= j < dv.len() && dv[j] == sel[i];
                        if j != n {
                            assert(dv[j].timestamp <= dv[n].timestamp);
                        }
                    }
                }
                Ok(Some(d))
            },
        }
    }

    pub fn store_metadata(&mut self, metadata: &CollectionMetadata) -> (r: Result<(), IndexedDbError>)
        requires
            old(self).wf(),
        ensures
            final(self).wf(),
            r is Ok,
            final(self).metadata_store() == old(self).metadata_store().insert(metadata.id@, *metadata),
            final(self).delta_store() == old(self).delta_store(),
            final(self).delta_seq() == old(self).delta_seq(),
            final(self).peer_store() == old(self).peer_store(),
    {
        self.metadata.insert(metadata.id.clone(), metadata.clone());
        Ok(())
    }

    pub fn get_metadata(&self, collection_id: &str) -> (r: Result<Option<CollectionMetadata>, IndexedDbError>)
        requires
            self.wf(),
        ensures
            r matches Ok(found) && match found {
                Some(m) => self.metadata_store().contains_key(collection_id@) && m
                    == self.metadata_store()[collection_id@],
                None => !self.metadata_store().contains_key(collection_id@),
            },
    {
        let k = String::from_str(collection_id);
        match self.metadata.get(&k) {
            Some(m) => Ok(Some(m.clone())),
            None => Ok(None),
        }
    }

    /// Every stored collection's metadata, in store order.
    pub fn list_collections(&self) -> (r: Result<Vec<CollectionMetadata>, IndexedDbError>)
        requires
            self.wf(),
        ensures
            r matches Ok(v) && v@ == self.metadata_seq(),
    {
        let mut out: Vec<CollectionMetadata> = Vec::new();
        let mut i: usize = 0;
        while i < self.metadata.entry_count()
            invariant
                self.wf(),
                i <= self.metadata.entries().len(),
                out@ == self.metadata_seq().subrange(0, i as int),
            decreases self.metadata.entries().len() - i,
        {
            let (_k, m) = self.metadata.entry_at(i);
            out.push(m.clone());
            assert(out@ =~= self.metadata_seq().subrange(0, i + 1));
            i = i + 1;
        }
        assert(self.metadata_seq().subrange(0, i as int)
            =~= self.metadata_seq());
        Ok(out)
    }

    pub fn store_peer(&mut self, peer: &PeerInfo) -> (r: Result<(), IndexedDbError>)
        requires
            old(self).wf(),
        ensures
            final(self).wf(),
            r is Ok,
            final(self).peer_store() == old(self).peer_store().insert(peer.id@, *peer),
            final(self).delta_store() == old(self).delta_store(),
            final(self).delta_seq() == old(self).delta_seq(),
            final(self).metadata_store() == old(self).metadata_store(),
    {
        self.peers.insert(peer.id.clone(), peer.clone());
        Ok(())
    }

    pub fn get_peer(&self, peer_id: &str) -> (r: Result<Option<PeerInfo>, IndexedDbError>)
        requires
            self.wf(),
        ensures
            r matches Ok(found) && match found {
                Some(p) => self.peer_store().contains_key(peer_id@) && p == self.peer_store()[peer_id@],
                None => !self.peer_store().contains_key(peer_id@),
            },
    {
        let k = String::from_str(peer_id);
        match self.peers.get(&k) {
            Some(p) => Ok(Some(p.clone())),
            None => Ok(None),
        }
    }

    /// Every stored peer, in store order.
    pub fn list_peers(&self) -> (r: Result<Vec<PeerInfo>, IndexedDbError>)
        requires
            self.wf(),
        ensures
            r matches Ok(v) && v@ == self.peer_seq(),
    {
        let mut out: Vec<PeerInfo> = Vec::new();
        let mut i: usize = 0;
        while i < self.peers.entry_count()
            invariant
                self.wf(),
                i <= self.peers.entries().len(),
                out@ == self.peer_seq().subrange(0, i as int),
            decreases self.peers.entries().len() - i,
        {
            let (_k, p) = self.peers.entry_at(i);
            out.push(p.clone());
            assert(out@ =~= self.peer_seq().subrange(0, i + 1));
            i = i + 1;
        }
        assert(self.peer_seq().subrange(0, i as int)
            =~= self.peer_seq());
        Ok(out)
    }

    /// Marks a stored peer as seen at the given time; unknown peers are ignored.
    pub fn update_peer_last_seen_at(&mut self, peer_id: &str, now: u64) -> (r: Result<(), IndexedDbError>)
        requires
            old(self).wf(),
        ensures
            final(self).wf(),
            r is Ok,
            old(self).peer_store().contains_key(peer_id@) ==> final(self).peer_store()
                == old(self).peer_store().insert(
                peer_id@,
                peer_seen(old(self).peer_store()[peer_id@], now),
            ),
            !old(self).peer_store().contains_key(peer_id@) ==> final(self).peer_store() == old(self).peer_store(),
            final(self).delta_store() == old(self).delta_store(),
            final(self).metadata_store() == old(self).metadata_store(),
    {
        match self.get_peer(peer_id) {
            Ok(Some(mut peer)) => {
                peer.last_seen = now;
                self.store_peer(&peer)
            },
            _ => Ok(()),
        }
    }

    /// Marks a stored peer as seen now.
    pub fn update_peer_last_seen(&mut self, peer_id: &str) -> (r: Result<(), IndexedDbError>)
        requires
            old(self).wf(),
        ensures
            final(self).wf(),
            r is Ok,
            !old(self).peer_store().contains_key(peer_id@) ==> final(self).peer_store() == old(self).peer_store(),
            old(self).peer_store().contains_key(peer_id@) ==> exists|t: u64|
                old(self).peer_store().insert(
                    peer_id@,
                    #[trigger] peer_seen(old(self).peer_store()[peer_id@], t),
                ) == final(self).peer_store(),
            final(self).delta_store() == old(self).delta_store(),
            final(self).metadata_store() == old(self).metadata_store(),
    {
        let t = clock_millis();
        self.update_peer_last_seen_at(peer_id, t)
    }

    /// Keeps the newest `keep_count` deltas of a collection and removes the
    /// older ones.
    pub fn cleanup_old_deltas(&mut self, collection_id: &str, keep_count: usize) -> (r: Result<
        (),
        IndexedDbError,
    >)
        requires
            old(self).wf(),
        ensures
            final(self).wf(),
            r is Ok,
            exists|s: Seq<DeltaView>|
                #[trigger] sorted_by_time(s) && s.to_multiset() == old(self).delta_seq().filter(
                    |d: DeltaView| selected(d, collection_id@, None, None),
                ).to_multiset() && final(self).delta_store() == old(self).delta_store().remove_keys(
                    ids_of(
                        if s.len() > keep_count {
                            s.take(s.len() - keep_count)
                        } else {
                            Seq::<DeltaView>::empty()
                        },
                    ),
                ),
            final(self).metadata_store() == old(self).metadata_store(),
            final(self).peer_store() == old(self).peer_store(),
    {
        let deltas = match self.get_deltas(collection_id, None, None) {
            Ok(v) => v,
            Err(e) => return Err(e),
        };
        let ghost s = delta_views(deltas@);
        let n = deltas.len();
        let to_remove: usize = if n > keep_count {
            n - keep_count
        } else {
            0
        };
        let ghost removed = s.take(to_remove as int);
        let mut i: usize = 0;
        while i < to_remove
            invariant
                self.wf(),
                to_remove <= deltas@.len(),
                s == delta_views(deltas@),
                removed == s.take(to_remove as int),
                i <= to_remove,
                self.delta_store() == old(self).delta_store().remove_keys(ids_of(s.take(i as int))),
                self.metadata_store() == old(self).metadata_store(),
                self.peer_store() == old(self).peer_store(),
            decreases to_remove - i,
        {
            let ghost before = self.deltas.map();
            let ghost before_store = self.delta_store();
            let _ = self.deltas.remove(&deltas[i].id);
            proof {
                let id = s[i as int].id;
                assert(deltas@[i as int].id@ == id);
                assert(s.take(i + 1).map_values(|d: DeltaView| d.id) =~= s.take(i as int).map_values(
                    |d: DeltaView| d.id,
                ).push(id));
                s.take(i as int).map_values(|d: DeltaView| d.id).lemma_push_to_set_commute(id);
                assert(ids_of(s.take(i + 1)) == ids_of(s.take(i as int)).insert(id));
                assert(self.delta_store() =~= before_store.remove(id));
                assert(self.delta_store() =~= old(self).delta_store().remove_keys(ids_of(s.take(i + 1))));
                assert forall|k: Seq<char>| #[trigger] self.deltas.map().contains_key(k) implies self.deltas.map()[k].id@ == k by {
                    assert(before.contains_key(k));
                }
            }
            i = i + 1;
        }
        proof {
            if !(s.len() > keep_count) {
                assert(s.take(0) =~= Seq::<DeltaView>::empty());
            }
        }
        Ok(())
    }

    /// How many collections, deltas and peers are stored.
    pub fn get_stats(&self) -> (r: Result<StorageStats, IndexedDbError>)
        requires
            self.wf(),
        ensures
            r matches Ok(st) && st.collections_count == self.metadata_store().len()
                && st.deltas_count == self.delta_store().len() && st.peers_count
                == self.peer_store().len(),
    {
        proof {
            assert(self.delta_store().dom() =~= self.deltas.map().dom());
        }
        Ok(
            StorageStats {
                collections_count: self.metadata.len(),
                deltas_count: self.deltas.len(),
                peers_count: self.peers.len(),
            },
        )
    }

    /// Empties every store.
    pub fn clear_all(&mut self) -> (r: Result<(), IndexedDbError>)
        ensures
            final(self).wf(),
            r is Ok,
            final(self).delta_store() == Map::<Seq<char>, DeltaView>::empty(),
            final(self).metadata_store() == Map::<Seq<char>, CollectionMetadata>::empty(),
            final(self).peer_store() == Map::<Seq<char>, PeerInfo>::empty(),
    {
        self.deltas.clear();
        self.metadata.clear();
        self.peers.clear();
        assert(self.delta_store() =~= Map::<Seq<char>, DeltaView>::empty());
        Ok(())
    }
}

} // verus!
