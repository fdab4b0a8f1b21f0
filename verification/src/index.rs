//! Secondary indices over stored documents: hash and B-tree indices that map
//! an indexed value to the ids of the documents holding it.

use crate::ids::now_millis;
use crate::keyed::KeyedMap;
use crate::storage::{Storage, StorageError};
use crate::text::{lemma_seq_lt_asymmetric, seq_lt, str_eq, str_lt, texts};
use vstd::prelude::*;
use vstd::string::*;

verus! {

/// Index-related errors.
#[derive(Debug)]
pub enum IndexError {
    Storage(StorageError),
    IndexNotFound(String),
    IndexAlreadyExists(String),
    InvalidIndexValue,
}

/// Index types.
#[derive(Clone, Copy, Debug, PartialEq, Eq, Structural)]
pub enum IndexType {
    /// Hash index for exact matches
    Hash,
    /// B-tree index for range queries and sorting
    BTree,
    /// Full-text index for text search
    FullText,
}

impl Default for IndexType {
    fn default() -> (r: Self)
        ensures
            r == IndexType::Hash,
    {
        IndexType::Hash
    }
}

/// Index configuration.
#[derive(Debug, PartialEq, Eq)]
pub struct IndexConfig {
    pub name: String,
    pub index_type: IndexType,
    pub unique: bool,
    pub sparse: bool,
}

impl Clone for IndexConfig {
    fn clone(&self) -> (r: Self)
        ensures
            r == *self,
    {
        IndexConfig {
            name: self.name.clone(),
            index_type: self.index_type,
            unique: self.unique,
            sparse: self.sparse,
        }
    }
}

/// An index's contents: indexed value to the ids of the documents holding it.
pub type IndexContents = Map<Seq<char>, Seq<Seq<char>>>;

/// The document ids after adding `doc` under `value`.
pub open spec fn docs_after_insert(c: IndexContents, value: Seq<char>, doc: Seq<char>) -> Seq<Seq<char>> {
    if c.contains_key(value) {
        if c[value].contains(doc) {
            c[value]
        } else {
            c[value].push(doc)
        }
    } else {
        seq![doc]
    }
}

/// Whether adding a document under `value` is refused.
pub open spec fn insert_refused(c: IndexContents, unique: bool, sparse: bool, value: Seq<char>) -> bool {
    (value.len() == 0 && !sparse) || (unique && c.contains_key(value) && c[value].len() > 0)
}

/// No value holds more than one document id.
pub open spec fn at_most_one_per_value(c: IndexContents) -> bool {
    forall|v: Seq<char>| #[trigger] c.contains_key(v) ==> c[v].len() <= 1
}

/// On a unique index, sparse or not, a value that already holds a document
/// refuses another.
pub proof fn law_unique_refuses_an_occupied_value(c: IndexContents, sparse: bool, value: Seq<char>)
    ensures
        c.contains_key(value) && c[value].len() > 0 ==> insert_refused(c, true, sparse, value),
{
}

/// A unique index, sparse or not, never holds two document ids under one
/// value: every insert that it accepts keeps at most one per value.
pub proof fn law_unique_index_holds_one_id_per_value(
    c: IndexContents,
    sparse: bool,
    value: Seq<char>,
    doc: Seq<char>,
)
    requires
        at_most_one_per_value(c),
    ensures
        !insert_refused(c, true, sparse, value) ==> at_most_one_per_value(
            c.insert(value, docs_after_insert(c, value, doc)),
        ),
{
    if !insert_refused(c, true, sparse, value) {
        let after = c.insert(value, docs_after_insert(c, value, doc));
        assert(docs_after_insert(c, value, doc).len() <= 1);
        assert forall|v: Seq<char>| #[trigger] after.contains_key(v) implies after[v].len() <= 1 by {
            if v != value {
                assert(c.contains_key(v));
            }
        }
    }
}

/// Every document id but `doc`.
pub open spec fn except_doc(doc: Seq<char>) -> spec_fn(Seq<char>) -> bool {
    |d: Seq<char>| d != doc
}

/// The contents after removing `doc` from under `value`: a value left
/// without documents is dropped.
pub open spec fn contents_after_remove(c: IndexContents, value: Seq<char>, doc: Seq<char>) -> IndexContents {
    if c.contains_key(value) {
        let rest = c[value].filter(except_doc(doc));
        if rest.len() == 0 {
            c.remove(value)
        } else {
            c.insert(value, rest)
        }
    } else {
        c
    }
}

/// Every indexed value holds at least one document id, and no id twice.
pub open spec fn lists_well_formed(c: IndexContents) -> bool {
    forall|v: Seq<char>| #[trigger] c.contains_key(v) ==> c[v].len() > 0 && c[v].no_duplicates()
}

/// Filtering a list without duplicates keeps it without duplicates, and
/// keeps only ids it had.
proof fn lemma_filter_distinct(s: Seq<Seq<char>>, p: spec_fn(Seq<char>) -> bool)
    requires
        s.no_duplicates(),
    ensures
        s.filter(p).no_duplicates(),
        forall|x: Seq<char>| #[trigger] s.filter(p).contains(x) ==> s.contains(x),
    decreases s.len(),
{
    reveal(Seq::filter);
    if s.len() > 0 {
        let sub = s.drop_last();
        assert forall|i: int, j: int|
            0 <= i < sub.len() && 0 <= j < sub.len() && i != j implies sub[i] != sub[j] by {
            assert(sub[i] == s[i] && sub[j] == s[j]);
        }
        lemma_filter_distinct(sub, p);
        let f = sub.filter(p);
        let last = s[s.len() - 1];
        assert forall|x: Seq<char>| f.contains(x) implies s.contains(x) by {
            let k = choose|k: int| 0 <= k < sub.len() && sub[k] == x;
            assert(s[k] == x);
        }
        if p(last) {
            assert(s.filter(p) == f.push(last));
            if f.contains(last) {
                let k = choose|k: int| 0 <= k < sub.len() && sub[k] == last;
                assert(s[k] == s[s.len() - 1]);
            }
            let g = f.push(last);
            assert forall|i: int, j: int|
                0 <= i < g.len() && 0 <= j < g.len() && i != j implies g[i] != g[j] by {
                if i == g.len() - 1 {
                    assert(f.contains(g[j]));
                } else if j == g.len() - 1 {
                    assert(f.contains(g[i]));
                } else {
                    assert(g[i] == f[i] && g[j] == f[j]);
                }
            }
            assert forall|x: Seq<char>| g.contains(x) implies s.contains(x) by {
                let i = choose|i: int| 0 <= i < g.len() && g[i] == x;
                if i < f.len() {
                    assert(f.contains(x));
                } else {
                    assert(s[s.len() - 1] == x);
                }
            }
        } else {
            assert(s.filter(p) == f);
        }
    }
}

/// Indexing a document keeps every list non-empty and free of duplicates.
pub proof fn law_insert_keeps_lists_well_formed(c: IndexContents, value: Seq<char>, doc: Seq<char>)
    requires
        lists_well_formed(c),
    ensures
        lists_well_formed(c.insert(value, docs_after_insert(c, value, doc))),
{
    let d = docs_after_insert(c, value, doc);
    if c.contains_key(value) && !c[value].contains(doc) {
        let l = c[value];
        assert(c.contains_key(value));
        assert forall|i: int, j: int|
            0 <= i < d.len() && 0 <= j < d.len() && i != j implies d[i] != d[j] by {
            if i == d.len() - 1 {
                assert(l[j] == d[j]);
            } else if j == d.len() - 1 {
                assert(l[i] == d[i]);
            } else {
                assert(d[i] == l[i] && d[j] == l[j]);
            }
        }
    }
    if !c.contains_key(value) {
        assert(d.len() == 1);
    }
    let n = c.insert(value, d);
    assert forall|v: Seq<char>| #[trigger] n.contains_key(v) implies n[v].len() > 0 && n[v].no_duplicates() by {
        if v != value {
            assert(c.contains_key(v));
        }
    }
}

/// Removing a document keeps every list non-empty and free of duplicates:
/// a value left without documents is dropped.
pub proof fn law_remove_keeps_lists_well_formed(c: IndexContents, value: Seq<char>, doc: Seq<char>)
    requires
        lists_well_formed(c),
    ensures
        lists_well_formed(contents_after_remove(c, value, doc)),
{
    if c.contains_key(value) {
        assert(c.contains_key(value));
        lemma_filter_distinct(c[value], except_doc(doc));
        let n = contents_after_remove(c, value, doc);
        assert forall|v: Seq<char>| #[trigger] n.contains_key(v) implies n[v].len() > 0 && n[v].no_duplicates() by {
            if v != value {
                assert(c.contains_key(v));
            }
        }
    }
}

/// Cleared contents hold no list, so every list is well formed.
pub proof fn law_cleared_lists_well_formed()
    ensures
        lists_well_formed(IndexContents::empty()),
{
}

/// The ids held under `value` (none if absent).
pub open spec fn docs_of(c: IndexContents, value: Seq<char>) -> Seq<Seq<char>> {
    if c.contains_key(value) {
        c[value]
    } else {
        Seq::empty()
    }
}

/// A document indexed under a value is found by a query for that value,
/// and the documents already found there still are.
pub proof fn law_query_finds_inserted(c: IndexContents, value: Seq<char>, doc: Seq<char>, other: Seq<char>)
    ensures
        docs_of(c.insert(value, docs_after_insert(c, value, doc)), value).contains(doc),
        docs_of(c, value).contains(other) ==> docs_of(
            c.insert(value, docs_after_insert(c, value, doc)),
            value,
        ).contains(other),
{
    let d = docs_after_insert(c, value, doc);
    if c.contains_key(value) && !c[value].contains(doc) {
        assert(d[d.len() - 1] == doc);
        if c[value].contains(other) {
            let i = choose|i: int| 0 <= i < c[value].len() && c[value][i] == other;
            assert(d[i] == other);
        }
    }
    if !c.contains_key(value) {
        assert(d[0] == doc);
    }
}

/// Indexing the same document under the same value twice changes nothing
/// the second time.
pub proof fn law_insert_idempotent(c: IndexContents, value: Seq<char>, doc: Seq<char>)
    ensures
        ({
            let once = c.insert(value, docs_after_insert(c, value, doc));
            once.insert(value, docs_after_insert(once, value, doc)) == once
        }),
{
    let once = c.insert(value, docs_after_insert(c, value, doc));
    law_query_finds_inserted(c, value, doc, doc);
    assert(once.insert(value, docs_after_insert(once, value, doc)) =~= once);
}

/// A document removed from under a value is no longer found there, and the
/// other documents under the value still are.
pub proof fn law_query_misses_removed(c: IndexContents, value: Seq<char>, doc: Seq<char>, other: Seq<char>)
    ensures
        !docs_of(contents_after_remove(c, value, doc), value).contains(doc),
        other != doc && docs_of(c, value).contains(other) ==> docs_of(
            contents_after_remove(c, value, doc),
            value,
        ).contains(other),
{
    if c.contains_key(value) {
        let rest = c[value].filter(except_doc(doc));
        if rest.contains(doc) {
            let i = choose|i: int| 0 <= i < rest.len() && rest[i] == doc;
            c[value].filter_lemma(except_doc(doc));
            assert(rest[i] != doc);
        }
        if other != doc && c[value].contains(other) {
            c[value].filter_lemma(except_doc(doc));
            let i = choose|i: int| 0 <= i < c[value].len() && c[value][i] == other;
            assert(rest.contains(c[value][i]));
            assert(rest.len() > 0);
            assert(contents_after_remove(c, value, doc) == c.insert(value, rest));
        }
    }
}

/// An indexed value with its documents (the time in milliseconds since the
/// Unix epoch).
#[derive(Debug, PartialEq, Eq)]
pub struct IndexEntry {
    pub value: String,
    pub document_ids: Vec<String>,
    pub last_updated: i64,
}

/// Counts that describe an index.
#[derive(Debug, PartialEq, Eq)]
pub struct IndexCounts {
    /// Number of indexed values
    pub entry_count: usize,
    /// Number of (value, document) associations
    pub total_entries: usize,
    /// The most common values with their document counts, most common first
    pub top_values: Vec<(String, usize)>,
}

/// How many of the most common values the statistics list.
pub const TOP_VALUES: usize = 10;

/// The sum of the document counts of the values in `ks`.
pub open spec fn total_docs(c: IndexContents, ks: Seq<Seq<char>>) -> int
    decreases ks.len(),
{
    if ks.len() == 0 {
        0
    } else {
        total_docs(c, ks.drop_last()) + c[ks.last()].len()
    }
}

/// The number of (value, document) associations over the values `ks`,
/// capped at `usize::MAX`.
pub open spec fn capped_total(c: IndexContents, ks: Seq<Seq<char>>) -> int {
    if total_docs(c, ks) <= usize::MAX {
        total_docs(c, ks)
    } else {
        usize::MAX as int
    }
}

/// `tv` lists values of `c` with their counts, most common first, at most
/// `TOP_VALUES` of them, no value twice, and no value left out is more
/// common than the least common one listed.
pub open spec fn top_values_of(c: IndexContents, tv: Seq<(Seq<char>, nat)>) -> bool {
    &&& tv.len() == if c.len() < TOP_VALUES {
        c.len()
    } else {
        TOP_VALUES as nat
    }
    &&& forall|i: int| 0 <= i < tv.len() ==> #[trigger] c.contains_key(tv[i].0) && tv[i].1 == c[tv[i].0].len()
    &&& forall|i: int, j: int| 0 <= i < j < tv.len() ==> #[trigger] tv[i].1 >= #[trigger] tv[j].1
    &&& forall|i: int, j: int| 0 <= i < j < tv.len() ==> #[trigger] tv[i].0 != #[trigger] tv[j].0
    &&& forall|k: Seq<char>|
        #[trigger] c.contains_key(k) && !(exists|i: int| 0 <= i < tv.len() && #[trigger] tv[i].0 == k) ==> tv.len() > 0 && c[k].len()
            <= tv.last().1
}

/// The shared state and logic of the hash and B-tree indices.
#[derive(Debug)]
pub struct IndexData {
    name: String,
    data: KeyedMap<String, Vec<String>>,
    unique: bool,
    sparse: bool,
}

impl IndexData {
    /// The map is well formed, and every value's list holds at least one
    /// document id and none twice.
    pub closed spec fn wf(&self) -> bool {
        &&& self.data.wf()
        &&& lists_well_formed(self.contents())
    }

    /// Every list of a well-formed index holds at least one document id and
    /// none twice.
    pub proof fn lemma_lists_well_formed(&self)
        requires
            self.wf(),
        ensures
            lists_well_formed(self.contents()),
    {
    }

    pub closed spec fn spec_name(&self) -> Seq<char> {
        self.name@
    }

    pub closed spec fn spec_unique(&self) -> bool {
        self.unique
    }

    pub closed spec fn spec_sparse(&self) -> bool {
        self.sparse
    }

    pub closed spec fn contents(&self) -> IndexContents {
        self.data.map().map_values(|v: Vec<String>| texts(v@))
    }

    /// The indexed values in the order they were first indexed.
    pub closed spec fn value_order(&self) -> Seq<Seq<char>> {
        self.data.key_seq()
    }

    pub fn new(name: String, config: &IndexConfig) -> (r: Self)
        ensures
            r.wf(),
            r.spec_name() == name@,
            r.spec_unique() == config.unique,
            r.spec_sparse() == config.sparse,
            r.contents() == IndexContents::empty(),
            r.value_order() == Seq::<Seq<char>>::empty(),
    {
        let r = IndexData { name, data: KeyedMap::new(), unique: config.unique, sparse: config.sparse };
        assert(r.contents() =~= IndexContents::empty());
        r
    }

    pub fn name(&self) -> (r: &str)
        ensures
            r@ == self.spec_name(),
    {
        self.name.as_str()
    }

    /// Whether the id list holds `doc`.
    fn holds(ids: &Vec<String>, doc: &str) -> (r: bool)
        ensures
            r == texts(ids@).contains(doc@),
    {
        let mut i: usize = 0;
        while i < ids.len()
            invariant
                i <= ids@.len(),
                forall|j: int| 0 <= j < i ==> #[trigger] ids@[j]@ != doc@,
            decreases ids@.len() - i,
        {
            if str_eq(ids[i].as_str(), doc) {
                assert(texts(ids@)[i as int] == doc@);
                return true;
            }
            i = i + 1;
        }
        assert(!texts(ids@).contains(doc@)) by {
            if texts(ids@).contains(doc@) {
                let j = choose|j: int| 0 <= j < texts(ids@).len() && texts(ids@)[j] == doc@;
                assert(ids@[j]@ == doc@);
            }
        }
        false
    }

    /// Adds a document under a value.
    pub fn insert(&mut self, value: &str, document_id: &str) -> (r: Result<(), IndexError>)
        requires
            old(self).wf(),
        ensures
            final(self).wf(),
            final(self).spec_name() == old(self).spec_name(),
            final(self).spec_unique() == old(self).spec_unique(),
            final(self).spec_sparse() == old(self).spec_sparse(),
            insert_refused(old(self).contents(), old(self).spec_unique(), old(self).spec_sparse(), value@)
                ==> (r matches Err(IndexError::InvalidIndexValue)) && final(self).contents() == old(self).contents() && final(self).value_order() == old(self).value_order(),
            !insert_refused(old(self).contents(), old(self).spec_unique(), old(self).spec_sparse(), value@)
                ==> r is Ok && final(self).contents() == old(self).contents().insert(
                value@,
                docs_after_insert(old(self).contents(), value@, document_id@),
            ),
    {
        if value.unicode_len() == 0 && !self.sparse {
            return Err(IndexError::InvalidIndexValue);
        }
        let key = String::from_str(value);
        match self.data.find(&key) {
            Some(i) => {
                let (_k, ids) = self.data.entry_at(i);
                if self.unique && ids.len() > 0 {
                    proof {
                        assert(texts(ids@).len() > 0);
                    }
                    return Err(IndexError::InvalidIndexValue);
                }
                let present = Self::holds(ids, document_id);
                let ghost before = self.data.map();
                let mut list = self.data.replace_value_at(i, Vec::new());
                if !present {
                    let ghost l0 = list@;
                    list.push(String::from_str(document_id));
                    assert(texts(list@) =~= texts(l0).push(document_id@));
                }
                self.data.replace_value_at(i, list);
                assert(self.contents() =~= old(self).contents().insert(
                    value@,
                    docs_after_insert(old(self).contents(), value@, document_id@),
                ));
                proof {
                    law_insert_keeps_lists_well_formed(old(self).contents(), value@, document_id@);
                }
                Ok(())
            },
            None => {
                let mut list: Vec<String> = Vec::new();
                list.push(String::from_str(document_id));
                assert(texts(list@) =~= seq![document_id@]);
                self.data.insert(key, list);
                assert(self.contents() =~= old(self).contents().insert(
                    value@,
                    docs_after_insert(old(self).contents(), value@, document_id@),
                ));
                proof {
                    law_insert_keeps_lists_well_formed(old(self).contents(), value@, document_id@);
                }
                Ok(())
            },
        }
    }

    /// Removes a document from under a value; a value left without
    /// documents is dropped.
    pub fn remove(&mut self, value: &str, document_id: &str) -> (r: Result<(), IndexError>)
        requires
            old(self).wf(),
        ensures
            final(self).wf(),
            r is Ok,
            final(self).spec_name() == old(self).spec_name(),
            final(self).spec_unique() == old(self).spec_unique(),
            final(self).spec_sparse() == old(self).spec_sparse(),
            final(self).contents() == contents_after_remove(old(self).contents(), value@, document_id@),
    {
        let key = String::from_str(value);
        match self.data.find(&key) {
            None => Ok(()),
            Some(i) => {
                let ghost pred = except_doc(document_id@);
                let ids = self.data.replace_value_at(i, Vec::new());
                let mut kept: Vec<String> = Vec::new();
                let mut j: usize = 0;
                while j < ids.len()
                    invariant
                        j <= ids@.len(),
                        pred == except_doc(document_id@),
                        texts(kept@) == texts(ids@).subrange(0, j as int).filter(pred),
                    decreases ids@.len() - j,
                {
                    proof {
                        let s = texts(ids@).subrange(0, j as int);
                        assert(texts(ids@).subrange(0, j + 1) =~= s.push(texts(ids@)[j as int]));
                        s.lemma_filter_push(texts(ids@)[j as int], pred);
                    }
                    if !str_eq(ids[j].as_str(), document_id) {
                        let ghost k0 = kept@;
                        kept.push(ids[j].clone());
                        assert(texts(kept@) =~= texts(k0).push(ids@[j as int]@));
                    }
                    j = j + 1;
                }
                assert(texts(ids@).subrange(0, ids@.len() as int) =~= texts(ids@));
                if kept.len() == 0 {
                    let _ = self.data.remove(&key);
                    assert(self.contents() =~= contents_after_remove(
                        old(self).contents(),
                        value@,
                        document_id@,
                    ));
                } else {
                    self.data.replace_value_at(i, kept);
                    assert(self.contents() =~= contents_after_remove(
                        old(self).contents(),
                        value@,
                        document_id@,
                    ));
                }
                proof {
                    law_remove_keeps_lists_well_formed(old(self).contents(), value@, document_id@);
                }
                Ok(())
            },
        }
    }

    /// The ids of the documents holding the value.
    pub fn get(&self, value: &str) -> (r: Result<Vec<String>, IndexError>)
        requires
            self.wf(),
        ensures
            r matches Ok(ids) && texts(ids@) == docs_of(self.contents(), value@),
    {
        let key = String::from_str(value);
        match self.data.get(&key) {
            Some(ids) => {
                let c = ids.clone();
                assert(texts(c@) =~= texts(ids@)) by {
                    assert forall|j: int| 0 <= j < c@.len() implies c@[j]@ == ids@[j]@ by {
                        assert(cloned::<String>(ids@[j], c@[j]));
                    }
                }
                Ok(c)
            },
            None => Ok(Vec::new()),
        }
    }

    /// The indexed values, in the order they were first indexed.
    pub fn values_in_order(&self) -> (r: Result<Vec<String>, IndexError>)
        requires
            self.wf(),
        ensures
            r matches Ok(vs) && texts(vs@) == self.value_order() && texts(vs@).to_set()
                == self.contents().dom() && texts(vs@).no_duplicates(),
    {
        let vs = self.data.keys();
        proof {
            assert(texts(vs@) =~= vs@.map_values(|k: String| k@));
            self.data.lemma_key_seq_contains(Seq::<char>::empty());
            assert(self.contents().dom() =~= self.data.map().dom());
        }
        Ok(vs)
    }

    /// Empties the index.
    pub fn clear(&mut self) -> (r: Result<(), IndexError>)
        ensures
            final(self).wf(),
            r is Ok,
            final(self).contents() == IndexContents::empty(),
            final(self).spec_name() == old(self).spec_name(),
            final(self).spec_unique() == old(self).spec_unique(),
            final(self).spec_sparse() == old(self).spec_sparse(),
    {
        self.data.clear();
        assert(self.contents() =~= IndexContents::empty());
        proof {
            law_cleared_lists_well_formed();
        }
        Ok(())
    }
}

/// Ordered by count, most common first.
pub open spec fn by_count_desc(s: Seq<(Seq<char>, nat)>) -> bool {
    forall|i: int, j: int| 0 <= i < j < s.len() ==> #[trigger] s[i].1 >= #[trigger] s[j].1
}

/// The views of (value, count) pairs.
pub open spec fn pair_views(s: Seq<(String, usize)>) -> Seq<(Seq<char>, nat)> {
    s.map_values(|p: (String, usize)| (p.0@, p.1 as nat))
}

proof fn lemma_insert_multiset_pair(s: Seq<(Seq<char>, nat)>, pos: int, x: (Seq<char>, nat))
    requires
        0 <= pos <= s.len(),
    ensures
        s.insert(pos, x).to_multiset() =~= s.to_multiset().insert(x),
{
    broadcast use vstd::seq_lib::group_to_multiset_ensures;

    let t = s.insert(pos, x);
    s.insert_ensures(pos, x);
    assert(t.remove(pos) =~= s);
    assert(t.remove(pos).to_multiset() =~= t.to_multiset().remove(t[pos]));
    assert(t.contains(x));
    assert(t.to_multiset().count(x) > 0);
}

#[verifier::spinoff_prover]
#[verifier::rlimit(40)]
proof fn lemma_insert_desc(before: Seq<(Seq<char>, nat)>, pos: int, x: (Seq<char>, nat))
    requires
        0 <= pos <= before.len(),
        by_count_desc(before),
        forall|k: int| 0 <= k < pos ==> #[trigger] before[k].1 >= x.1,
        pos < before.len() ==> before[pos].1 < x.1,
    ensures
        by_count_desc(before.insert(pos, x)),
{
    before.insert_ensures(pos, x);
    let outv = before.insert(pos, x);
    assert forall|i: int, j: int| 0 <= i < j < outv.len() implies #[trigger] outv[i].1
        >= #[trigger] outv[j].1 by {
        if j < pos {
            assert(outv[i] == before[i] && outv[j] == before[j]);
        } else if j == pos {
            assert(outv[i] == before[i]);
        } else if i < pos {
            assert(outv[i] == before[i] && outv[j] == before[j - 1]);
            assert(before[i].1 >= x.1);
        } else if i == pos {
            assert(outv[j] == before[j - 1]);
            assert(before[pos].1 >= before[j - 1].1 || pos == j - 1);
        } else {
            assert(outv[i] == before[i - 1] && outv[j] == before[j - 1]);
        }
    }
}

/// Inserts a pair after every pair that is at least as common.
fn insert_by_count(out: &mut Vec<(String, usize)>, x: (String, usize))
    requires
        by_count_desc(pair_views(old(out)@)),
    ensures
        by_count_desc(pair_views(final(out)@)),
        pair_views(final(out)@).to_multiset() == pair_views(old(out)@).to_multiset().insert(
            (x.0@, x.1 as nat),
        ),
{
    let mut pos: usize = 0;
    while pos < out.len()
        invariant
            pos <= out@.len(),
            forall|k: int| 0 <= k < pos ==> #[trigger] pair_views(out@)[k].1 >= x.1,
            by_count_desc(pair_views(out@)),
        ensures
            pos <= out@.len(),
            forall|k: int| 0 <= k < pos ==> #[trigger] pair_views(out@)[k].1 >= x.1,
            pos < out@.len() ==> pair_views(out@)[pos as int].1 < x.1,
        decreases out@.len() - pos,
    {
        if out[pos].1 < x.1 {
            break;
        }
        pos = pos + 1;
    }
    let ghost before = pair_views(out@);
    let ghost xv = (x.0@, x.1 as nat);
    out.insert(pos, x);
    proof {
        assert(pair_views(out@) =~= before.insert(pos as int, xv));
        lemma_insert_multiset_pair(before, pos as int, xv);
        lemma_insert_desc(before, pos as int, xv);
    }
}

proof fn lemma_two_copies(s: Seq<(Seq<char>, nat)>, i: int, j: int)
    requires
        0 <= i < s.len(),
        0 <= j < s.len(),
        i != j,
        s[i] == s[j],
    ensures
        s.to_multiset().count(s[i]) >= 2,
{
    broadcast use vstd::seq_lib::group_to_multiset_ensures;

    let t = s.remove(i);
    s.remove_ensures(i);
    let jj = if j < i { j } else { j - 1 };
    assert(t[jj] == s[i]);
    assert(t.contains(s[i]));
    assert(t.to_multiset().count(s[i]) > 0);
}

impl IndexData {
    /// The (value, count) pairs in value order.
    pub closed spec fn count_pairs(&self) -> Seq<(Seq<char>, nat)> {
        self.data.entries().map_values(|e: (String, Vec<String>)| (e.0@, e.1@.len()))
    }

    /// Counts of the index: values, associations and the most common values.
    pub fn counts(&self) -> (r: IndexCounts)
        requires
            self.wf(),
        ensures
            r.entry_count == self.contents().len(),
            r.total_entries == if total_docs(self.contents(), self.value_order()) <= usize::MAX {
                total_docs(self.contents(), self.value_order())
            } else {
                usize::MAX as int
            },
            top_values_of(self.contents(), pair_views(r.top_values@)),
    {
        broadcast use vstd::seq_lib::group_to_multiset_ensures;

        proof {
            self.data.lemma_key_seq_contains(Seq::<char>::empty());
            assert(self.contents().dom() =~= self.data.map().dom());
        }
        let n = self.data.entry_count();
        let mut total: usize = 0;
        let mut sorted: Vec<(String, usize)> = Vec::new();
        let mut i: usize = 0;
        proof {
            assert(pair_views(sorted@) =~= Seq::<(Seq<char>, nat)>::empty());
            assert(self.count_pairs().subrange(0, 0) =~= Seq::<(Seq<char>, nat)>::empty());
        }
        while i < n
            invariant
                self.wf(),
                n == self.data.entries().len(),
                i <= n,
                total == if total_docs(self.contents(), self.value_order().subrange(0, i as int)) <= usize::MAX {
                    total_docs(self.contents(), self.value_order().subrange(0, i as int))
                } else {
                    usize::MAX as int
                },
                by_count_desc(pair_views(sorted@)),
                pair_views(sorted@).to_multiset() == self.count_pairs().subrange(0, i as int).to_multiset(),
            decreases n - i,
        {
            let (k, ids) = self.data.entry_at(i);
            proof {
                self.data.lemma_index_of(i as int);
                self.data.lemma_key_seq_contains(k@);
                let ks = self.value_order();
                assert(ks.subrange(0, i + 1).drop_last() =~= ks.subrange(0, i as int));
                assert(ks.subrange(0, i + 1).last() == k@);
                assert(self.contents()[k@] == texts(ids@));
                lemma_total_docs_prefix(self.contents(), ks, i as int + 1);
            }
            if total > usize::MAX - ids.len() {
                total = usize::MAX;
            } else {
                total = total + ids.len();
            }
            let ghost before = self.count_pairs().subrange(0, i as int);
            insert_by_count(&mut sorted, (k.clone(), ids.len()));
            proof {
                assert(self.count_pairs()[i as int] == (k@, ids@.len()));
                assert(self.count_pairs().subrange(0, i + 1) =~= before.push((k@, ids@.len())));
                before.to_multiset_ensures();
            }
            i = i + 1;
        }
        proof {
            assert(self.count_pairs().subrange(0, n as int) =~= self.count_pairs());
            assert(self.value_order().subrange(0, n as int) =~= self.value_order());
        }
        let ghost full = pair_views(sorted@);
        let mut top: Vec<(String, usize)> = Vec::new();
        let mut j: usize = 0;
        while j < sorted.len() && j < TOP_VALUES
            invariant
                j <= sorted@.len(),
                j <= TOP_VALUES,
                full == pair_views(sorted@),
                pair_views(top@) == full.subrange(0, j as int),
            decreases TOP_VALUES - j,
        {
            let ghost t0 = top@;
            let item = (sorted[j].0.clone(), sorted[j].1);
            assert(full[j as int] == (item.0@, item.1 as nat));
            top.push(item);
            assert(top@ == t0.push(item));
            assert(pair_views(top@) =~= pair_views(t0).push((item.0@, item.1 as nat)));
            assert(pair_views(top@) =~= full.subrange(0, j + 1));
            j = j + 1;
        }
        proof {
            self.lemma_top_values(full, pair_views(top@));
        }
        IndexCounts { entry_count: n, total_entries: total, top_values: top }
    }

    proof fn lemma_top_values(&self, full: Seq<(Seq<char>, nat)>, top: Seq<(Seq<char>, nat)>)
        requires
            self.wf(),
            by_count_desc(full),
            full.to_multiset() == self.count_pairs().to_multiset(),
            top == full.subrange(0, top.len() as int),
            top.len() == if full.len() < TOP_VALUES { full.len() } else { TOP_VALUES as nat },
        ensures
            top_values_of(self.contents(), top),
    {
        broadcast use vstd::seq_lib::group_to_multiset_ensures;

        let c = self.contents();
        let cp = self.count_pairs();
        self.data.lemma_key_seq_contains(Seq::<char>::empty());
        assert(cp.len() == self.data.entries().len());
        assert(full.to_multiset().len() == cp.to_multiset().len());
        assert(c.dom() =~= self.data.map().dom());
        assert(full.len() == cp.len());
        // every listed pair is a pair of the index
        assert forall|i: int| 0 <= i < full.len() implies #[trigger] c.contains_key(full[i].0)
            && full[i].1 == c[full[i].0].len() && cp.contains(full[i]) by {
            assert(full.contains(full[i]));
            assert(full.to_multiset().count(full[i]) > 0);
            assert(cp.to_multiset().count(full[i]) > 0);
            assert(cp.contains(full[i]));
            let j = choose|j: int| 0 <= j < cp.len() && cp[j] == full[i];
            self.data.lemma_index_of(j);
            let e = self.data.entries()[j];
            assert(cp[j] == (e.0@, e.1@.len()));
            assert(self.data.map()[e.0@] == e.1);
            assert(c[e.0@] == texts(e.1@));
        }
        // the pairs of the index occur once each
        assert(cp.no_duplicates()) by {
            assert forall|a: int, b: int| 0 <= a < cp.len() && 0 <= b < cp.len() && a != b implies cp[a] != cp[b] by {
                self.data.lemma_entries_distinct(a, b);
            }
        }
        cp.lemma_multiset_has_no_duplicates();
        assert forall|i: int, j: int| 0 <= i < j < top.len() implies #[trigger] top[i].0 != #[trigger] top[j].0 by {
            if top[i].0 == top[j].0 {
                assert(full[i] == top[i] && full[j] == top[j]);
                assert(c.contains_key(full[i].0));
                assert(c.contains_key(full[j].0));
                assert(full[i].1 == c[full[i].0].len() && full[j].1 == c[full[j].0].len());
                assert(full[i] == full[j]);
                lemma_two_copies(full, i, j);
                assert(cp.to_multiset().count(full[i]) >= 2);
            }
        }
        assert forall|i: int| 0 <= i < top.len() implies #[trigger] c.contains_key(top[i].0) && top[i].1 == c[top[i].0].len() by {
            assert(full[i] == top[i]);
            assert(c.contains_key(full[i].0));
        }
        assert forall|i: int, j: int| 0 <= i < j < top.len() implies #[trigger] top[i].1 >= #[trigger] top[j].1 by {
            assert(full[i] == top[i] && full[j] == top[j]);
        }
        assert forall|k: Seq<char>|
            #[trigger] c.contains_key(k) && !(exists|i: int| 0 <= i < top.len() && #[trigger] top[i].0 == k) implies top.len() > 0 && c[k].len()
                <= top.last().1 by {
            let ix = self.data.index_of(k);
            assert(self.data.map().contains_key(k));
            self.data.lemma_index_of_key(k);
            self.data.lemma_index_of(ix);
            assert(self.data.map().contains_key(k));
            let p = cp[ix];
            assert(p == (k, c[k].len()));
            assert(cp.contains(p));
            assert(cp.to_multiset().count(p) > 0);
            assert(full.to_multiset().count(p) > 0);
            assert(full.contains(p));
            let m = choose|m: int| 0 <= m < full.len() && full[m] == p;
            if m < top.len() {
                assert(top[m].0 == k);
            }
            assert(m >= top.len());
            assert(top.len() == TOP_VALUES);
            assert(full[top.len() - 1] == top.last());
            assert(full[top.len() - 1].1 >= full[m].1);
        }
    }
}

proof fn lemma_total_docs_prefix(c: IndexContents, ks: Seq<Seq<char>>, n: int)
    requires
        0 < n <= ks.len(),
    ensures
        total_docs(c, ks.subrange(0, n)) == total_docs(c, ks.subrange(0, n - 1)) + c[ks[n - 1]].len(),
{
    assert(ks.subrange(0, n).drop_last() =~= ks.subrange(0, n - 1));
}

/// Each value is not before the one preceding it.
pub open spec fn sorted_lex(s: Seq<Seq<char>>) -> bool {
    forall|i: int| 0 <= i < s.len() - 1 ==> !seq_lt(#[trigger] s[i + 1], s[i])
}

proof fn lemma_insert_multiset_text(s: Seq<Seq<char>>, pos: int, x: Seq<char>)
    requires
        0 <= pos <= s.len(),
    ensures
        s.insert(pos, x).to_multiset() =~= s.to_multiset().insert(x),
{
    broadcast use vstd::seq_lib::group_to_multiset_ensures;

    let t = s.insert(pos, x);
    s.insert_ensures(pos, x);
    assert(t.remove(pos) =~= s);
    assert(t.remove(pos).to_multiset() =~= t.to_multiset().remove(t[pos]));
    assert(t.contains(x));
    assert(t.to_multiset().count(x) > 0);
}

/// Inserts a value before the first value that comes after it.
fn insert_lex(out: &mut Vec<String>, x: String)
    requires
        sorted_lex(texts(old(out)@)),
    ensures
        sorted_lex(texts(final(out)@)),
        texts(final(out)@).to_multiset() == texts(old(out)@).to_multiset().insert(x@),
{
    let mut pos: usize = 0;
    while pos < out.len()
        invariant
            pos <= out@.len(),
            pos > 0 ==> !seq_lt(x@, texts(out@)[pos - 1]),
            sorted_lex(texts(out@)),
        ensures
            pos <= out@.len(),
            pos > 0 ==> !seq_lt(x@, texts(out@)[pos - 1]),
            pos < out@.len() ==> seq_lt(x@, texts(out@)[pos as int]),
        decreases out@.len() - pos,
    {
        if str_lt(x.as_str(), out[pos].as_str()) {
            break;
        }
        pos = pos + 1;
    }
    let ghost before = texts(out@);
    let ghost xv = x@;
    out.insert(pos, x);
    proof {
        assert(texts(out@) =~= before.insert(pos as int, xv));
        lemma_insert_multiset_text(before, pos as int, xv);
        before.insert_ensures(pos as int, xv);
        let after = before.insert(pos as int, xv);
        assert forall|i: int| 0 <= i < after.len() - 1 implies !seq_lt(#[trigger] after[i + 1], after[i]) by {
            let p = pos as int;
            if i + 1 < p {
                assert(after[i] == before[i] && after[i + 1] == before[i + 1]);
            } else if i + 1 == p {
                assert(after[i] == before[i]);
            } else if i == p {
                assert(after[i + 1] == before[i]);
                lemma_seq_lt_asymmetric(xv, before[i]);
            } else {
                assert(after[i] == before[i - 1] && after[i + 1] == before[i]);
            }
        }
    }
}

/// The values, in lexicographic order.
fn sort_values(vs: Vec<String>) -> (r: Vec<String>)
    ensures
        sorted_lex(texts(r@)),
        texts(r@).to_multiset() == texts(vs@).to_multiset(),
{
    broadcast use vstd::seq_lib::group_to_multiset_ensures;

    let mut out: Vec<String> = Vec::new();
    let mut i: usize = 0;
    assert(texts(out@) =~= Seq::<Seq<char>>::empty());
    assert(texts(vs@).subrange(0, 0) =~= Seq::<Seq<char>>::empty());
    while i < vs.len()
        invariant
            i <= vs@.len(),
            sorted_lex(texts(out@)),
            texts(out@).to_multiset() == texts(vs@).subrange(0, i as int).to_multiset(),
        decreases vs@.len() - i,
    {
        let ghost prev = texts(vs@).subrange(0, i as int);
        insert_lex(&mut out, vs[i].clone());
        proof {
            assert(texts(vs@).subrange(0, i + 1) =~= prev.push(vs@[i as int]@));
            prev.to_multiset_ensures();
        }
        i = i + 1;
    }
    assert(texts(vs@).subrange(0, vs@.len() as int) =~= texts(vs@));
    out
}

/// Index behaviour shared by the hash and B-tree indices.
pub trait Index {
    spec fn inv(&self) -> bool;

    spec fn spec_contents(&self) -> IndexContents;

    /// The indexed values in the order the index keeps them.
    spec fn spec_value_order(&self) -> Seq<Seq<char>>;

    fn name(&self) -> (r: &str);

    fn index_type(&self) -> (r: IndexType);

    fn insert(&mut self, value: &str, document_id: &str) -> (r: Result<(), IndexError>)
        requires
            old(self).inv(),
        ensures
            final(self).inv(),
    ;

    fn remove(&mut self, value: &str, document_id: &str) -> (r: Result<(), IndexError>)
        requires
            old(self).inv(),
        ensures
            final(self).inv(),
    ;

    fn get(&self, value: &str) -> (r: Result<Vec<String>, IndexError>)
        requires
            self.inv(),
        ensures
            r matches Ok(ids) && texts(ids@) == docs_of(self.spec_contents(), value@),
    ;

    fn values(&self) -> (r: Result<Vec<String>, IndexError>)
        requires
            self.inv(),
        ensures
            r matches Ok(vs) && texts(vs@).to_set() == self.spec_contents().dom() && texts(
                vs@,
            ).no_duplicates(),
    ;

    fn stats(&self) -> (r: Result<IndexCounts, IndexError>)
        requires
            self.inv(),
        ensures
            r matches Ok(c) && c.entry_count == self.spec_contents().len() && top_values_of(
                self.spec_contents(),
                pair_views(c.top_values@),
            ) && c.total_entries == capped_total(self.spec_contents(), self.spec_value_order()),
    ;

    fn clear(&mut self) -> (r: Result<(), IndexError>)
        ensures
            final(self).inv(),
            r is Ok,
            final(self).spec_contents() == IndexContents::empty(),
    ;
}

/// Hash index: values in the order they were first indexed.
#[derive(Debug)]
pub struct HashIndex {
    data: IndexData,
}

impl HashIndex {
    pub closed spec fn spec_data(&self) -> IndexData {
        self.data
    }

    pub fn new(name: String, config: &IndexConfig) -> (r: Self)
        ensures
            r.inv(),
            r.spec_data().spec_name() == name@,
            r.spec_data().spec_unique() == config.unique,
            r.spec_data().spec_sparse() == config.sparse,
            r.spec_contents() == IndexContents::empty(),
    {
        HashIndex { data: IndexData::new(name, config) }
    }

    /// Every value of the index holds at least one document id and none
    /// twice: `new` makes it so, and `insert`, `remove` and `clear` keep it.
    pub proof fn lemma_lists_well_formed(&self)
        requires
            self.inv(),
        ensures
            lists_well_formed(self.spec_contents()),
    {
        self.spec_data().lemma_lists_well_formed();
    }
}

impl Index for HashIndex {
    open spec fn inv(&self) -> bool {
        self.spec_data().wf()
    }

    open spec fn spec_contents(&self) -> IndexContents {
        self.spec_data().contents()
    }

    open spec fn spec_value_order(&self) -> Seq<Seq<char>> {
        self.spec_data().value_order()
    }

    fn name(&self) -> (r: &str)
        ensures
            r@ == self.spec_data().spec_name(),
    {
        self.data.name()
    }

    fn index_type(&self) -> (r: IndexType)
        ensures
            r == IndexType::Hash,
    {
        IndexType::Hash
    }

    fn insert(&mut self, value: &str, document_id: &str) -> (r: Result<(), IndexError>)
        ensures
            final(self).spec_data().spec_unique() == old(self).spec_data().spec_unique(),
            final(self).spec_data().spec_sparse() == old(self).spec_data().spec_sparse(),
            final(self).spec_data().spec_name() == old(self).spec_data().spec_name(),
            insert_refused(old(self).spec_contents(), old(self).spec_data().spec_unique(), old(self).spec_data().spec_sparse(), value@)
                ==> (r matches Err(IndexError::InvalidIndexValue)) && final(self).spec_contents() == old(self).spec_contents(),
            !insert_refused(old(self).spec_contents(), old(self).spec_data().spec_unique(), old(self).spec_data().spec_sparse(), value@)
                ==> r is Ok && final(self).spec_contents() == old(self).spec_contents().insert(
                value@,
                docs_after_insert(old(self).spec_contents(), value@, document_id@),
            ),
    {
        self.data.insert(value, document_id)
    }

    fn remove(&mut self, value: &str, document_id: &str) -> (r: Result<(), IndexError>)
        ensures
            r is Ok,
            final(self).spec_data().spec_unique() == old(self).spec_data().spec_unique(),
            final(self).spec_data().spec_sparse() == old(self).spec_data().spec_sparse(),
            final(self).spec_data().spec_name() == old(self).spec_data().spec_name(),
            final(self).spec_contents() == contents_after_remove(old(self).spec_contents(), value@, document_id@),
    {
        self.data.remove(value, document_id)
    }

    fn get(&self, value: &str) -> (r: Result<Vec<String>, IndexError>) {
        self.data.get(value)
    }

    fn values(&self) -> (r: Result<Vec<String>, IndexError>)
        ensures
            r matches Ok(vs) && texts(vs@) == self.spec_data().value_order(),
    {
        self.data.values_in_order()
    }

    fn stats(&self) -> (r: Result<IndexCounts, IndexError>) {
        Ok(self.data.counts())
    }

    fn clear(&mut self) -> (r: Result<(), IndexError>) {
        self.data.clear()
    }
}

/// B-tree index: values in lexicographic order.
#[derive(Debug)]
pub struct BTreeIndex {
    data: IndexData,
}

impl BTreeIndex {
    pub closed spec fn spec_data(&self) -> IndexData {
        self.data
    }

    pub fn new(name: String, config: &IndexConfig) -> (r: Self)
        ensures
            r.inv(),
            r.spec_data().spec_name() == name@,
            r.spec_data().spec_unique() == config.unique,
            r.spec_data().spec_sparse() == config.sparse,
            r.spec_contents() == IndexContents::empty(),
    {
        BTreeIndex { data: IndexData::new(name, config) }
    }

    /// Every value of the index holds at least one document id and none
    /// twice: `new` makes it so, and `insert`, `remove` and `clear` keep it.
    pub proof fn lemma_lists_well_formed(&self)
        requires
            self.inv(),
        ensures
            lists_well_formed(self.spec_contents()),
    {
        self.spec_data().lemma_lists_well_formed();
    }
}

impl Index for BTreeIndex {
    open spec fn inv(&self) -> bool {
        self.spec_data().wf()
    }

    open spec fn spec_contents(&self) -> IndexContents {
        self.spec_data().contents()
    }

    open spec fn spec_value_order(&self) -> Seq<Seq<char>> {
        self.spec_data().value_order()
    }

    fn name(&self) -> (r: &str)
        ensures
            r@ == self.spec_data().spec_name(),
    {
        self.data.name()
    }

    fn index_type(&self) -> (r: IndexType)
        ensures
            r == IndexType::BTree,
    {
        IndexType::BTree
    }

    fn insert(&mut self, value: &str, document_id: &str) -> (r: Result<(), IndexError>)
        ensures
            final(self).spec_data().spec_unique() == old(self).spec_data().spec_unique(),
            final(self).spec_data().spec_sparse() == old(self).spec_data().spec_sparse(),
            final(self).spec_data().spec_name() == old(self).spec_data().spec_name(),
            insert_refused(old(self).spec_contents(), old(self).spec_data().spec_unique(), old(self).spec_data().spec_sparse(), value@)
                ==> (r matches Err(IndexError::InvalidIndexValue)) && final(self).spec_contents() == old(self).spec_contents(),
            !insert_refused(old(self).spec_contents(), old(self).spec_data().spec_unique(), old(self).spec_data().spec_sparse(), value@)
                ==> r is Ok && final(self).spec_contents() == old(self).spec_contents().insert(
                value@,
                docs_after_insert(old(self).spec_contents(), value@, document_id@),
            ),
    {
        self.data.insert(value, document_id)
    }

    fn remove(&mut self, value: &str, document_id: &str) -> (r: Result<(), IndexError>)
        ensures
            r is Ok,
            final(self).spec_data().spec_unique() == old(self).spec_data().spec_unique(),
            final(self).spec_data().spec_sparse() == old(self).spec_data().spec_sparse(),
            final(self).spec_data().spec_name() == old(self).spec_data().spec_name(),
            final(self).spec_contents() == contents_after_remove(old(self).spec_contents(), value@, document_id@),
    {
        self.data.remove(value, document_id)
    }

    fn get(&self, value: &str) -> (r: Result<Vec<String>, IndexError>) {
        self.data.get(value)
    }

    fn values(&self) -> (r: Result<Vec<String>, IndexError>)
        ensures
            r matches Ok(vs) && sorted_lex(texts(vs@)),
    {
        let vs = match self.data.values_in_order() {
            Ok(v) => v,
            Err(e) => return Err(e),
        };
        let sorted = sort_values(vs);
        proof {
            let a = texts(sorted@);
            let b = self.data.value_order();
            b.lemma_multiset_has_no_duplicates();
            assert forall|x: Seq<char>| a.to_multiset().contains(x) implies a.to_multiset().count(x) == 1 by {}
            a.lemma_multiset_has_no_duplicates_conv();
            assert forall|x: Seq<char>| a.to_set().contains(x) == b.to_set().contains(x) by {
                broadcast use vstd::seq_lib::group_to_multiset_ensures;
                assert(a.contains(x) == (a.to_multiset().count(x) > 0));
                assert(b.contains(x) == (b.to_multiset().count(x) > 0));
            }
            assert(a.to_set() =~= b.to_set());
        }
        Ok(sorted)
    }

    fn stats(&self) -> (r: Result<IndexCounts, IndexError>) {
        Ok(self.data.counts())
    }

    fn clear(&mut self) -> (r: Result<(), IndexError>) {
        self.data.clear()
    }
}

/// The index kinds the indexed storage holds.
#[derive(Debug)]
pub enum IndexImpl {
    Hash(HashIndex),
    BTree(BTreeIndex),
}

impl IndexImpl {
    pub open spec fn inv(&self) -> bool {
        match self {
            IndexImpl::Hash(h) => h.inv(),
            IndexImpl::BTree(b) => b.inv(),
        }
    }

    pub open spec fn spec_contents(&self) -> IndexContents {
        match self {
            IndexImpl::Hash(h) => h.spec_contents(),
            IndexImpl::BTree(b) => b.spec_contents(),
        }
    }

    pub open spec fn spec_value_order(&self) -> Seq<Seq<char>> {
        match self {
            IndexImpl::Hash(h) => h.spec_value_order(),
            IndexImpl::BTree(b) => b.spec_value_order(),
        }
    }

    pub open spec fn spec_index_type(&self) -> IndexType {
        match self {
            IndexImpl::Hash(_) => IndexType::Hash,
            IndexImpl::BTree(_) => IndexType::BTree,
        }
    }

    pub fn index_type(&self) -> (r: IndexType)
        ensures
            r == self.spec_index_type(),
    {
        match self {
            IndexImpl::Hash(h) => h.index_type(),
            IndexImpl::BTree(b) => b.index_type(),
        }
    }

    pub fn get(&self, value: &str) -> (r: Result<Vec<String>, IndexError>)
        requires
            self.inv(),
        ensures
            r matches Ok(ids) && texts(ids@) == docs_of(self.spec_contents(), value@),
    {
        match self {
            IndexImpl::Hash(h) => h.get(value),
            IndexImpl::BTree(b) => b.get(value),
        }
    }

    pub fn stats(&self) -> (r: Result<IndexCounts, IndexError>)
        requires
            self.inv(),
        ensures
            r matches Ok(c) && c.entry_count == self.spec_contents().len() && top_values_of(
                self.spec_contents(),
                pair_views(c.top_values@),
            ) && c.total_entries == capped_total(self.spec_contents(), self.spec_value_order()),
    {
        match self {
            IndexImpl::Hash(h) => h.stats(),
            IndexImpl::BTree(b) => b.stats(),
        }
    }
}

/// Index metadata. `last_updated` is in milliseconds since the Unix epoch.
#[derive(Debug, PartialEq, Eq)]
pub struct IndexMetadata {
    pub config: IndexConfig,
    pub entry_count: usize,
    pub size_bytes: usize,
    pub last_updated: i64,
}

impl Clone for IndexMetadata {
    fn clone(&self) -> (r: Self)
        ensures
            r == *self,
    {
        IndexMetadata {
            config: self.config.clone(),
            entry_count: self.entry_count,
            size_bytes: self.size_bytes,
            last_updated: self.last_updated,
        }
    }
}

/// Storage with secondary indices.
#[derive(Debug)]
pub struct IndexedStorage {
    primary: Storage,
    indices: KeyedMap<String, IndexImpl>,
    metadata: KeyedMap<String, IndexMetadata>,
}

/// The metadata of an index just created with `config` at the time `t`:
/// no entries yet.
pub open spec fn fresh_metadata(config: IndexConfig, t: i64) -> IndexMetadata {
    IndexMetadata { config, entry_count: 0, size_bytes: 0, last_updated: t }
}

impl IndexedStorage {
    pub closed spec fn wf(&self) -> bool {
        &&& self.indices.wf()
        &&& self.metadata.wf()
        &&& forall|k: Seq<char>| #[trigger] self.indices.map().contains_key(k) ==> self.indices.map()[k].inv()
    }

    /// The indices: name to kind.
    pub closed spec fn index_types(&self) -> Map<Seq<char>, IndexType> {
        self.indices.map().map_values(|ix: IndexImpl| ix.spec_index_type())
    }

    /// The indices: name to contents.
    pub closed spec fn index_contents(&self) -> Map<Seq<char>, IndexContents> {
        self.indices.map().map_values(|ix: IndexImpl| ix.spec_contents())
    }

    /// The indices: name to the order in which each keeps its values.
    pub closed spec fn index_value_orders(&self) -> Map<Seq<char>, Seq<Seq<char>>> {
        self.indices.map().map_values(|ix: IndexImpl| ix.spec_value_order())
    }

    /// The index names in creation order.
    pub closed spec fn index_order(&self) -> Seq<Seq<char>> {
        self.indices.key_seq()
    }

    pub closed spec fn metadata_map(&self) -> Map<Seq<char>, IndexMetadata> {
        self.metadata.map()
    }

    pub closed spec fn spec_primary(&self) -> Storage {
        self.primary
    }

    pub fn new(primary: Storage) -> (r: Self)
        ensures
            r.wf(),
            r.index_types() == Map::<Seq<char>, IndexType>::empty(),
            r.metadata_map() == Map::<Seq<char>, IndexMetadata>::empty(),
            r.spec_primary() == primary,
    {
        let r = IndexedStorage { primary, indices: KeyedMap::new(), metadata: KeyedMap::new() };
        assert(r.index_types() =~= Map::<Seq<char>, IndexType>::empty());
        r
    }

    /// Creates an index as of the given time.
    pub fn create_index_at(&mut self, config: IndexConfig, now: i64) -> (r: Result<(), IndexError>)
        requires
            old(self).wf(),
        ensures
            final(self).wf(),
            old(self).index_types().contains_key(config.name@) ==> (r matches Err(
                IndexError::IndexAlreadyExists(n),
            ) && n@ == config.name@) && final(self).index_types() == old(self).index_types()
                && final(self).metadata_map() == old(self).metadata_map(),
            !old(self).index_types().contains_key(config.name@) && config.index_type
                == IndexType::FullText ==> (r matches Err(IndexError::InvalidIndexValue)) && final(self).index_types() == old(self).index_types() && final(self).metadata_map() == old(self).metadata_map(),
            !old(self).index_types().contains_key(config.name@) && config.index_type
                != IndexType::FullText ==> r is Ok && final(self).index_types() == old(self).index_types().insert(config.name@, config.index_type) && final(self).index_contents()
                == old(self).index_contents().insert(config.name@, IndexContents::empty())
                && final(self).metadata_map() == old(self).metadata_map().insert(
                config.name@,
                IndexMetadata { config, entry_count: 0, size_bytes: 0, last_updated: now },
            ),
    {
        let index_name = config.name.clone();
        if self.indices.contains_key(&index_name) {
            proof {
                assert(self.indices.map().dom() =~= self.index_types().dom());
            }
            return Err(IndexError::IndexAlreadyExists(index_name));
        }
        proof {
            assert(self.indices.map().dom() =~= self.index_types().dom());
        }
        let index = match config.index_type {
            IndexType::Hash => IndexImpl::Hash(HashIndex::new(index_name.clone(), &config)),
            IndexType::BTree => IndexImpl::BTree(BTreeIndex::new(index_name.clone(), &config)),
            IndexType::FullText => {
                return Err(IndexError::InvalidIndexValue);
            },
        };
        let ghost ix = index;
        self.indices.insert(index_name.clone(), index);
        let ghost cfg = config;
        self.metadata.insert(
            index_name,
            IndexMetadata { config, entry_count: 0, size_bytes: 0, last_updated: now },
        );
        proof {
            assert(self.index_types() =~= old(self).index_types().insert(cfg.name@, cfg.index_type));
            assert(self.index_contents() =~= old(self).index_contents().insert(
                cfg.name@,
                IndexContents::empty(),
            ));
            assert forall|k: Seq<char>| #[trigger] self.indices.map().contains_key(k) implies self.indices.map()[k].inv() by {
                if k != cfg.name@ {
                    assert(old(self).indices.map().contains_key(k));
                }
            }
        }
        Ok(())
    }

    /// Creates an index now: as `create_index_at`, stamped with the clock.
    pub fn create_index(&mut self, config: IndexConfig) -> (r: Result<(), IndexError>)
        requires
            old(self).wf(),
        ensures
            final(self).wf(),
            old(self).index_types().contains_key(config.name@) ==> (r matches Err(
                IndexError::IndexAlreadyExists(n),
            ) && n@ == config.name@) && final(self).index_types() == old(self).index_types()
                && final(self).metadata_map() == old(self).metadata_map(),
            !old(self).index_types().contains_key(config.name@) && config.index_type
                == IndexType::FullText ==> (r matches Err(IndexError::InvalidIndexValue)) && final(self).index_types() == old(self).index_types() && final(self).metadata_map() == old(self).metadata_map(),
            !old(self).index_types().contains_key(config.name@) && config.index_type
                != IndexType::FullText ==> r is Ok && final(self).index_types() == old(self).index_types().insert(config.name@, config.index_type) && final(self).index_contents()
                == old(self).index_contents().insert(config.name@, IndexContents::empty())
                && exists|t: i64| final(self).metadata_map() == old(self).metadata_map().insert(
                config.name@,
                #[trigger] fresh_metadata(config, t),
            ),
    {
        let now = now_millis();
        let ghost cfg = config;
        let r = self.create_index_at(config, now);
        assert(fresh_metadata(cfg, now) == (IndexMetadata { config: cfg, entry_count: 0, size_bytes: 0, last_updated: now }));
        r
    }

    /// Drops an index.
    pub fn drop_index(&mut self, name: &str) -> (r: Result<(), IndexError>)
        requires
            old(self).wf(),
        ensures
            final(self).wf(),
            old(self).index_types().contains_key(name@) ==> r is Ok && final(self).index_types()
                == old(self).index_types().remove(name@) && final(self).metadata_map() == old(self).metadata_map().remove(name@)
                && final(self).index_contents() == old(self).index_contents().remove(name@),
            !old(self).index_types().contains_key(name@) ==> (r matches Err(IndexError::IndexNotFound(n))
                && n@ == name@) && final(self).index_types() == old(self).index_types()
                && final(self).index_contents() == old(self).index_contents()
                && final(self).metadata_map() == old(self).metadata_map(),
    {
        let key = String::from_str(name);
        if !self.indices.contains_key(&key) {
            return Err(IndexError::IndexNotFound(key));
        }
        let _ = self.indices.remove(&key);
        let _ = self.metadata.remove(&key);
        proof {
            assert(self.index_types() =~= old(self).index_types().remove(name@));
            assert(self.index_contents() =~= old(self).index_contents().remove(name@));
            assert forall|k: Seq<char>| #[trigger] self.indices.map().contains_key(k) implies self.indices.map()[k].inv() by {
                assert(old(self).indices.map().contains_key(k));
            }
        }
        Ok(())
    }

    /// The index names in creation order.
    pub fn list_indices(&self) -> (r: Vec<String>)
        requires
            self.wf(),
        ensures
            texts(r@) == self.index_order(),
            texts(r@).to_set() == self.index_types().dom(),
            texts(r@).no_duplicates(),
    {
        let r = self.indices.keys();
        proof {
            assert(texts(r@) =~= r@.map_values(|k: String| k@));
            self.indices.lemma_key_seq_contains(Seq::<char>::empty());
            assert(self.index_types().dom() =~= self.indices.map().dom());
        }
        r
    }

    pub fn get_index_metadata(&self, name: &str) -> (r: Option<IndexMetadata>)
        requires
            self.wf(),
        ensures
            r is Some <==> self.metadata_map().contains_key(name@),
            r matches Some(m) ==> m == self.metadata_map()[name@],
    {
        let key = String::from_str(name);
        match self.metadata.get(&key) {
            Some(m) => Some(m.clone()),
            None => None,
        }
    }

    /// The ids of the documents holding `value` in the named index.
    pub fn query_by_index(&self, index_name: &str, value: &str) -> (r: Result<Vec<String>, IndexError>)
        requires
            self.wf(),
        ensures
            !self.index_contents().contains_key(index_name@) ==> (r matches Err(
                IndexError::IndexNotFound(n),
            ) && n@ == index_name@),
            self.index_contents().contains_key(index_name@) ==> (r matches Ok(ids) && texts(ids@)
                == docs_of(self.index_contents()[index_name@], value@)),
    {
        let key = String::from_str(index_name);
        match self.indices.get(&key) {
            Some(ix) => ix.get(value),
            None => Err(IndexError::IndexNotFound(key)),
        }
    }

    /// Range query over a B-tree index: ranges are not served yet, so a
    /// B-tree index answers with no documents.
    pub fn range_query(&self, index_name: &str, start: &str, end: &str) -> (r: Result<
        Vec<String>,
        IndexError,
    >)
        requires
            self.wf(),
        ensures
            !self.index_types().contains_key(index_name@) ==> (r matches Err(
                IndexError::IndexNotFound(n),
            ) && n@ == index_name@),
            self.index_types().contains_key(index_name@) && self.index_types()[index_name@]
                != IndexType::BTree ==> (r matches Err(IndexError::InvalidIndexValue)),
            self.index_types().contains_key(index_name@) && self.index_types()[index_name@]
                == IndexType::BTree ==> (r matches Ok(ids) && ids@.len() == 0),
    {
        let key = String::from_str(index_name);
        match self.indices.get(&key) {
            Some(ix) => {
                if ix.index_type() != IndexType::BTree {
                    return Err(IndexError::InvalidIndexValue);
                }
                Ok(Vec::new())
            },
            None => Err(IndexError::IndexNotFound(key)),
        }
    }

    /// Counts of the named index.
    pub fn get_index_stats(&self, name: &str) -> (r: Result<IndexCounts, IndexError>)
        requires
            self.wf(),
        ensures
            !self.index_contents().contains_key(name@) ==> (r matches Err(IndexError::IndexNotFound(n))
                && n@ == name@),
            self.index_contents().contains_key(name@) ==> (r matches Ok(c) && c.entry_count
                == self.index_contents()[name@].len() && top_values_of(
                self.index_contents()[name@],
                pair_views(c.top_values@),
            ) && c.total_entries == capped_total(
                self.index_contents()[name@],
                self.index_value_orders()[name@],
            )),
    {
        let key = String::from_str(name);
        match self.indices.get(&key) {
            Some(ix) => ix.stats(),
            None => Err(IndexError::IndexNotFound(key)),
        }
    }
}

} // verus!
