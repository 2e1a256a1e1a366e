//! The engine's state: the decoded record table and the two derived
//! in-memory index caches (distinct collection names, currently-deployed
//! record ids). The table is modelled as a sequence of records with unique
//! ids; `spec_find`, `spec_put` and `spec_remove_id` are its mathematical
//! lookup, upsert and removal, and the public lemmas relate them.
use vstd::prelude::*;

use crate::metadata::{Metadata, MetadataView};
use crate::text::{clone_opt_string, clone_strings, str_eq};

verus! {

/// The first record of `s` carrying `id`, if any.
pub open spec fn spec_find(s: Seq<MetadataView>, id: Seq<char>) -> Option<MetadataView>
    decreases s.len(),
{
    if s.len() == 0 {
        None
    } else if s[0].id == id {
        Some(s[0])
    } else {
        spec_find(s.drop_first(), id)
    }
}

/// Whether some record of `s` carries `id`.
pub open spec fn spec_has(s: Seq<MetadataView>, id: Seq<char>) -> bool {
    spec_find(s, id) is Some
}

/// The upsert: the first record carrying `m.id` is replaced by `m`, or `m`
/// is appended when none does.
pub open spec fn spec_put(s: Seq<MetadataView>, m: MetadataView) -> Seq<MetadataView>
    decreases s.len(),
{
    if s.len() == 0 {
        seq![m]
    } else if s[0].id == m.id {
        seq![m] + s.drop_first()
    } else {
        seq![s[0]] + spec_put(s.drop_first(), m)
    }
}

/// The removal: the first record carrying `id` is dropped.
pub open spec fn spec_remove_id(s: Seq<MetadataView>, id: Seq<char>) -> Seq<MetadataView>
    decreases s.len(),
{
    if s.len() == 0 {
        s
    } else if s[0].id == id {
        s.drop_first()
    } else {
        seq![s[0]] + spec_remove_id(s.drop_first(), id)
    }
}

/// No two records of `s` carry the same id.
pub open spec fn spec_unique_ids(s: Seq<MetadataView>) -> bool
    decreases s.len(),
{
    if s.len() == 0 {
        true
    } else {
        !spec_has(s.drop_first(), s[0].id) && spec_unique_ids(s.drop_first())
    }
}

/// Lookup after an upsert: the upserted id maps to the new record, every
/// other id is untouched.
pub proof fn lemma_find_put(s: Seq<MetadataView>, m: MetadataView, q: Seq<char>)
    ensures
        spec_find(spec_put(s, m), q) == if q == m.id {
            Some(m)
        } else {
            spec_find(s, q)
        },
    decreases s.len(),
{
    if s.len() == 0 {
        let t = spec_put(s, m);
        assert(t == seq![m]);
        assert(t.drop_first() =~= Seq::<MetadataView>::empty());
        if q != m.id {
            assert(spec_find(t, q) == spec_find(t.drop_first(), q));
        }
    } else if s[0].id == m.id {
        let t = seq![m] + s.drop_first();
        assert(spec_put(s, m) == t);
        assert(t[0] == m);
        assert(t.drop_first() =~= s.drop_first());
        if q != m.id {
            assert(spec_find(t, q) == spec_find(s.drop_first(), q));
            assert(spec_find(s, q) == spec_find(s.drop_first(), q));
        }
    } else {
        let t = seq![s[0]] + spec_put(s.drop_first(), m);
        assert(spec_put(s, m) == t);
        assert(t[0] == s[0]);
        assert(t.drop_first() =~= spec_put(s.drop_first(), m));
        lemma_find_put(s.drop_first(), m, q);
        if t[0].id == q {
            assert(s[0].id == q);
        }
    }
}

/// An upsert keeps ids unique.
pub proof fn lemma_put_unique(s: Seq<MetadataView>, m: MetadataView)
    requires
        spec_unique_ids(s),
    ensures
        spec_unique_ids(spec_put(s, m)),
    decreases s.len(),
{
    if s.len() == 0 {
        let t = spec_put(s, m);
        assert(t.drop_first() =~= Seq::<MetadataView>::empty());
        assert(spec_find(Seq::<MetadataView>::empty(), m.id) is None);
        assert(spec_unique_ids(Seq::<MetadataView>::empty()));
    } else if s[0].id == m.id {
        let t = seq![m] + s.drop_first();
        assert(t.drop_first() =~= s.drop_first());
        assert(!spec_has(s.drop_first(), s[0].id));
    } else {
        let t = seq![s[0]] + spec_put(s.drop_first(), m);
        assert(t.drop_first() =~= spec_put(s.drop_first(), m));
        lemma_put_unique(s.drop_first(), m);
        lemma_find_put(s.drop_first(), m, s[0].id);
        assert(!spec_has(spec_put(s.drop_first(), m), s[0].id));
    }
}

/// Lookup after a removal (of a store with unique ids): the removed id
/// maps to nothing, every other id is untouched.
pub proof fn lemma_find_remove(s: Seq<MetadataView>, id: Seq<char>, q: Seq<char>)
    requires
        spec_unique_ids(s),
    ensures
        spec_find(spec_remove_id(s, id), q) == if q == id {
            None::<MetadataView>
        } else {
            spec_find(s, q)
        },
    decreases s.len(),
{
    if s.len() == 0 {
    } else if s[0].id == id {
        assert(spec_remove_id(s, id) == s.drop_first());
        if q == id {
            assert(!spec_has(s.drop_first(), s[0].id));
        }
    } else {
        let t = seq![s[0]] + spec_remove_id(s.drop_first(), id);
        assert(spec_remove_id(s, id) == t);
        assert(t[0] == s[0]);
        assert(t.drop_first() =~= spec_remove_id(s.drop_first(), id));
        lemma_find_remove(s.drop_first(), id, q);
        if t[0].id == q {
            assert(s[0].id == q);
        }
    }
}

/// A removal keeps ids unique.
pub proof fn lemma_remove_unique(s: Seq<MetadataView>, id: Seq<char>)
    requires
        spec_unique_ids(s),
    ensures
        spec_unique_ids(spec_remove_id(s, id)),
    decreases s.len(),
{
    if s.len() == 0 {
    } else if s[0].id == id {
    } else {
        let t = seq![s[0]] + spec_remove_id(s.drop_first(), id);
        assert(t.drop_first() =~= spec_remove_id(s.drop_first(), id));
        lemma_remove_unique(s.drop_first(), id);
        lemma_find_remove(s.drop_first(), id, s[0].id);
        assert(!spec_has(spec_remove_id(s.drop_first(), id), s[0].id));
    }
}

/// Whether some string of `s` equals `x`.
pub open spec fn spec_contains_str(s: Seq<Seq<char>>, x: Seq<char>) -> bool {
    exists|i: int| 0 <= i < s.len() && s[i] == x
}

/// No two strings of `s` are equal.
pub open spec fn spec_distinct_strs(s: Seq<Seq<char>>) -> bool {
    forall|i: int, j: int| 0 <= i < j < s.len() ==> s[i] != s[j]
}

/// The engine's state: the record table and the two derived index caches.
/// The caches are non-authoritative and rebuildable from the table at any
/// time.
pub struct DataState {
    records: Vec<Metadata>,
    collection_cache: Vec<String>,
    deployment_cache: Vec<String>,
}

impl DataState {
    /// The record table's ghost value.
    pub closed spec fn records_view(self) -> Seq<MetadataView> {
        self.records.deep_view()
    }

    /// The collection cache's ghost value.
    pub closed spec fn collections_view(self) -> Seq<Seq<char>> {
        self.collection_cache.deep_view()
    }

    /// The deployment cache's ghost value.
    pub closed spec fn deployed_view(self) -> Seq<Seq<char>> {
        self.deployment_cache.deep_view()
    }

    /// The state's validity: record ids are unique, and neither cache holds
    /// a duplicate.
    pub closed spec fn inv(self) -> bool {
        &&& spec_unique_ids(self.records_view())
        &&& spec_distinct_strs(self.collections_view())
        &&& spec_distinct_strs(self.deployed_view())
    }

    /// An empty state: no records, empty caches.
    pub fn new() -> (r: Self)
        ensures
            r.inv(),
            r.records_view() == Seq::<MetadataView>::empty(),
            r.collections_view() == Seq::<Seq<char>>::empty(),
            r.deployed_view() == Seq::<Seq<char>>::empty(),
    {
        let r = DataState {
            records: Vec::new(),
            collection_cache: Vec::new(),
            deployment_cache: Vec::new(),
        };
        proof {
            assert(r.records_view() =~= Seq::<MetadataView>::empty());
            assert(r.collections_view() =~= Seq::<Seq<char>>::empty());
            assert(r.deployed_view() =~= Seq::<Seq<char>>::empty());
        }
        r
    }

    /// The index of the first record carrying `id`, tied to `spec_find`.
    fn find_index(&self, id: &str) -> (r: Option<usize>)
        ensures
            match r {
                Some(i) => {
                    &&& i < self.records@.len()
                    &&& self.records_view()[i as int].id == id@
                    &&& forall|j: int| 0 <= j < i ==> self.records_view()[j].id != id@
                    &&& spec_find(self.records_view(), id@) == Some(self.records_view()[i as int])
                },
                None => spec_find(self.records_view(), id@) is None,
            },
    {
        let n = self.records.len();
        let mut i: usize = 0;
        while i < n
            invariant
                n == self.records@.len(),
                i <= n,
                forall|j: int| 0 <= j < i ==> self.records_view()[j].id != id@,
            decreases n - i,
        {
            proof {
                assert(self.records_view()[i as int] == self.records@[i as int]@);
            }
            if str_eq(self.records[i].id.as_str(), id) {
                proof {
                    lemma_find_first(self.records_view(), id@, i as int);
                }
                return Some(i);
            }
            i += 1;
        }
        proof {
            lemma_find_absent(self.records_view(), id@);
        }
        None
    }

    /// The record carrying `id`, if any.
    pub fn get(&self, id: &str) -> (r: Option<&Metadata>)
        ensures
            match r {
                Some(m) => spec_find(self.records_view(), id@) == Some(m@),
                None => spec_find(self.records_view(), id@) is None,
            },
    {
        match self.find_index(id) {
            Some(i) => Some(&self.records[i]),
            None => None,
        }
    }

    /// All records, in table order.
    pub fn scan(&self) -> (r: Vec<Metadata>)
        ensures
            r.deep_view() == self.records_view(),
    {
        let mut out: Vec<Metadata> = Vec::new();
        let n = self.records.len();
        let mut i: usize = 0;
        while i < n
            invariant
                n == self.records@.len(),
                i <= n,
                out@.len() == i,
                forall|j: int| 0 <= j < i ==> out@[j]@ == self.records@[j]@,
            decreases n - i,
        {
            out.push(self.records[i].clone_record());
            i += 1;
        }
        proof {
            assert forall|j: int| 0 <= j < out@.len() implies #[trigger] out.deep_view()[j]
                == out@[j]@ by {}
            assert forall|j: int| 0 <= j < self.records@.len() implies #[trigger] self
                .records_view()[j] == self.records@[j]@ by {}
            assert(out.deep_view() =~= self.records_view());
        }
        out
    }

    /// The number of records.
    pub fn len(&self) -> (r: usize)
        ensures
            r == self.records_view().len(),
    {
        self.records.len()
    }

    /// Upserts `m` by its id: the table becomes `spec_put` of the old
    /// table, and the caches are untouched.
    pub fn put(&mut self, m: Metadata)
        requires
            old(self).inv(),
        ensures
            final(self).inv(),
            final(self).records_view() == spec_put(old(self).records_view(), m@),
            final(self).collections_view() == old(self).collections_view(),
            final(self).deployed_view() == old(self).deployed_view(),
    {
        let ghost s = self.records_view();
        proof {
            lemma_put_unique(s, m@);
        }
        match self.find_index(m.id.as_str()) {
            Some(i) => {
                proof {
                    lemma_put_update(s, m@, i as int);
                }
                self.records[i] = m;
                proof {
                    assert(self.records_view() =~= s.update(i as int, m@));
                }
            },
            None => {
                proof {
                    lemma_put_append(s, m@);
                }
                self.records.push(m);
                proof {
                    assert(self.records_view() =~= s.push(m@));
                }
            },
        }
    }

    /// Removes the record carrying `id`, reporting whether one existed.
    /// The caches are untouched.
    pub fn remove(&mut self, id: &str) -> (r: Option<Metadata>)
        requires
            old(self).inv(),
        ensures
            final(self).inv(),
            final(self).records_view() == spec_remove_id(old(self).records_view(), id@),
            final(self).collections_view() == old(self).collections_view(),
            final(self).deployed_view() == old(self).deployed_view(),
            match r {
                Some(m) => spec_find(old(self).records_view(), id@) == Some(m@),
                None => spec_find(old(self).records_view(), id@) is None,
            },
    {
        let ghost s = self.records_view();
        proof {
            lemma_remove_unique(s, id@);
        }
        match self.find_index(id) {
            Some(i) => {
                proof {
                    lemma_remove_at(s, id@, i as int);
                }
                let m = self.records.remove(i);
                proof {
                    assert(self.records_view() =~= s.subrange(0, i as int) + s.subrange(
                        i + 1,
                        s.len() as int,
                    ));
                }
                Some(m)
            },
            None => {
                proof {
                    lemma_remove_absent(s, id@);
                    assert(self.records_view() =~= spec_remove_id(s, id@));
                }
                None
            },
        }
    }

    /// Inserts `name` into the collection cache unless already present.
    pub fn collection_cache_insert(&mut self, name: &str)
        requires
            old(self).inv(),
        ensures
            final(self).inv(),
            final(self).records_view() == old(self).records_view(),
            final(self).deployed_view() == old(self).deployed_view(),
            spec_contains_str(final(self).collections_view(), name@),
            forall|q: Seq<char>| q != name@ ==> spec_contains_str(
                final(self).collections_view(),
                q,
            ) == spec_contains_str(old(self).collections_view(), q),
    {
        cache_insert(&mut self.collection_cache, name);
    }

    /// Removes `name` from the collection cache if present.
    pub fn collection_cache_delete(&mut self, name: &str)
        requires
            old(self).inv(),
        ensures
            final(self).inv(),
            final(self).records_view() == old(self).records_view(),
            final(self).deployed_view() == old(self).deployed_view(),
            !spec_contains_str(final(self).collections_view(), name@),
            forall|q: Seq<char>| q != name@ ==> spec_contains_str(
                final(self).collections_view(),
                q,
            ) == spec_contains_str(old(self).collections_view(), q),
    {
        cache_remove(&mut self.collection_cache, name);
    }

    /// Inserts `id` into the deployment cache unless already present.
    pub fn deployment_cache_insert(&mut self, id: &str)
        requires
            old(self).inv(),
        ensures
            final(self).inv(),
            final(self).records_view() == old(self).records_view(),
            final(self).collections_view() == old(self).collections_view(),
            spec_contains_str(final(self).deployed_view(), id@),
            forall|q: Seq<char>| q != id@ ==> spec_contains_str(final(self).deployed_view(), q)
                == spec_contains_str(old(self).deployed_view(), q),
    {
        cache_insert(&mut self.deployment_cache, id);
    }

    /// Removes `id` from the deployment cache if present.
    pub fn deployment_cache_delete(&mut self, id: &str)
        requires
            old(self).inv(),
        ensures
            final(self).inv(),
            final(self).records_view() == old(self).records_view(),
            final(self).collections_view() == old(self).collections_view(),
            !spec_contains_str(final(self).deployed_view(), id@),
            forall|q: Seq<char>| q != id@ ==> spec_contains_str(final(self).deployed_view(), q)
                == spec_contains_str(old(self).deployed_view(), q),
    {
        cache_remove(&mut self.deployment_cache, id);
    }

    /// Rebuilds both index caches from the record table: a full scan, as
    /// run at startup and after a bulk import. Afterwards the collection
    /// cache holds exactly the collection names the records name, and the
    /// deployment cache exactly the ids of deployed records.
    pub fn rebuild_caches(&mut self)
        requires
            old(self).inv(),
        ensures
            final(self).inv(),
            final(self).records_view() == old(self).records_view(),
            forall|q: Seq<char>| #[trigger] spec_contains_str(final(self).collections_view(), q)
                <==> spec_collection_of(final(self).records_view(), q),
            forall|q: Seq<char>| #[trigger] spec_contains_str(final(self).deployed_view(), q)
                <==> spec_deployed_in(final(self).records_view(), q),
    {
        let ghost recs = self.records_view();
        self.collection_cache = Vec::new();
        self.deployment_cache = Vec::new();
        proof {
            assert(self.collections_view() =~= Seq::<Seq<char>>::empty());
            assert(self.deployed_view() =~= Seq::<Seq<char>>::empty());
        }
        let n = self.records.len();
        let mut k: usize = 0;
        while k < n
            invariant
                n == self.records@.len(),
                self.records_view() == recs,
                spec_unique_ids(recs),
                k <= n,
                spec_distinct_strs(self.collections_view()),
                spec_distinct_strs(self.deployed_view()),
                forall|q: Seq<char>| #[trigger] spec_contains_str(self.collections_view(), q)
                    <==> exists|i: int| 0 <= i < k && recs[i].collection == Some(q),
                forall|q: Seq<char>| #[trigger] spec_contains_str(self.deployed_view(), q)
                    <==> exists|i: int| 0 <= i < k && recs[i].id == q && !(recs[i].deploy_info
                    is Absent),
            decreases n - k,
        {
            proof {
                assert(recs[k as int] == self.records@[k as int]@);
            }
            let rec_collection = clone_opt_string(&self.records[k].collection);
            let rec_id = self.records[k].id.clone();
            let is_deployed = match &self.records[k].deploy_info {
                crate::deploy_info::DeployInfo::Absent => false,
                _ => true,
            };
            let ghost coll_before = self.collections_view();
            match &rec_collection {
                Some(name) => {
                    cache_insert(&mut self.collection_cache, name.as_str());
                    proof {
                        assert(recs[k as int].collection == Some(name@));
                    }
                },
                None => {},
            }
            proof {
                assert forall|q: Seq<char>| #[trigger] spec_contains_str(
                    self.collections_view(),
                    q,
                ) <==> exists|i: int| 0 <= i < k + 1 && recs[i].collection == Some(q) by {
                    if spec_contains_str(self.collections_view(), q) {
                        if recs[k as int].collection == Some(q) {
                        } else {
                            assert(spec_contains_str(coll_before, q));
                            let w = choose|w: int| 0 <= w < k && recs[w].collection == Some(q);
                            assert(0 <= w < k + 1 && recs[w].collection == Some(q));
                        }
                    }
                    if exists|i: int| 0 <= i < k + 1 && recs[i].collection == Some(q) {
                        let w = choose|w: int| 0 <= w < k + 1 && recs[w].collection == Some(q);
                        if w < k {
                            assert(spec_contains_str(coll_before, q));
                            assert(spec_contains_str(self.collections_view(), q));
                        } else {
                            assert(recs[k as int].collection == Some(q));
                        }
                    }
                }
            }
            let ghost dep_before = self.deployed_view();
            if is_deployed {
                cache_insert(&mut self.deployment_cache, rec_id.as_str());
            }
            proof {
                assert forall|q: Seq<char>| #[trigger] spec_contains_str(self.deployed_view(), q)
                    <==> exists|i: int| 0 <= i < k + 1 && recs[i].id == q && !(recs[i].deploy_info
                    is Absent) by {
                    if spec_contains_str(self.deployed_view(), q) {
                        if is_deployed && q == rec_id@ {
                            assert(recs[k as int].id == q && !(recs[k as int].deploy_info
                                is Absent));
                        } else {
                            assert(spec_contains_str(dep_before, q));
                            let w = choose|w: int|
                                0 <= w < k && recs[w].id == q && !(recs[w].deploy_info is Absent);
                            assert(0 <= w < k + 1 && recs[w].id == q && !(recs[w].deploy_info
                                is Absent));
                        }
                    }
                    if exists|i: int|
                        0 <= i < k + 1 && recs[i].id == q && !(recs[i].deploy_info is Absent) {
                        let w = choose|w: int|
                            0 <= w < k + 1 && recs[w].id == q && !(recs[w].deploy_info is Absent);
                        if w < k {
                            assert(spec_contains_str(dep_before, q));
                            assert(spec_contains_str(self.deployed_view(), q));
                        } else {
                            assert(is_deployed && recs[k as int].id == q);
                        }
                    }
                }
            }
            k += 1;
        }
    }

    /// A snapshot of the collection cache.
    pub fn collection_cache_list(&self) -> (r: Vec<String>)
        ensures
            r.deep_view() == self.collections_view(),
    {
        clone_strings(&self.collection_cache)
    }

    /// A snapshot of the deployment cache.
    pub fn deployment_cache_list(&self) -> (r: Vec<String>)
        ensures
            r.deep_view() == self.deployed_view(),
    {
        clone_strings(&self.deployment_cache)
    }
}

impl Metadata {
    /// A field-by-field copy of this record, equal to it.
    pub fn clone_record(&self) -> (r: Metadata)
        ensures
            r@ == self@,
    {
        let r = Metadata {
            id: self.id.clone(),
            title: self.title.clone(),
            alias: clone_strings(&self.alias),
            tags: clone_strings(&self.tags),
            collection: clone_opt_string(&self.collection),
            description: clone_opt_string(&self.description),
            image: clone_opt_string(&self.image),
            content_info: self.content_info.duplicate(),
            archive_info: self.archive_info.duplicate(),
            deploy_info: self.deploy_info.duplicate(),
            create_time: self.create_time,
            update_time: self.update_time,
        };
        proof {
            assert(r@ =~= self@);
        }
        r
    }
}

fn cache_insert(v: &mut Vec<String>, name: &str)
    requires
        spec_distinct_strs(old(v).deep_view()),
    ensures
        spec_distinct_strs(final(v).deep_view()),
        spec_contains_str(final(v).deep_view(), name@),
        forall|q: Seq<char>| q != name@ ==> spec_contains_str(final(v).deep_view(), q)
            == spec_contains_str(old(v).deep_view(), q),
{
    proof {
        assert forall|j: int| 0 <= j < v@.len() implies #[trigger] v.deep_view()[j]
            == v@[j]@ by {}
    }
    let n = v.len();
    let mut i: usize = 0;
    while i < n
        invariant
            n == v@.len(),
            v@ == old(v)@,
            spec_distinct_strs(old(v).deep_view()),
            i <= n,
            forall|j: int| 0 <= j < i ==> v@[j]@ != name@,
        decreases n - i,
    {
        if str_eq(v[i].as_str(), name) {
            proof {
                assert forall|j: int| 0 <= j < v@.len() implies #[trigger] v.deep_view()[j]
                    == v@[j]@ by {}
                assert(v.deep_view()[i as int] == name@);
                assert(v.deep_view() =~= old(v).deep_view());
            }
            return ;
        }
        i += 1;
    }
    let ghost before = old(v).deep_view();
    let ghost before_raw = old(v)@;
    v.push(String::from_str(name));
    proof {
        assert forall|j: int| 0 <= j < v@.len() implies #[trigger] v.deep_view()[j]
            == v@[j]@ by {}
        assert forall|j: int| 0 <= j < before_raw.len() implies #[trigger] before[j]
            == before_raw[j]@ by {}
        assert(v.deep_view() =~= before.push(name@));
        let t = v.deep_view();
        assert(t[before.len() as int] == name@);
        assert forall|j: int| 0 <= j < before.len() implies t[j] == before[j] by {}
        assert(spec_distinct_strs(t)) by {
            assert forall|a: int, b: int| 0 <= a < b < t.len() implies t[a] != t[b] by {
                if b == before.len() {
                    assert(before_raw[a]@ != name@);
                } else {
                    assert(before[a] != before[b]);
                }
            }
        }
        assert(spec_contains_str(t, name@));
        assert forall|q: Seq<char>| q != name@ implies spec_contains_str(t, q)
            == spec_contains_str(before, q) by {
            if spec_contains_str(t, q) {
                let w = choose|w: int| 0 <= w < t.len() && t[w] == q;
                assert(w != before.len());
                assert(before[w] == q);
            }
            if spec_contains_str(before, q) {
                let w = choose|w: int| 0 <= w < before.len() && before[w] == q;
                assert(t[w] == q);
            }
        }
    }
}

fn cache_remove(v: &mut Vec<String>, name: &str)
    requires
        spec_distinct_strs(old(v).deep_view()),
    ensures
        spec_distinct_strs(final(v).deep_view()),
        !spec_contains_str(final(v).deep_view(), name@),
        forall|q: Seq<char>| q != name@ ==> spec_contains_str(final(v).deep_view(), q)
            == spec_contains_str(old(v).deep_view(), q),
{
    let n = v.len();
    let mut i: usize = 0;
    while i < n
        invariant
            n == v@.len(),
            v@ == old(v)@,
            spec_distinct_strs(old(v).deep_view()),
            i <= n,
            forall|j: int| 0 <= j < i ==> v@[j]@ != name@,
        decreases n - i,
    {
        if str_eq(v[i].as_str(), name) {
            let ghost before = old(v).deep_view();
            let ghost before_raw = old(v)@;
            proof {
                assert forall|j: int| 0 <= j < before_raw.len() implies #[trigger] before[j]
                    == before_raw[j]@ by {}
                assert(before[i as int] == name@);
            }
            v.remove(i);
            proof {
                assert forall|j: int| 0 <= j < v@.len() implies #[trigger] v.deep_view()[j]
                    == v@[j]@ by {}
                let t = v.deep_view();
                assert(t =~= before.subrange(0, i as int) + before.subrange(
                    i + 1,
                    before.len() as int,
                ));
                assert forall|j: int| 0 <= j < t.len() implies t[j] == (if j < i {
                    before[j]
                } else {
                    before[j + 1]
                }) by {}
                assert(t.len() == before.len() - 1);
                assert(spec_distinct_strs(t)) by {
                    assert forall|a: int, b: int| 0 <= a < b < t.len() implies t[a] != t[b] by {
                        let a2: int = if a < i as int { a } else { a + 1 };
                        let b2: int = if b < i as int { b } else { b + 1 };
                        assert(t[a] == before[a2]);
                        assert(t[b] == before[b2]);
                        assert(0 <= a2 < b2 < before.len());
                        assert(before[a2] != before[b2]);
                    }
                }
                assert(!spec_contains_str(t, name@)) by {
                    if spec_contains_str(t, name@) {
                        let w = choose|w: int| 0 <= w < t.len() && t[w] == name@;
                        let w2: int = if w < i as int { w } else { w + 1 };
                        assert(t[w] == before[w2]);
                        assert(before[w2] == name@);
                        assert(before[i as int] == name@);
                        assert(0 <= w2 < before.len());
                        assert(w2 != i as int);
                        assert(false);
                    }
                }
                assert forall|q: Seq<char>| q != name@ implies spec_contains_str(t, q)
                    == spec_contains_str(before, q) by {
                    if spec_contains_str(t, q) {
                        let w = choose|w: int| 0 <= w < t.len() && t[w] == q;
                        let w2: int = if w < i as int { w } else { w + 1 };
                        assert(t[w] == before[w2]);
                        assert(before[w2] == q);
                    }
                    if spec_contains_str(before, q) {
                        let w = choose|w: int| 0 <= w < before.len() && before[w] == q;
                        assert(w != i as int);
                        if w < i as int {
                            assert(t[w] == q);
                        } else {
                            assert(t[w - 1] == before[w]);
                            assert(t[w - 1] == q);
                        }
                    }
                }
            }
            return ;
        }
        i += 1;
    }
    proof {
        assert forall|j: int| 0 <= j < v@.len() implies #[trigger] v.deep_view()[j]
            == v@[j]@ by {}
        assert(!spec_contains_str(v.deep_view(), name@));
    }
}

/// Whether some record of `s` names `q` as its collection.
pub open spec fn spec_collection_of(s: Seq<MetadataView>, q: Seq<char>) -> bool {
    exists|i: int| 0 <= i < s.len() && s[i].collection == Some(q)
}

/// Whether some record of `s` carries id `q` and is deployed.
pub open spec fn spec_deployed_in(s: Seq<MetadataView>, q: Seq<char>) -> bool {
    exists|i: int| 0 <= i < s.len() && s[i].id == q && !(s[i].deploy_info is Absent)
}

/// A length account of the upsert: replacing keeps the length, appending
/// grows it by one.
pub proof fn lemma_put_len(s: Seq<MetadataView>, m: MetadataView)
    ensures
        spec_put(s, m).len() == if spec_has(s, m.id) {
            s.len()
        } else {
            s.len() + 1
        },
    decreases s.len(),
{
    if s.len() == 0 {
    } else if s[0].id == m.id {
    } else {
        lemma_put_len(s.drop_first(), m);
    }
}

/// A found record carries the id it was found under.
pub proof fn lemma_find_id(s: Seq<MetadataView>, id: Seq<char>)
    ensures
        spec_find(s, id) matches Some(m) ==> m.id == id,
    decreases s.len(),
{
    if s.len() > 0 {
        lemma_find_id(s.drop_first(), id);
    }
}

/// A valid state's record ids are unique.
pub proof fn lemma_inv_unique(s: DataState)
    requires
        s.inv(),
    ensures
        spec_unique_ids(s.records_view()),
{
}

/// `spec_find` yields the record at the first matching index.
pub proof fn lemma_find_first(s: Seq<MetadataView>, id: Seq<char>, i: int)
    requires
        0 <= i < s.len(),
        s[i].id == id,
        forall|j: int| 0 <= j < i ==> s[j].id != id,
    ensures
        spec_find(s, id) == Some(s[i]),
    decreases i,
{
    if i == 0 {
    } else {
        assert(s[0].id != id);
        lemma_find_first(s.drop_first(), id, i - 1);
        assert(s.drop_first()[i - 1] == s[i]);
    }
}

/// `spec_find` yields nothing when no record matches.
pub proof fn lemma_find_absent(s: Seq<MetadataView>, id: Seq<char>)
    requires
        forall|j: int| 0 <= j < s.len() ==> s[j].id != id,
    ensures
        spec_find(s, id) is None,
    decreases s.len(),
{
    if s.len() > 0 {
        lemma_find_absent(s.drop_first(), id);
    }
}

/// `spec_put` replaces in place at the first matching index.
pub proof fn lemma_put_update(s: Seq<MetadataView>, m: MetadataView, i: int)
    requires
        0 <= i < s.len(),
        s[i].id == m.id,
        forall|j: int| 0 <= j < i ==> s[j].id != m.id,
    ensures
        spec_put(s, m) == s.update(i, m),
    decreases i,
{
    if i == 0 {
        assert(spec_put(s, m) == seq![m] + s.drop_first());
        assert(seq![m] + s.drop_first() =~= s.update(0, m));
    } else {
        assert(s[0].id != m.id);
        lemma_put_update(s.drop_first(), m, i - 1);
        assert(s.drop_first()[i - 1] == s[i]);
        assert(seq![s[0]] + s.drop_first().update(i - 1, m) =~= s.update(i, m));
    }
}

/// `spec_put` appends when no record matches.
pub proof fn lemma_put_append(s: Seq<MetadataView>, m: MetadataView)
    requires
        spec_find(s, m.id) is None,
    ensures
        spec_put(s, m) == s.push(m),
    decreases s.len(),
{
    if s.len() == 0 {
        assert(spec_put(s, m) =~= s.push(m));
    } else {
        assert(s[0].id != m.id);
        lemma_put_append(s.drop_first(), m);
        assert(seq![s[0]] + s.drop_first().push(m) =~= s.push(m));
    }
}

/// `spec_remove_id` drops exactly the first matching index.
pub proof fn lemma_remove_at(s: Seq<MetadataView>, id: Seq<char>, i: int)
    requires
        0 <= i < s.len(),
        s[i].id == id,
        forall|j: int| 0 <= j < i ==> s[j].id != id,
    ensures
        spec_remove_id(s, id) == s.subrange(0, i) + s.subrange(i + 1, s.len() as int),
    decreases i,
{
    if i == 0 {
        assert(spec_remove_id(s, id) == s.drop_first());
        assert(s.drop_first() =~= s.subrange(0, 0) + s.subrange(1, s.len() as int));
    } else {
        assert(s[0].id != id);
        lemma_remove_at(s.drop_first(), id, i - 1);
        assert(s.drop_first()[i - 1] == s[i]);
        assert(s.drop_first().subrange(0, i - 1) =~= s.subrange(1, i));
        assert(s.drop_first().subrange(i, s.len() - 1) =~= s.subrange(i + 1, s.len() as int));
        assert(seq![s[0]] + (s.subrange(1, i) + s.subrange(i + 1, s.len() as int)) =~= s.subrange(
            0,
            i,
        ) + s.subrange(i + 1, s.len() as int));
    }
}

/// `spec_remove_id` leaves the table alone when no record matches.
pub proof fn lemma_remove_absent(s: Seq<MetadataView>, id: Seq<char>)
    requires
        spec_find(s, id) is None,
    ensures
        spec_remove_id(s, id) == s,
    decreases s.len(),
{
    if s.len() > 0 {
        assert(s[0].id != id);
        lemma_remove_absent(s.drop_first(), id);
        assert(seq![s[0]] + s.drop_first() =~= s);
    }
}

} // verus!