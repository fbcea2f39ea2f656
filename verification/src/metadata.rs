use vstd::prelude::*;

verus! {

/// One metadata entry: a key and its ordered values.
pub type MetaEntry = (Seq<char>, Seq<Seq<char>>);

/// The index of the entry with the given key, or the length when there is
/// none.
pub open spec fn spec_find(es: Seq<MetaEntry>, k: Seq<char>) -> int
    decreases es.len(),
{
    if es.len() == 0 {
        0
    } else if es[0].0 == k {
        0
    } else {
        1 + spec_find(es.drop_first(), k)
    }
}

/// The values stored under a key, or None when the key is absent.
pub open spec fn spec_get(es: Seq<MetaEntry>, k: Seq<char>) -> Option<Seq<Seq<char>>> {
    if spec_find(es, k) < es.len() {
        Some(es[spec_find(es, k)].1)
    } else {
        None
    }
}

/// What inserting values under a key does to the entries: an existing
/// entry has the values appended to it, and a new key goes at the end.
pub open spec fn spec_insert(es: Seq<MetaEntry>, k: Seq<char>, vs: Seq<Seq<char>>) -> Seq<
    MetaEntry,
> {
    let i = spec_find(es, k);
    if i < es.len() {
        es.update(i, (k, es[i].1 + vs))
    } else {
        es.push((k, vs))
    }
}

/// Document metadata: a mapping from string keys to ordered string
/// values. Duplicate keys merge into one entry holding all their values.
#[derive(Debug)]
pub struct Metadata {
    entries: Vec<(String, Vec<String>)>,
}

impl View for Metadata {
    type V = Seq<MetaEntry>;

    closed spec fn view(&self) -> Seq<MetaEntry> {
        self.entries.deep_view()
    }
}

/// Every key appears at most once.
pub open spec fn unique_keys(es: Seq<MetaEntry>) -> bool {
    forall|i: int, j: int| 0 <= i < j < es.len() ==> #[trigger] es[i].0 != #[trigger] es[j].0
}

impl Metadata {
    /// The metadata is well formed: no key is repeated.
    pub open spec fn wf(&self) -> bool {
        unique_keys(self@)
    }

    /// An empty metadata mapping.
    pub fn new() -> (r: Metadata)
        ensures
            r@ == Seq::<MetaEntry>::empty(),
            r.wf(),
    {
        let r = Metadata { entries: Vec::new() };
        proof {
            assert(r@ =~= Seq::<MetaEntry>::empty());
        }
        r
    }

    /// How many distinct keys the metadata holds.
    pub fn len(&self) -> (r: usize)
        ensures
            r == self@.len(),
    {
        self.entries.len()
    }

    /// Whether no entry is present.
    pub fn is_empty(&self) -> (r: bool)
        ensures
            r == (self@.len() == 0),
    {
        self.entries.len() == 0
    }

    /// The values stored under a key, if any.
    pub fn get(&self, key: &String) -> (r: Option<&Vec<String>>)
        ensures
            match r {
                Some(vs) => spec_get(self@, key@) == Some(vs.deep_view()),
                None => spec_get(self@, key@) is None,
            },
    {
        let n = self.entries.len();
        proof {
            lemma_find_bound(self@, key@);
        }
        let mut i: usize = 0;
        while i < n
            invariant
                n == self.entries@.len(),
                0 <= i <= n,
                spec_find(self@, key@) >= i,
            decreases n - i,
        {
            proof {
                assert(self@[i as int].0 == self.entries@[i as int].0@);
                assert(self@[i as int].1 == self.entries@[i as int].1.deep_view());
                lemma_find_step(self@, key@, i as int);
            }
            if self.entries[i].0 == *key {
                return Some(&self.entries[i].1);
            }
            i += 1;
        }
        None
    }

    /// Adds values under a key: a key already present has the values
    /// appended to its entry, and a new key is added at the end. The
    /// number of entries never shrinks, so metadata once present stays.
    pub fn insert(&mut self, key: String, values: Vec<String>)
        requires
            old(self).wf(),
        ensures
            final(self).wf(),
            final(self)@ == spec_insert(old(self)@, key@, values.deep_view()),
            final(self)@.len() >= old(self)@.len(),
            final(self)@.len() >= 1,
    {
        let ghost es0 = old(self)@;
        let n = self.entries.len();
        proof {
            lemma_find_bound(self@, key@);
        }
        let mut i: usize = 0;
        while i < n
            invariant
                n == self.entries@.len(),
                0 <= i <= n,
                self@ == es0,
                es0 == old(self)@,
                unique_keys(es0),
                spec_find(self@, key@) >= i,
            decreases n - i,
        {
            proof {
                assert(self@[i as int].0 == self.entries@[i as int].0@);
                assert(self@[i as int].1 == self.entries@[i as int].1.deep_view());
                lemma_find_step(self@, key@, i as int);
            }
            if self.entries[i].0 == key {
                let e = &mut self.entries[i];
                let mut vs = values;
                e.1.append(&mut vs);
                proof {
                    assert(self@ =~~= spec_insert(es0, key@, values.deep_view()));
                    assert(self@ == spec_insert(es0, key@, values.deep_view()));
                    lemma_update_unique(es0, i as int, es0[i as int].1 + values.deep_view(), key@);
                }
                return ;
            }
            i += 1;
        }
        proof {
            lemma_find_bound(self@, key@);
        }
        self.entries.push((key, values));
        proof {
            assert(self@ =~= spec_insert(es0, key@, values.deep_view()));
            lemma_insert_unique(es0, key@, values.deep_view());
        }
    }
}

proof fn lemma_update_unique(es: Seq<MetaEntry>, i: int, vs: Seq<Seq<char>>, k: Seq<char>)
    requires
        unique_keys(es),
        0 <= i < es.len(),
        es[i].0 == k,
    ensures
        unique_keys(es.update(i, (k, vs))),
{
    let r = es.update(i, (k, vs));
    assert forall|a: int, b: int| 0 <= a < b < r.len() implies #[trigger] r[a].0 != #[trigger] r[b].0 by {
        assert(r[a].0 == es[a].0 && r[b].0 == es[b].0);
    }
}

proof fn lemma_find_step(es: Seq<MetaEntry>, k: Seq<char>, i: int)
    requires
        0 <= i < es.len(),
        spec_find(es, k) >= i,
    ensures
        es[i].0 == k ==> spec_find(es, k) == i,
        es[i].0 != k ==> spec_find(es, k) >= i + 1,
    decreases i,
{
    lemma_find_bound(es, k);
    if es[0].0 != k {
        let d = es.drop_first();
        lemma_find_bound(d, k);
        if i > 0 {
            assert(d[i - 1] == es[i]);
            lemma_find_step(d, k, i - 1);
        }
    }
}

proof fn lemma_find_bound(es: Seq<MetaEntry>, k: Seq<char>)
    ensures
        spec_find(es, k) <= es.len(),
        spec_find(es, k) >= 0,
    decreases es.len(),
{
    if es.len() > 0 && es[0].0 != k {
        lemma_find_bound(es.drop_first(), k);
    }
}

proof fn lemma_insert_unique(es: Seq<MetaEntry>, k: Seq<char>, vs: Seq<Seq<char>>)
    requires
        unique_keys(es),
        spec_find(es, k) == es.len(),
    ensures
        unique_keys(es.push((k, vs))),
    decreases es.len(),
{
    lemma_find_absent(es, k, 0);
    let r = es.push((k, vs));
    assert forall|i: int, j: int| 0 <= i < j < r.len() implies #[trigger] r[i].0 != #[trigger] r[j].0 by {
        if j < es.len() {
            assert(r[i] == es[i] && r[j] == es[j]);
        } else {
            assert(r[j].0 == k && r[i] == es[i]);
        }
    }
}

proof fn lemma_find_absent(es: Seq<MetaEntry>, k: Seq<char>, i: int)
    requires
        spec_find(es, k) == es.len(),
        0 <= i <= es.len(),
    ensures
        forall|j: int| i <= j < es.len() ==> #[trigger] es[j].0 != k,
    decreases es.len() - i,
{
    lemma_find_bound(es, k);
    if i < es.len() {
        lemma_find_step(es, k, i);
        lemma_find_absent(es, k, i + 1);
    }
}

} // verus!
