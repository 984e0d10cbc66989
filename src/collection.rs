//! Collections: ordered `(name, hash)` lists that group the files of one transfer.

use vstd::prelude::*;
use crate::order::{lemma_name_le_antisymmetric, lemma_name_lt_transitive, name_le, name_less, name_lt};
use crate::error::ErrorKind;
use crate::paths::{is_valid_name, valid_name, views};
use crate::text::chars_of;

verus! {

broadcast use vstd::seq_lib::group_to_multiset_ensures;

/// A file after import: its collection name, the hash of its content and its size.
pub struct ImportedFile {
    pub name: String,
    pub hash: [u8; 32],
    pub size: u64,
}

/// One member of a collection.
pub struct Entry {
    pub name: String,
    pub hash: [u8; 32],
}

/// An ordered list of named blobs; stored as a hash sequence whose first link is the
/// metadata blob holding the names.
pub struct Collection {
    pub entries: Vec<Entry>,
}

/// The names of `files` sort in order.
pub open spec fn sorted_by_name(files: Seq<ImportedFile>) -> bool {
    forall|i: int, j: int|
        0 <= i < j < files.len() ==> name_le(#[trigger] files[i].name@, #[trigger] files[j].name@)
}

/// The sum of the sizes of `files`.
pub open spec fn sum_sizes(files: Seq<ImportedFile>) -> int
    decreases files.len(),
{
    if files.len() == 0 {
        0
    } else {
        sum_sizes(files.drop_last()) + files.last().size
    }
}

/// The collection entries that `files` become, in the same order.
pub open spec fn entries_of(files: Seq<ImportedFile>) -> Seq<(Seq<char>, Seq<u8>)> {
    files.map_values(|f: ImportedFile| (f.name@, f.hash@))
}

impl Entry {
    /// The entry as a `(name, hash)` pair.
    pub open spec fn view(&self) -> (Seq<char>, Seq<u8>) {
        (self.name@, self.hash@)
    }
}

impl Collection {
    /// The entries as `(name, hash)` pairs.
    pub open spec fn view(&self) -> Seq<(Seq<char>, Seq<u8>)> {
        self.entries@.map_values(|e: Entry| e.view())
    }

    /// Well-formed: the names are valid and distinct.
    pub open spec fn wf(&self) -> bool {
        names_ok(entry_names(self.view()))
    }

    /// The number of entries.
    pub fn len(&self) -> (r: usize)
        ensures
            r == self.view().len(),
    {
        self.entries.len()
    }

    /// The names of the entries, in order.
    pub fn names(&self) -> (r: Vec<String>)
        ensures
            r@.len() == self.view().len(),
            forall|i: int| 0 <= i < r@.len() ==> #[trigger] r@[i]@ == self.view()[i].0,
    {
        let mut r: Vec<String> = Vec::new();
        let mut i: usize = 0;
        while i < self.entries.len()
            invariant
                i <= self.entries@.len(),
                r@.len() == i,
                forall|k: int| 0 <= k < i ==> #[trigger] r@[k]@ == self.view()[k].0,
            decreases self.entries@.len() - i,
        {
            r.push(self.entries[i].name.clone());
            i = i + 1;
        }
        r
    }
}

/// Index of a file whose name sorts first among `files`.
fn first_by_name(files: &Vec<ImportedFile>) -> (r: usize)
    requires
        files@.len() > 0,
    ensures
        r < files@.len(),
        forall|k: int| 0 <= k < files@.len() ==> name_le(files@[r as int].name@, #[trigger] files@[k].name@),
{
    let mut best: usize = 0;
    let mut best_chars = chars_of(files[0].name.as_str());
    let mut j: usize = 1;
    proof {
        crate::order::lemma_name_lt_irreflexive(files@[0].name@);
    }
    while j < files.len()
        invariant
            1 <= j <= files@.len(),
            best < files@.len(),
            best_chars@ == files@[best as int].name@,
            forall|k: int| 0 <= k < j ==> name_le(files@[best as int].name@, #[trigger] files@[k].name@),
        decreases files@.len() - j,
    {
        let cur = chars_of(files[j].name.as_str());
        if name_less(&cur, &best_chars) {
            proof {
                assert forall|k: int| 0 <= k < j + 1 implies name_le(files@[j as int].name@, #[trigger] files@[k].name@) by {
                    if k < j && name_lt(files@[k].name@, files@[j as int].name@) {
                        lemma_name_lt_transitive(files@[k].name@, files@[j as int].name@, files@[best as int].name@);
                    }
                    if k == j {
                        crate::order::lemma_name_lt_irreflexive(files@[k].name@);
                    }
                }
            }
            best = j;
            best_chars = cur;
        }
        j = j + 1;
    }
    best
}

/// `files` ordered by name, byte-wise; the same files, each once.
pub fn sort_by_name(files: Vec<ImportedFile>) -> (r: Vec<ImportedFile>)
    ensures
        sorted_by_name(r@),
        r@.to_multiset() == files@.to_multiset(),
{
    let mut rest = files;
    let mut out: Vec<ImportedFile> = Vec::new();
    while rest.len() > 0
        invariant
            sorted_by_name(out@),
            out@.to_multiset().add(rest@.to_multiset()) == files@.to_multiset(),
            forall|i: int, k: int|
                0 <= i < out@.len() && 0 <= k < rest@.len() ==> name_le(#[trigger] out@[i].name@, #[trigger] rest@[k].name@),
        decreases rest@.len(),
    {
        let b = first_by_name(&rest);
        let ghost before = rest@;
        let ghost out_before = out@;
        assert(forall|i: int, k: int|
            0 <= i < out_before.len() && 0 <= k < before.len() ==> name_le(#[trigger] out_before[i].name@, #[trigger] before[k].name@));
        assert(sorted_by_name(out_before));
        let f = rest.remove(b);
        assert(rest@ == before.remove(b as int));
        assert(f == before[b as int]);
        assert forall|k: int| 0 <= k < rest@.len() implies name_le(f.name@, #[trigger] rest@[k].name@) by {
            if k < b {
                assert(rest@[k] == before[k]);
                assert(name_le(before[b as int].name@, before[k].name@));
            } else {
                assert(rest@[k] == before[k + 1]);
                assert(name_le(before[b as int].name@, before[k + 1].name@));
            }
        }
        out.push(f);
        assert(out@ == out_before.push(f));
        assert forall|i: int, j: int| 0 <= i < j < out@.len() implies name_le(#[trigger] out@[i].name@, #[trigger] out@[j].name@) by {
            assert(out@[i] == out_before[i]);
            if j < out_before.len() {
                assert(out@[j] == out_before[j]);
                assert(name_le(out_before[i].name@, out_before[j].name@));
            } else {
                assert(j == out_before.len());
                assert(out@[j] == f);
                assert(0 <= b < before.len());
                assert(name_le(out_before[i].name@, before[b as int].name@));
            }
        }
        assert(out@.to_multiset().add(rest@.to_multiset()) =~= files@.to_multiset());
        assert forall|i: int, k: int|
            0 <= i < out@.len() && 0 <= k < rest@.len() implies name_le(#[trigger] out@[i].name@, #[trigger] rest@[k].name@) by {
            if i < out_before.len() {
                assert(out@[i] == out_before[i]);
                if k < b {
                    assert(rest@[k] == before[k]);
                    assert(name_le(out_before[i].name@, before[k].name@));
                } else {
                    assert(rest@[k] == before[k + 1]);
                    assert(name_le(out_before[i].name@, before[k + 1].name@));
                }
            } else {
                assert(out@[i] == f);
            }
        }
    }
    out
}

/// The stored form of a collection: the hash sequence (the metadata blob's hash, then each
/// entry's hash) and the names that the metadata blob lists.
pub open spec fn stored_parts(c: Seq<(Seq<char>, Seq<u8>)>, meta: Seq<u8>) -> (Seq<Seq<u8>>, Seq<Seq<char>>) {
    (seq![meta] + c.map_values(|e: (Seq<char>, Seq<u8>)| e.1), c.map_values(|e: (Seq<char>, Seq<u8>)| e.0))
}

/// Names fit for a collection: each one valid, no two alike.
pub open spec fn names_ok(names: Seq<Seq<char>>) -> bool {
    &&& forall|i: int| 0 <= i < names.len() ==> valid_name(#[trigger] names[i])
    &&& forall|i: int, j: int| 0 <= i < j < names.len() ==> #[trigger] names[i] != #[trigger] names[j]
}

/// The names of a collection's entries.
pub open spec fn entry_names(c: Seq<(Seq<char>, Seq<u8>)>) -> Seq<Seq<char>> {
    c.map_values(|e: (Seq<char>, Seq<u8>)| e.0)
}

/// The collection that a hash sequence and a list of names describe, when their lengths
/// fit and the names are valid and distinct.
pub open spec fn loaded(hash_seq: Seq<Seq<u8>>, names: Seq<Seq<char>>) -> Option<Seq<(Seq<char>, Seq<u8>)>> {
    if hash_seq.len() == names.len() + 1 && names_ok(names) {
        Some(Seq::new(names.len(), |i: int| (names[i], hash_seq[i + 1])))
    } else {
        None
    }
}

/// A collection read back from its stored form is the collection that was stored.
pub proof fn lemma_load_store(c: Seq<(Seq<char>, Seq<u8>)>, meta: Seq<u8>)
    requires
        names_ok(entry_names(c)),
    ensures
        loaded(stored_parts(c, meta).0, stored_parts(c, meta).1) == Some(c),
{
    let (hs, names) = stored_parts(c, meta);
    assert(hs.len() == names.len() + 1);
    assert(Seq::new(names.len(), |i: int| (names[i], hs[i + 1])) =~= c);
}

/// Two hashes are equal.
pub fn same_hash(a: &[u8; 32], b: &[u8; 32]) -> (r: bool)
    ensures
        r == (a@ == b@),
{
    let mut i: usize = 0;
    while i < 32
        invariant
            i <= 32,
            a@.len() == 32,
            b@.len() == 32,
            forall|k: int| 0 <= k < i ==> a@[k] == b@[k],
        decreases 32 - i,
    {
        if a[i] != b[i] {
            return false;
        }
        i = i + 1;
    }
    assert(a@ =~= b@);
    true
}

impl Collection {
    /// A collection holding `files` in the order given.
    pub fn from_files(files: Vec<ImportedFile>) -> (r: Collection)
        ensures
            r.view() == entries_of(files@),
    {
        let mut entries: Vec<Entry> = Vec::new();
        let mut rest = files;
        let ghost all = rest@;
        let n = rest.len();
        let mut i: usize = 0;
        while rest.len() > 0
            invariant
                n == all.len(),
                i + rest@.len() == all.len(),
                rest@ == all.skip(i as int),
                entries@.map_values(|e: Entry| e.view()) == entries_of(all.take(i as int)),
            decreases rest@.len(),
        {
            let ghost before = entries@.map_values(|e: Entry| e.view());
            let f = rest.remove(0);
            assert(f == all[i as int]);
            assert(rest@ =~= all.skip(i as int + 1));
            entries.push(Entry { name: f.name, hash: f.hash });
            assert(entries@.map_values(|e: Entry| e.view()) =~= before.push((f.name@, f.hash@)));
            assert(entries_of(all.take(i as int + 1)) =~= entries_of(all.take(i as int)).push((f.name@, f.hash@)));
            i = i + 1;
        }
        assert(all.take(all.len() as int) =~= all);
        Collection { entries }
    }

    /// The stored form: the hash sequence headed by `meta_hash`, and the names.
    pub fn to_parts(&self, meta_hash: [u8; 32]) -> (r: (Vec<[u8; 32]>, Vec<String>))
        ensures
            r.0@.map_values(|h: [u8; 32]| h@) == stored_parts(self.view(), meta_hash@).0,
            views(r.1@) == stored_parts(self.view(), meta_hash@).1,
    {
        let mut hs: Vec<[u8; 32]> = Vec::new();
        hs.push(meta_hash);
        let mut names: Vec<String> = Vec::new();
        let mut i: usize = 0;
        while i < self.entries.len()
            invariant
                i <= self.entries@.len(),
                hs@.map_values(|h: [u8; 32]| h@) == seq![meta_hash@] + self.view().take(i as int).map_values(|e: (Seq<char>, Seq<u8>)| e.1),
                views(names@) == self.view().take(i as int).map_values(|e: (Seq<char>, Seq<u8>)| e.0),
            decreases self.entries@.len() - i,
        {
            let ghost hs_before = hs@.map_values(|h: [u8; 32]| h@);
            let ghost names_before = views(names@);
            let h = self.entries[i].hash;
            hs.push(h);
            names.push(self.entries[i].name.clone());
            assert(self.view().take(i as int + 1) =~= self.view().take(i as int).push(self.view()[i as int]));
            assert(hs@.map_values(|h: [u8; 32]| h@) =~= hs_before.push(h@));
            assert(views(names@) =~= names_before.push(self.entries@[i as int].name@));
            assert(hs@.map_values(|h: [u8; 32]| h@) =~= seq![meta_hash@] + self.view().take(i as int + 1).map_values(|e: (Seq<char>, Seq<u8>)| e.1));
            assert(views(names@) =~= self.view().take(i as int + 1).map_values(|e: (Seq<char>, Seq<u8>)| e.0));
            i = i + 1;
        }
        assert(self.view().take(self.view().len() as int) =~= self.view());
        (hs, names)
    }

    /// The collection that a stored hash sequence and name list describe. Fails with
    /// `DecodeProtocol` unless the sequence holds exactly one more hash than there are
    /// names, and the names are valid and distinct.
    pub fn from_parts(hash_seq: &Vec<[u8; 32]>, names: &Vec<String>) -> (r: Result<Collection, ErrorKind>)
        ensures
            r is Ok <==> loaded(hash_seq@.map_values(|h: [u8; 32]| h@), views(names@)) is Some,
            r is Ok ==> Some(r->Ok_0.view()) == loaded(hash_seq@.map_values(|h: [u8; 32]| h@), views(names@)),
            r is Err ==> r->Err_0 == ErrorKind::DecodeProtocol,
    {
        if hash_seq.len() == 0 || hash_seq.len() - 1 != names.len() {
            return Err(ErrorKind::DecodeProtocol);
        }
        let ghost hs = hash_seq@.map_values(|h: [u8; 32]| h@);
        let ghost ns = views(names@);
        let mut k: usize = 0;
        while k < names.len()
            invariant
                k <= names@.len(),
                ns == views(names@),
                forall|a: int| 0 <= a < k ==> valid_name(#[trigger] ns[a]),
                forall|a: int, b: int| 0 <= a < b < k ==> #[trigger] ns[a] != #[trigger] ns[b],
            decreases names@.len() - k,
        {
            assert(ns[k as int] == names@[k as int]@);
            if !is_valid_name(names[k].as_str()) {
                assert(!names_ok(ns));
                return Err(ErrorKind::DecodeProtocol);
            }
            let mut m: usize = 0;
            while m < k
                invariant
                    m <= k < names@.len(),
                    ns == views(names@),
                    forall|a: int| 0 <= a < m ==> #[trigger] ns[a] != ns[k as int],
                decreases k - m,
            {
                assert(ns[m as int] == names@[m as int]@);
                if names[m] == names[k] {
                    assert(ns[k as int] == names@[k as int]@);
                    assert(ns[m as int] == ns[k as int]);
                    assert(!names_ok(ns));
                    return Err(ErrorKind::DecodeProtocol);
                }
                m = m + 1;
            }
            k = k + 1;
        }
        assert(names_ok(ns));
        let mut entries: Vec<Entry> = Vec::new();
        let mut i: usize = 0;
        while i < names.len()
            invariant
                i <= names@.len(),
                hash_seq@.len() == names@.len() + 1,
                hs == hash_seq@.map_values(|h: [u8; 32]| h@),
                ns == views(names@),
                entries@.map_values(|e: Entry| e.view()) == Seq::new(i as nat, |k: int| (ns[k], hs[k + 1])),
            decreases names@.len() - i,
        {
            let ghost before = entries@.map_values(|e: Entry| e.view());
            let name = names[i].clone();
            let h = hash_seq[i + 1];
            assert(ns[i as int] == name@);
            assert(hs[i + 1] == h@);
            let ghost gv = (name@, h@);
            entries.push(Entry { name, hash: h });
            assert(entries@.map_values(|e: Entry| e.view()) =~= before.push(gv));
            assert(entries@.map_values(|e: Entry| e.view()) =~= Seq::new(i as nat + 1, |k: int| (ns[k], hs[k + 1])));
            i = i + 1;
        }
        let c = Collection { entries };
        assert(c.view() =~= Seq::new(ns.len(), |k: int| (ns[k], hs[k + 1])));
        Ok(c)
    }
}

/// The files of an import, in name order, as a collection, with their total size.
pub fn collect_imports(files: Vec<ImportedFile>) -> (r: (Collection, u64))
    requires
        sum_sizes(files@) <= u64::MAX,
    ensures
        r.1 == sum_sizes(files@),
        distinct_names(files@) && (forall|k: int| 0 <= k < files@.len() ==> valid_name(#[trigger] files@[k].name@))
            ==> r.0.wf(),
        files@.len() == 1 ==> r.0.view() == entries_of(files@),
        imported_as(files@, r.0.view()),
{
    let mut total: u64 = 0;
    let mut i: usize = 0;
    while i < files.len()
        invariant
            i <= files@.len(),
            sum_sizes(files@) <= u64::MAX,
            total == sum_sizes(files@.take(i as int)),
        decreases files@.len() - i,
    {
        assert(files@.take(i as int + 1).drop_last() =~= files@.take(i as int));
        proof {
            lemma_sum_prefix_le(files@, i as int + 1);
        }
        total = total + files[i].size;
        i = i + 1;
    }
    assert(files@.take(files@.len() as int) =~= files@);
    let sorted = sort_by_name(files);
    let ghost s = sorted@;
    let c = Collection::from_files(sorted);
    assert(entries_of(s) == c.view());
    proof {
        if files@.len() == 1 {
            assert(s.len() == s.to_multiset().len());
            assert(files@.len() == files@.to_multiset().len());
            assert(s.contains(s[0]));
            assert(s.to_multiset().count(s[0]) > 0);
            assert(files@.contains(s[0]));
            assert(s =~= files@);
        }
        if distinct_names(files@) && (forall|k: int| 0 <= k < files@.len() ==> valid_name(#[trigger] files@[k].name@)) {
            lemma_permutation_keeps_names(files@, s);
            let ns = entry_names(c.view());
            assert forall|k: int| 0 <= k < ns.len() implies valid_name(#[trigger] ns[k]) by {
                assert(ns[k] == s[k].name@);
            }
            assert forall|a: int, b: int| 0 <= a < b < ns.len() implies #[trigger] ns[a] != #[trigger] ns[b] by {
                assert(ns[a] == s[a].name@ && ns[b] == s[b].name@);
            }
        }
    }
    (c, total)
}

/// No two files share a name.
pub open spec fn distinct_names(files: Seq<ImportedFile>) -> bool {
    forall|i: int, j: int| 0 <= i < j < files.len() ==> (#[trigger] files[i]).name@ != (#[trigger] files[j]).name@
}

/// Files with distinct names have exactly one order by name: two sorted arrangements of
/// the same files are equal. So importing the same tree again, in whatever order the
/// files come, gives the same collection.
pub proof fn lemma_sorted_arrangement_unique(s: Seq<ImportedFile>, t: Seq<ImportedFile>)
    requires
        sorted_by_name(s),
        sorted_by_name(t),
        s.to_multiset() == t.to_multiset(),
        distinct_names(s),
    ensures
        s == t,
    decreases s.len(),
{
    assert(s.len() == s.to_multiset().len());
    assert(t.len() == t.to_multiset().len());
    if s.len() > 0 {
        let x = s[0];
        let y = t[0];
        assert(s.to_multiset().count(x) > 0) by {
            assert(s.contains(x));
        }
        assert(t.contains(x));
        assert(s.contains(y)) by {
            assert(t.contains(y));
            assert(t.to_multiset().count(y) > 0);
        }
        let i = choose|i: int| 0 <= i < t.len() && t[i] == x;
        let j = choose|j: int| 0 <= j < s.len() && s[j] == y;
        if i > 0 {
            assert(name_le(t[0].name@, t[i].name@));
        }
        if j > 0 {
            assert(name_le(s[0].name@, s[j].name@));
        }
        crate::order::lemma_name_lt_irreflexive(x.name@);
        lemma_name_le_antisymmetric(x.name@, y.name@);
        if j > 0 {
            assert(s[0].name@ != s[j].name@);
        }
        assert(x == y);
        let s2 = s.remove(0);
        let t2 = t.remove(0);
        assert(s2 == s.drop_first());
        assert(t2 == t.drop_first());
        assert(s2.to_multiset() == s.to_multiset().remove(x));
        assert(t2.to_multiset() == t.to_multiset().remove(y));
        assert forall|a: int, b: int| 0 <= a < b < s2.len() implies name_le(#[trigger] s2[a].name@, #[trigger] s2[b].name@) by {
            assert(s2[a] == s[a + 1] && s2[b] == s[b + 1]);
        }
        assert forall|a: int, b: int| 0 <= a < b < t2.len() implies name_le(#[trigger] t2[a].name@, #[trigger] t2[b].name@) by {
            assert(t2[a] == t[a + 1] && t2[b] == t[b + 1]);
        }
        assert forall|a: int, b: int| 0 <= a < b < s2.len() implies (#[trigger] s2[a]).name@ != (#[trigger] s2[b]).name@ by {
            assert(s2[a] == s[a + 1] && s2[b] == s[b + 1]);
        }
        lemma_sorted_arrangement_unique(s2, t2);
        assert(s =~= seq![x] + s2);
        assert(t =~= seq![y] + t2);
    }
}

/// Rearranging files keeps their names distinct and valid.
pub proof fn lemma_permutation_keeps_names(f: Seq<ImportedFile>, s: Seq<ImportedFile>)
    requires
        s.to_multiset() == f.to_multiset(),
        distinct_names(f),
    ensures
        distinct_names(s),
        (forall|k: int| 0 <= k < f.len() ==> valid_name(#[trigger] f[k].name@)) ==> forall|k: int|
            0 <= k < s.len() ==> valid_name(#[trigger] s[k].name@),
{
    assert forall|a: int| 0 <= a < s.len() implies f.contains(#[trigger] s[a]) by {
        assert(s.contains(s[a]));
        assert(s.to_multiset().count(s[a]) > 0);
    }
    if forall|k: int| 0 <= k < f.len() ==> valid_name(#[trigger] f[k].name@) {
        assert forall|a: int| 0 <= a < s.len() implies valid_name(#[trigger] s[a].name@) by {
            assert(f.contains(s[a]));
            let i = choose|i: int| 0 <= i < f.len() && f[i] == s[a];
            assert(valid_name(f[i].name@));
        }
    }
    assert forall|a: int, b: int| 0 <= a < b < s.len() implies (#[trigger] s[a]).name@ != (#[trigger] s[b]).name@ by {
        assert(f.contains(s[a]) && f.contains(s[b]));
        let i = choose|i: int| 0 <= i < f.len() && f[i] == s[a];
        let j = choose|j: int| 0 <= j < f.len() && f[j] == s[b];
        if s[a].name@ == s[b].name@ {
            assert(i == j);
            assert(s[a] == s[b]);
            assert(s.to_multiset().count(s[a]) >= 2) by {
                let p = s.subrange(0, b);
                let q = s.subrange(b, s.len() as int);
                assert(s == p + q);
                vstd::seq_lib::lemma_multiset_commutative(p, q);
                assert(p.contains(s[a])) by {
                    assert(p[a] == s[a]);
                }
                assert(q.contains(s[b])) by {
                    assert(q[0] == s[b]);
                }
            }
            assert(f.no_duplicates()) by {
                assert forall|x: int, y: int| 0 <= x < f.len() && 0 <= y < f.len() && x != y implies f[x] != f[y] by {
                    if x < y {
                        assert(f[x].name@ != f[y].name@);
                    } else {
                        assert(f[y].name@ != f[x].name@);
                    }
                }
            }
            f.lemma_multiset_has_no_duplicates();
        }
    }
}

/// Importing the same files twice, in any order, gives collections with the same entries.
pub proof fn lemma_import_order_irrelevant(
    f1: Seq<ImportedFile>,
    f2: Seq<ImportedFile>,
    s1: Seq<ImportedFile>,
    s2: Seq<ImportedFile>,
)
    requires
        f1.to_multiset() == f2.to_multiset(),
        distinct_names(f1),
        sorted_by_name(s1),
        s1.to_multiset() == f1.to_multiset(),
        sorted_by_name(s2),
        s2.to_multiset() == f2.to_multiset(),
    ensures
        entries_of(s1) == entries_of(s2),
{
    lemma_permutation_keeps_names(f1, s1);
    lemma_sorted_arrangement_unique(s1, s2);
}

/// What `collect_imports` promises of its collection `v` for the files `f`: the entries of
/// an arrangement of those files in name order.
pub open spec fn imported_as(f: Seq<ImportedFile>, v: Seq<(Seq<char>, Seq<u8>)>) -> bool {
    exists|s: Seq<ImportedFile>| sorted_by_name(s) && s.to_multiset() == f.to_multiset() && #[trigger] entries_of(s) == v
}

/// Sending the same tree again gives the same collection: two imports of the same files
/// with distinct names, in whatever order they came, yield equal entries, hence the same
/// stored parts and the same root hash.
pub proof fn lemma_reimport_same_collection(
    f1: Seq<ImportedFile>,
    f2: Seq<ImportedFile>,
    v1: Seq<(Seq<char>, Seq<u8>)>,
    v2: Seq<(Seq<char>, Seq<u8>)>,
    meta: Seq<u8>,
)
    requires
        f1.to_multiset() == f2.to_multiset(),
        distinct_names(f1),
        imported_as(f1, v1),
        imported_as(f2, v2),
    ensures
        v1 == v2,
        stored_parts(v1, meta) == stored_parts(v2, meta),
{
    let s1 = choose|s: Seq<ImportedFile>| sorted_by_name(s) && s.to_multiset() == f1.to_multiset() && #[trigger] entries_of(s) == v1;
    let s2 = choose|s: Seq<ImportedFile>| sorted_by_name(s) && s.to_multiset() == f2.to_multiset() && #[trigger] entries_of(s) == v2;
    lemma_import_order_irrelevant(f1, f2, s1, s2);
}

/// A prefix of a list of files is no larger than the whole.
pub proof fn lemma_sum_prefix_le(files: Seq<ImportedFile>, n: int)
    requires
        0 <= n <= files.len(),
    ensures
        sum_sizes(files.take(n)) <= sum_sizes(files),
    decreases files.len(),
{
    if n < files.len() {
        assert(files.drop_last().take(n) =~= files.take(n));
        lemma_sum_prefix_le(files.drop_last(), n);
    } else {
        assert(files.take(n) =~= files);
    }
}

} // verus!
