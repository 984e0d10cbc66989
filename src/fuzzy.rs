//! Fuzzy file search: scoring a query against a path and ranking candidates.

use vstd::prelude::*;
use crate::text::{chars_of, pop_char, push_char};

verus! {

broadcast use vstd::seq_lib::group_to_multiset_ensures;

/// A character that separates words in a path.
pub open spec fn is_separator(c: char) -> bool {
    c == '_' || c == '-' || c == '/' || c == '.'
}

/// The score for matching a query character at `idx` of `t`, given the previous match.
pub open spec fn match_bonus(t: Seq<char>, idx: int, prev: Option<int>) -> int {
    10 + (match prev {
        Some(p) => if idx == p + 1 {
            30int
        } else if idx == p + 2 {
            5int
        } else {
            0int
        },
        None => 0int,
    }) + (if idx == 0 {
        15int
    } else if is_separator(t[idx - 1]) {
        15int
    } else {
        0int
    })
}

/// The score of matching `q[qi..]` greedily against `t[ti..]`, each query character taking
/// the first unused text character equal to it; `None` when one is not found.
pub open spec fn greedy_score(q: Seq<char>, t: Seq<char>, qi: int, ti: int, prev: Option<int>) -> Option<int>
    decreases t.len() - ti,
{
    if qi >= q.len() {
        Some(0)
    } else if ti >= t.len() || ti < 0 {
        None
    } else if t[ti] == q[qi] {
        match greedy_score(q, t, qi + 1, ti + 1, Some(ti)) {
            Some(s) => Some(s + match_bonus(t, ti, prev)),
            None => None,
        }
    } else {
        greedy_score(q, t, qi, ti + 1, prev)
    }
}

/// The bonus for short texts.
pub open spec fn length_bonus(n: int) -> int {
    if n > 0 {
        if 1000int / n < 10 {
            1000int / n
        } else {
            10
        }
    } else {
        0
    }
}

/// The fuzzy score of `q` against `t`: `Some(0)` for an empty query, `None` when the query
/// is not a subsequence of the text, else the greedy score plus the length bonus.
pub open spec fn fuzzy(q: Seq<char>, t: Seq<char>) -> Option<int> {
    if q.len() == 0 {
        Some(0)
    } else {
        match greedy_score(q, t, 0, 0, None) {
            Some(s) => Some(s + length_bonus(t.len() as int)),
            None => None,
        }
    }
}

/// `o` with `k` added to its score.
pub open spec fn add_score(o: Option<int>, k: int) -> Option<int> {
    match o {
        Some(s) => Some(s + k),
        None => None,
    }
}

/// Scores `query` against `text`, case-sensitively; higher is better, `None` when some
/// query character cannot be matched in order.
pub fn fuzzy_score(query: &str, text: &str) -> (r: Option<usize>)
    requires
        70 * query@.len() + 10 <= usize::MAX,
    ensures
        r matches Some(s) ==> fuzzy(query@, text@) == Some(s as int),
        r is None ==> fuzzy(query@, text@) is None,
{
    let q = chars_of(query);
    let t = chars_of(text);
    if q.len() == 0 {
        return Some(0);
    }
    let mut qi: usize = 0;
    let mut ti: usize = 0;
    let mut prev: Option<usize> = None;
    let mut score: usize = 0;
    while qi < q.len()
        invariant
            q@ == query@,
            t@ == text@,
            q@.len() > 0,
            70 * q@.len() + 10 <= usize::MAX,
            qi <= q@.len(),
            ti <= t@.len(),
            score <= 70 * qi,
            prev matches Some(p) ==> p < ti,
            add_score(greedy_score(q@, t@, qi as int, ti as int, match prev {
                Some(p) => Some(p as int),
                None => None,
            }), score as int) == greedy_score(q@, t@, 0, 0, None),
        decreases t@.len() - ti,
    {
        if ti >= t.len() {
            return None;
        }
        let gp: Ghost<Option<int>> = Ghost(match prev {
            Some(p) => Some(p as int),
            None => None,
        });
        if t[ti] == q[qi] {
            let mut bonus: usize = 10;
            match prev {
                Some(p) => {
                    if ti == p + 1 {
                        bonus = bonus + 30;
                    } else if ti == p + 2 {
                        bonus = bonus + 5;
                    }
                },
                None => {},
            }
            if ti == 0 {
                bonus = bonus + 15;
            } else {
                let c = t[ti - 1];
                if c == '_' || c == '-' || c == '/' || c == '.' {
                    bonus = bonus + 15;
                }
            }
            assert(bonus == match_bonus(t@, ti as int, gp@));
            score = score + bonus;
            prev = Some(ti);
            qi = qi + 1;
        }
        ti = ti + 1;
    }
    let n = t.len();
    if n > 0 {
        let b = 1000 / n;
        if b < 10 {
            score = score + b;
        } else {
            score = score + 10;
        }
    }
    Some(score)
}

/// Lowercase form of a string, as `str::to_lowercase` maps it.
pub uninterp spec fn lower_of(s: Seq<char>) -> Seq<char>;

/// Relies on `str::to_lowercase`: the lowercase mapping of each character; the result
/// depends on the characters alone.
#[verifier::external_body]
fn to_lower(s: &str) -> (r: String)
    ensures
        r@ == lower_of(s@),
{
    s.to_lowercase()
}

/// A file or directory found under the search base.
pub struct FileInfo {
    /// Full path.
    pub path: String,
    /// Path relative to the search base.
    pub relative_path: String,
    /// Whether this is a directory.
    pub is_dir: bool,
}

/// The case-insensitive score of file `i` against `query`.
pub open spec fn file_score(query: Seq<char>, files: Seq<FileInfo>, i: int) -> Option<int> {
    fuzzy(lower_of(query), lower_of(files[i].relative_path@))
}

/// Whether a query is short enough to be scored without overflow.
pub open spec fn scorable(q: Seq<char>) -> bool {
    70 * q.len() + 10 <= usize::MAX
}

/// The `(index, score)` pairs hold matching files with their scores.
pub open spec fn scored_pairs(query: Seq<char>, files: Seq<FileInfo>, ps: Seq<(usize, usize)>) -> bool {
    forall|k: int| 0 <= k < ps.len() ==> (#[trigger] ps[k]).0 < files.len()
        && file_score(query, files, ps[k].0 as int) == Some(ps[k].1 as int)
}

/// File `x` ranks before file `y`: a higher score, or an equal score and a lower index.
pub open spec fn rank_before(query: Seq<char>, files: Seq<FileInfo>, x: usize, y: usize) -> bool {
    file_score(query, files, x as int)->Some_0 > file_score(query, files, y as int)->Some_0 || (file_score(
        query,
        files,
        x as int,
    )->Some_0 == file_score(query, files, y as int)->Some_0 && x < y)
}

/// `r` ranks the files that match `query`: when the query can be scored, each matching
/// index once and nothing else, best score first; when it cannot, nothing.
pub open spec fn ranked(query: Seq<char>, files: Seq<FileInfo>, r: Seq<usize>) -> bool {
    &&& scorable(lower_of(query)) ==> forall|i: int|
        #![trigger r.contains(i as usize)]
        0 <= i < files.len() ==> (r.contains(i as usize) <==> file_score(query, files, i) is Some)
    &&& forall|k: int| 0 <= k < r.len() ==> (#[trigger] r[k] as int) < files.len()
        && file_score(query, files, r[k] as int) is Some
    &&& r.no_duplicates()
    &&& forall|a: int, b: int| 0 <= a < b < r.len() ==> rank_before(query, files, #[trigger] r[a], #[trigger] r[b])
    &&& !scorable(lower_of(query)) ==> r.len() == 0
}

/// Two sequences strictly ordered by rank and holding the same files are equal.
proof fn lemma_rank_order_unique(query: Seq<char>, files: Seq<FileInfo>, s: Seq<usize>, t: Seq<usize>)
    requires
        forall|a: int, b: int| 0 <= a < b < s.len() ==> rank_before(query, files, #[trigger] s[a], #[trigger] s[b]),
        forall|a: int, b: int| 0 <= a < b < t.len() ==> rank_before(query, files, #[trigger] t[a], #[trigger] t[b]),
        forall|x: usize| s.contains(x) <==> t.contains(x),
    ensures
        s == t,
    decreases s.len(),
{
    if s.len() == 0 {
        if t.len() > 0 {
            assert(t.contains(t[0]));
        }
        assert(s =~= t);
    } else if t.len() == 0 {
        assert(s.contains(s[0]));
    } else {
        assert(s.contains(s[0]));
        assert(t.contains(t[0]));
        let j = choose|j: int| 0 <= j < t.len() && t[j] == s[0];
        let i = choose|i: int| 0 <= i < s.len() && s[i] == t[0];
        if j > 0 && i > 0 {
            assert(rank_before(query, files, t[0], t[j]));
            assert(rank_before(query, files, s[0], s[i]));
        }
        assert(s[0] == t[0]);
        let s2 = s.drop_first();
        let t2 = t.drop_first();
        assert forall|x: usize| s2.contains(x) <==> t2.contains(x) by {
            if s2.contains(x) {
                let k = choose|k: int| 0 <= k < s2.len() && s2[k] == x;
                assert(rank_before(query, files, s[0], s[k + 1]));
                assert(s.contains(x));
                let m = choose|m: int| 0 <= m < t.len() && t[m] == x;
                assert(m != 0);
                assert(t2[m - 1] == x);
            }
            if t2.contains(x) {
                let k = choose|k: int| 0 <= k < t2.len() && t2[k] == x;
                assert(rank_before(query, files, t[0], t[k + 1]));
                assert(t.contains(x));
                let m = choose|m: int| 0 <= m < s.len() && s[m] == x;
                assert(m != 0);
                assert(s2[m - 1] == x);
            }
        }
        assert forall|a: int, b: int| 0 <= a < b < s2.len() implies rank_before(query, files, #[trigger] s2[a], #[trigger] s2[b]) by {
            assert(s2[a] == s[a + 1] && s2[b] == s[b + 1]);
        }
        assert forall|a: int, b: int| 0 <= a < b < t2.len() implies rank_before(query, files, #[trigger] t2[a], #[trigger] t2[b]) by {
            assert(t2[a] == t[a + 1] && t2[b] == t[b + 1]);
        }
        lemma_rank_order_unique(query, files, s2, t2);
        assert(s =~= seq![s[0]] + s2);
        assert(t =~= seq![t[0]] + t2);
    }
}

/// The ranking of the matches of a query is unique: two rankings of the same files for the
/// same query are equal. So the popup's matches are exactly what `fuzzy_match` returns.
pub proof fn lemma_ranked_unique(query: Seq<char>, files: Seq<FileInfo>, r1: Seq<usize>, r2: Seq<usize>)
    requires
        ranked(query, files, r1),
        ranked(query, files, r2),
    ensures
        r1 == r2,
{
    if scorable(lower_of(query)) {
        assert forall|x: usize| r1.contains(x) <==> r2.contains(x) by {
            if r1.contains(x) {
                let k = choose|k: int| 0 <= k < r1.len() && r1[k] == x;
                assert((x as int) < files.len() && file_score(query, files, x as int) is Some);
                assert(r2.contains((x as int) as usize));
            }
            if r2.contains(x) {
                let k = choose|k: int| 0 <= k < r2.len() && r2[k] == x;
                assert((x as int) < files.len() && file_score(query, files, x as int) is Some);
                assert(r1.contains((x as int) as usize));
            }
        }
        lemma_rank_order_unique(query, files, r1, r2);
    } else {
        assert(r1 =~= r2);
    }
}

/// `x` ranks before `y`: a higher score, or an equal score and a lower index.
pub open spec fn ahead(x: (usize, usize), y: (usize, usize)) -> bool {
    x.1 > y.1 || (x.1 == y.1 && x.0 < y.0)
}

/// Index of the first pair with the highest score.
fn best_pair(ps: &Vec<(usize, usize)>) -> (r: usize)
    requires
        ps@.len() > 0,
    ensures
        r < ps@.len(),
        forall|k: int| 0 <= k < ps@.len() ==> (#[trigger] ps@[k]).1 <= ps@[r as int].1,
        forall|k: int| 0 <= k < r ==> (#[trigger] ps@[k]).1 < ps@[r as int].1,
{
    let mut best: usize = 0;
    let mut j: usize = 1;
    while j < ps.len()
        invariant
            1 <= j <= ps@.len(),
            best < j,
            forall|k: int| 0 <= k < j ==> (#[trigger] ps@[k]).1 <= ps@[best as int].1,
            forall|k: int| 0 <= k < best ==> (#[trigger] ps@[k]).1 < ps@[best as int].1,
        decreases ps@.len() - j,
    {
        if ps[j].1 > ps[best].1 {
            best = j;
        }
        j = j + 1;
    }
    best
}

/// Indices of the files that match `query` case-insensitively, best score first, each once.
/// A query too long to score matches nothing.
pub fn fuzzy_match(query: &str, files: &Vec<FileInfo>) -> (r: Vec<usize>)
    ensures
        ranked(query@, files@, r@),
{
    let q = to_lower(query);
    let qn = q.as_str().unicode_len();
    if qn > (usize::MAX - 10) / 70 {
        return Vec::new();
    }
    let mut cand: Vec<(usize, usize)> = Vec::new();
    let mut i: usize = 0;
    while i < files.len()
        invariant
            i <= files@.len(),
            q@ == lower_of(query@),
            scorable(q@),
            scored_pairs(query@, files@, cand@),
            forall|k: int| 0 <= k < cand@.len() ==> (#[trigger] cand@[k]).0 < i,
            forall|a: int, b: int| 0 <= a < b < cand@.len() ==> (#[trigger] cand@[a]).0 < (#[trigger] cand@[b]).0,
            forall|m: int| 0 <= m < i ==> (file_score(query@, files@, m) is Some <==> exists|k: int|
                0 <= k < cand@.len() && (#[trigger] cand@[k]).0 == m),
        decreases files@.len() - i,
    {
        let t = to_lower(files[i].relative_path.as_str());
        match fuzzy_score(q.as_str(), t.as_str()) {
            Some(sc) => {
                let ghost before = cand@;
                cand.push((i, sc));
                assert forall|m: int| 0 <= m < i + 1 implies (file_score(query@, files@, m) is Some <==> exists|k: int|
                    0 <= k < cand@.len() && (#[trigger] cand@[k]).0 == m) by {
                    if m < i {
                        if file_score(query@, files@, m) is Some {
                            let k = choose|k: int| 0 <= k < before.len() && (#[trigger] before[k]).0 == m;
                            assert(cand@[k] == before[k]);
                        }
                    } else {
                        assert(cand@[before.len() as int].0 == m);
                    }
                }
            },
            None => {
                assert forall|m: int| 0 <= m < i + 1 implies (file_score(query@, files@, m) is Some <==> exists|k: int|
                    0 <= k < cand@.len() && (#[trigger] cand@[k]).0 == m) by {
                    if m == i {
                        assert forall|k: int| 0 <= k < cand@.len() implies (#[trigger] cand@[k]).0 != m by {}
                    }
                }
            },
        }
        i = i + 1;
    }
    assert(cand@.no_duplicates());
    proof {
        cand@.lemma_multiset_has_no_duplicates();
    }
    let ghost all = cand@;
    let mut rest = cand;
    let mut out: Vec<(usize, usize)> = Vec::new();
    while rest.len() > 0
        invariant
            out@.to_multiset().add(rest@.to_multiset()) == all.to_multiset(),
            scored_pairs(query@, files@, all),
            forall|x: (usize, usize)| all.to_multiset().contains(x) ==> all.to_multiset().count(x) == 1,
            forall|a: int, b: int| 0 <= a < b < out@.len() ==> ahead(#[trigger] out@[a], #[trigger] out@[b]),
            forall|a: int, k: int| 0 <= a < out@.len() && 0 <= k < rest@.len() ==> ahead(#[trigger] out@[a], #[trigger] rest@[k]),
            forall|a: int, b: int| 0 <= a < b < rest@.len() ==> (#[trigger] rest@[a]).0 < (#[trigger] rest@[b]).0,
        decreases rest@.len(),
    {
        let b = best_pair(&rest);
        let ghost before = rest@;
        let ghost out_before = out@;
        let p = rest.remove(b);
        assert(p == before[b as int]);
        assert(rest@ == before.remove(b as int));
        out.push(p);
        assert(out@ == out_before.push(p));
        assert(out@.to_multiset().add(rest@.to_multiset()) =~= all.to_multiset());
        assert forall|a: int, c: int| 0 <= a < c < out@.len() implies ahead(#[trigger] out@[a], #[trigger] out@[c]) by {
            assert(out@[a] == out_before[a]);
            if c < out_before.len() {
                assert(out@[c] == out_before[c]);
            } else {
                assert(out@[c] == before[b as int]);
            }
        }
        assert forall|a: int, k: int| 0 <= a < out@.len() && 0 <= k < rest@.len() implies ahead(#[trigger] out@[a], #[trigger] rest@[k]) by {
            let kk = if k < b { k } else { k + 1 };
            assert(rest@[k] == before[kk]);
            if a < out_before.len() {
                assert(out@[a] == out_before[a]);
            } else {
                assert(out@[a] == p);
                if kk < b {
                    assert(before[kk].1 < before[b as int].1);
                } else {
                    assert(before[kk].1 <= before[b as int].1);
                    assert(before[b as int].0 < before[kk].0);
                }
            }
        }
        assert forall|x: int, y: int| 0 <= x < y < rest@.len() implies (#[trigger] rest@[x]).0 < (#[trigger] rest@[y]).0 by {
            let xx = if x < b { x } else { x + 1 };
            let yy = if y < b { y } else { y + 1 };
            assert(rest@[x] == before[xx] && rest@[y] == before[yy]);
        }
    }
    assert(out@.to_multiset() =~= all.to_multiset());
    proof {
        out@.lemma_multiset_has_no_duplicates_conv();
        assert forall|k: int| 0 <= k < out@.len() implies (#[trigger] out@[k]).0 < files@.len()
            && file_score(query@, files@, out@[k].0 as int) == Some(out@[k].1 as int) by {
            assert(out@.contains(out@[k]));
            assert(out@.to_multiset().count(out@[k]) > 0);
            assert(all.to_multiset().count(out@[k]) > 0);
            assert(all.contains(out@[k]));
            let k2 = choose|k2: int| 0 <= k2 < all.len() && all[k2] == out@[k];
            assert(all[k2].0 < files@.len());
        }
    }
    let mut r: Vec<usize> = Vec::new();
    let mut j: usize = 0;
    while j < out.len()
        invariant
            j <= out@.len(),
            r@.len() == j,
            forall|k: int| 0 <= k < j ==> r@[k] == (#[trigger] out@[k]).0,
        decreases out@.len() - j,
    {
        r.push(out[j].0);
        j = j + 1;
    }
    proof {
        assert forall|k: int| 0 <= k < r@.len() implies (#[trigger] r@[k] as int) < files@.len()
            && file_score(query@, files@, r@[k] as int) is Some by {
            assert(r@[k] == out@[k].0);
        }
        assert forall|a: int, c: int| 0 <= a < r@.len() && 0 <= c < r@.len() && a != c implies r@[a] != r@[c] by {
            if r@[a] == r@[c] {
                assert(out@[a].0 == out@[c].0);
                assert(out@[a].1 == out@[c].1);
                assert(out@[a] == out@[c]);
            }
        }
        assert forall|i: int| 0 <= i < files@.len() implies (r@.contains(i as usize) <==> file_score(query@, files@, i) is Some) by {
            if file_score(query@, files@, i) is Some {
                let k = choose|k: int| 0 <= k < all.len() && (#[trigger] all[k]).0 == i;
                assert(all.contains(all[k]));
                assert(out@.to_multiset().count(all[k]) > 0);
                assert(out@.contains(all[k]));
                let m = choose|m: int| 0 <= m < out@.len() && out@[m] == all[k];
                assert(r@[m] == i as usize);
            }
            if r@.contains(i as usize) {
                let m = choose|m: int| 0 <= m < r@.len() && r@[m] == i as usize;
                assert(out@[m].0 == i);
            }
        }
        assert forall|a: int, c: int| 0 <= a < c < r@.len() implies rank_before(query@, files@, #[trigger] r@[a], #[trigger] r@[c]) by {
            assert(ahead(out@[a], out@[c]));
        }
    }
    r
}

/// The state of the file search popup: query, candidate files, the ranked matches and
/// the selected match.
pub struct FileSearchPopup {
    /// The search query.
    pub query: String,
    /// Every file found under the base directory.
    pub files: Vec<FileInfo>,
    /// Indices into `files` of the matches, best first.
    pub filtered_indices: Vec<usize>,
    /// Position of the selected match within `filtered_indices`.
    pub selected_index: usize,
    /// Directory that the search covers.
    pub base_dir: String,
}

/// The matches that a query selects: every file, in order, for an empty query; else the
/// ranked fuzzy matches.
pub open spec fn filtered_for(query: Seq<char>, files: Seq<FileInfo>, r: Seq<usize>) -> bool {
    if query.len() == 0 {
        r == Seq::new(files.len(), |i: int| i as usize)
    } else {
        ranked(query, files, r)
    }
}

impl FileSearchPopup {
    /// The selection lies within the matches, or is zero when there are none.
    pub open spec fn wf(&self) -> bool {
        self.filtered_indices@.len() == 0 || self.selected_index < self.filtered_indices@.len()
    }

    /// An empty popup searching under `base_dir`.
    pub fn new(base_dir: String) -> (r: FileSearchPopup)
        ensures
            r.query@.len() == 0,
            r.files@.len() == 0,
            r.filtered_indices@.len() == 0,
            r.selected_index == 0,
            r.base_dir == base_dir,
    {
        FileSearchPopup { query: String::new(), files: Vec::new(), filtered_indices: Vec::new(), selected_index: 0, base_dir }
    }

    /// Replaces the candidates with a fresh scan of the base directory and re-filters.
    pub fn refresh_files_sync(&mut self, files: Vec<FileInfo>)
        ensures
            final(self).files@ == files@,
            final(self).query == old(self).query,
            final(self).base_dir == old(self).base_dir,
            filtered_for(final(self).query@, final(self).files@, final(self).filtered_indices@),
            final(self).selected_index == 0,
    {
        self.files = files;
        self.update_filtered();
    }

    /// Appends `c` to the query and re-filters.
    pub fn update_query(&mut self, c: char)
        ensures
            final(self).query@ == old(self).query@.push(c),
            final(self).files == old(self).files,
            final(self).base_dir == old(self).base_dir,
            filtered_for(final(self).query@, final(self).files@, final(self).filtered_indices@),
            final(self).selected_index == 0,
    {
        push_char(&mut self.query, c);
        self.update_filtered();
    }

    /// Removes the last character of the query, if any, and re-filters.
    pub fn remove_char(&mut self)
        ensures
            final(self).query@ == (if old(self).query@.len() == 0 {
                old(self).query@
            } else {
                old(self).query@.drop_last()
            }),
            final(self).files == old(self).files,
            final(self).base_dir == old(self).base_dir,
            filtered_for(final(self).query@, final(self).files@, final(self).filtered_indices@),
            final(self).selected_index == 0,
    {
        pop_char(&mut self.query);
        self.update_filtered();
    }

    /// Replaces the query and re-filters.
    pub fn set_query(&mut self, query: String)
        ensures
            final(self).query == query,
            final(self).files == old(self).files,
            final(self).base_dir == old(self).base_dir,
            filtered_for(final(self).query@, final(self).files@, final(self).filtered_indices@),
            final(self).selected_index == 0,
    {
        self.query = query;
        self.update_filtered();
    }

    /// Recomputes the matches for the current query and selects the first.
    pub fn update_filtered(&mut self)
        ensures
            final(self).query == old(self).query,
            final(self).files == old(self).files,
            final(self).base_dir == old(self).base_dir,
            filtered_for(final(self).query@, final(self).files@, final(self).filtered_indices@),
            final(self).query@.len() > 0 ==> forall|r: Seq<usize>|
                #[trigger] ranked(final(self).query@, final(self).files@, r) ==> final(self).filtered_indices@ == r,
            final(self).selected_index == 0,
    {
        if self.query.as_str().unicode_len() == 0 {
            let mut all: Vec<usize> = Vec::new();
            let mut i: usize = 0;
            while i < self.files.len()
                invariant
                    i <= self.files@.len(),
                    all@ == Seq::new(i as nat, |k: int| k as usize),
                decreases self.files@.len() - i,
            {
                all.push(i);
                i = i + 1;
                assert(all@ =~= Seq::new(i as nat, |k: int| k as usize));
            }
            self.filtered_indices = all;
        } else {
            self.filtered_indices = fuzzy_match(self.query.as_str(), &self.files);
            assert forall|r: Seq<usize>| #[trigger] ranked(self.query@, self.files@, r) implies self.filtered_indices@ == r by {
                lemma_ranked_unique(self.query@, self.files@, self.filtered_indices@, r);
            }
        }
        self.selected_index = 0;
    }

    /// Moves the selection up (negative `direction`) or down, wrapping around the matches.
    pub fn move_selection(&mut self, direction: isize)
        requires
            old(self).wf(),
        ensures
            final(self).wf(),
            final(self).query == old(self).query,
            final(self).files == old(self).files,
            final(self).filtered_indices == old(self).filtered_indices,
            final(self).selected_index == (if old(self).filtered_indices@.len() == 0 {
                old(self).selected_index as int
            } else if direction < 0 {
                if old(self).selected_index == 0 {
                    old(self).filtered_indices@.len() - 1
                } else {
                    old(self).selected_index - 1
                }
            } else {
                (old(self).selected_index + 1) % (old(self).filtered_indices@.len() as int)
            }),
    {
        if self.filtered_indices.len() == 0 {
            return;
        }
        let len = self.filtered_indices.len();
        self.selected_index = if direction < 0 {
            if self.selected_index == 0 {
                len - 1
            } else {
                self.selected_index - 1
            }
        } else {
            (self.selected_index + 1) % len
        };
    }

    /// The selected file, if the selection names one.
    pub fn selected_file(&self) -> (r: Option<&FileInfo>)
        ensures
            r == (if self.selected_index < self.filtered_indices@.len()
                && self.filtered_indices@[self.selected_index as int] < self.files@.len() {
                Some(&self.files@[self.filtered_indices@[self.selected_index as int] as int])
            } else {
                None::<&FileInfo>
            }),
    {
        if self.selected_index < self.filtered_indices.len() {
            let idx = self.filtered_indices[self.selected_index];
            if idx < self.files.len() {
                return Some(&self.files[idx]);
            }
        }
        None
    }

    /// The full path of the selected file, if any.
    pub fn selected_path(&self) -> (r: Option<String>)
        ensures
            r is Some == (self.selected_index < self.filtered_indices@.len()
                && self.filtered_indices@[self.selected_index as int] < self.files@.len()),
            r matches Some(p) ==> p@ == self.files@[self.filtered_indices@[self.selected_index as int] as int].path@,
    {
        match self.selected_file() {
            Some(f) => Some(f.path.clone()),
            None => None,
        }
    }
}

} // verus!
