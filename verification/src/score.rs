//! Ranking candidate songs for a query.
//!
//! The query's hashes are looked up in the inverted index; `rows[i]` is the
//! posting of the `i`-th query hash, a duplicate-free set of song
//! identifiers. A song's match count `U` rises by one for every row that
//! holds it; the raw count rises with it, so the two are equal here, as they
//! are in the stated scoring formula. The confidence is the exact rational
//!
//! ```text
//! base    = U / T                  (T = number of query hashes)
//! ratio   = raw / U
//! penalty = 0.8 if ratio > 2.0, 0.9 if ratio > 1.5, else 1.0
//! conf    = 0 if base < 0.10, else base * penalty
//! ```
//!
//! kept as a numerator `U * penalty_tenths` over a denominator `10 * T`.
//! Songs with zero confidence are dropped; survivors are ordered by
//! descending confidence, ties by ascending song identifier.

use vstd::prelude::*;

verus! {

/// An exact rational confidence in `(0, 1]`: `num / den`.
#[derive(Clone, Copy, Debug, PartialEq, Eq, Structural)]
pub struct Confidence {
    pub num: u128,
    pub den: u128,
}

/// One ranked candidate: a song identifier and its confidence.
#[derive(Clone, Copy, Debug, PartialEq, Eq, Structural)]
pub struct SongMatch {
    pub song_id: u64,
    pub confidence: Confidence,
}

/// The posting sequences of a sequence of posting vectors.
pub open spec fn spec_rows(rows: Seq<Vec<u64>>) -> Seq<Seq<u64>> {
    rows.map_values(|v: Vec<u64>| v@)
}

/// How many of the first `i` rows hold `id`.
pub open spec fn spec_match_count(rows: Seq<Seq<u64>>, id: u64, i: nat) -> nat
    decreases i,
{
    if i == 0 {
        0
    } else {
        spec_match_count(rows, id, (i - 1) as nat) + if rows[i - 1].contains(id) {
            1nat
        } else {
            0nat
        }
    }
}

/// A positive match count names a row that holds the identifier.
pub proof fn lemma_match_count_pos(rows: Seq<Seq<u64>>, id: u64, i: nat)
    requires
        spec_match_count(rows, id, i) > 0,
    ensures
        exists|r: int| 0 <= r < i && (#[trigger] rows[r]).contains(id),
    decreases i,
{
    if i > 0 {
        if rows[i - 1].contains(id) {
        } else {
            lemma_match_count_pos(rows, id, (i - 1) as nat);
        }
    }
}

/// A song held by every row matches every row.
pub proof fn lemma_match_count_full(rows: Seq<Seq<u64>>, id: u64, i: nat)
    requires
        i <= rows.len(),
        forall|r: int| 0 <= r < rows.len() ==> (#[trigger] rows[r]).contains(id),
    ensures
        spec_match_count(rows, id, i) == i,
    decreases i,
{
    if i > 0 {
        lemma_match_count_full(rows, id, (i - 1) as nat);
    }
}

/// A song held by no row matches none.
pub proof fn lemma_match_count_none(rows: Seq<Seq<u64>>, id: u64, i: nat)
    requires
        i <= rows.len(),
        forall|r: int| 0 <= r < rows.len() ==> !(#[trigger] rows[r]).contains(id),
    ensures
        spec_match_count(rows, id, i) == 0,
    decreases i,
{
    if i > 0 {
        lemma_match_count_none(rows, id, (i - 1) as nat);
    }
}

/// Two songs held by exactly the same rows have the same match count.
pub proof fn lemma_match_count_agree(rows: Seq<Seq<u64>>, a: u64, b: u64, i: nat)
    requires
        i <= rows.len(),
        forall|r: int|
            0 <= r < rows.len() ==> ((#[trigger] rows[r]).contains(a) <==> rows[r].contains(b)),
    ensures
        spec_match_count(rows, a, i) == spec_match_count(rows, b, i),
    decreases i,
{
    if i > 0 {
        lemma_match_count_agree(rows, a, b, (i - 1) as nat);
    }
}

/// Counts the rows that hold `id`.
fn count_matches(postings: &Vec<Vec<u64>>, id: u64) -> (r: usize)
    ensures
        r == spec_match_count(spec_rows(postings@), id, postings@.len() as nat),
        r <= postings@.len(),
{
    let mut count: usize = 0;
    let mut i: usize = 0;
    while i < postings.len()
        invariant
            i <= postings@.len(),
            count == spec_match_count(spec_rows(postings@), id, i as nat),
            count <= i,
        decreases postings@.len() - i,
    {
        if row_contains(&postings[i], id) {
            count = count + 1;
        }
        i = i + 1;
    }
    count
}

/// Tests whether a posting row holds `id`.
fn row_contains(row: &Vec<u64>, id: u64) -> (r: bool)
    ensures
        r == row@.contains(id),
{
    let mut i: usize = 0;
    while i < row.len()
        invariant
            i <= row@.len(),
            forall|j: int| 0 <= j < i ==> row@[j] != id,
        decreases row@.len() - i,
    {
        if row[i] == id {
            return true;
        }
        i = i + 1;
    }
    false
}

/// Inserts `x` into an ascending duplicate-free sequence, keeping it so.
pub open spec fn spec_insert_id(s: Seq<u64>, x: u64) -> Seq<u64>
    decreases s.len(),
{
    if s.len() == 0 {
        seq![x]
    } else if s.last() == x {
        s
    } else if s.last() < x {
        s.push(x)
    } else {
        spec_insert_id(s.drop_last(), x).push(s.last())
    }
}

/// The identifiers of one row folded into the accumulator, in row order.
pub open spec fn spec_collect_row(acc: Seq<u64>, row: Seq<u64>) -> Seq<u64>
    decreases row.len(),
{
    if row.len() == 0 {
        acc
    } else {
        spec_insert_id(spec_collect_row(acc, row.drop_last()), row.last())
    }
}

/// The identifiers of the first `i` rows, ascending and duplicate-free.
pub open spec fn spec_collect_ids(rows: Seq<Seq<u64>>, i: nat) -> Seq<u64>
    decreases i,
{
    if i == 0 {
        Seq::empty()
    } else {
        spec_collect_row(spec_collect_ids(rows, (i - 1) as nat), rows[i - 1])
    }
}

pub proof fn lemma_insert_id_membership(s: Seq<u64>, x: u64, y: u64)
    ensures
        spec_insert_id(s, x).contains(y) <==> (s.contains(y) || y == x),
    decreases s.len(),
{
    let r = spec_insert_id(s, x);
    if s.len() == 0 {
        assert(r == seq![x]);
        assert(r.contains(y) <==> y == x) by {
            if y == x {
                assert(r[0] == x);
            }
        }
    } else if s.last() == x {
        if y == x {
            assert(s[s.len() - 1] == y);
        }
    } else if s.last() < x {
        if s.contains(y) || y == x {
            if y == x {
                assert(r[s.len() as int] == y);
            } else {
                let j = choose|j: int| 0 <= j < s.len() && s[j] == y;
                assert(r[j] == y);
            }
        }
        if r.contains(y) {
            let j = choose|j: int| 0 <= j < r.len() && r[j] == y;
            if j < s.len() {
                assert(s[j] == y);
            }
        }
    } else {
        lemma_insert_id_membership(s.drop_last(), x, y);
        let t = spec_insert_id(s.drop_last(), x);
        if s.contains(y) || y == x {
            if y == s.last() {
                assert(r[t.len() as int] == y);
            } else {
                if s.contains(y) && y != s.last() {
                    let j = choose|j: int| 0 <= j < s.len() && s[j] == y;
                    assert(s.drop_last()[j] == y);
                }
                let j = choose|j: int| 0 <= j < t.len() && t[j] == y;
                assert(r[j] == y);
            }
        }
        if r.contains(y) {
            let j = choose|j: int| 0 <= j < r.len() && r[j] == y;
            if j < t.len() {
                assert(t[j] == y);
                if !(y == x) {
                    assert(s.drop_last().contains(y));
                    let jj = choose|jj: int| 0 <= jj < s.drop_last().len() && s.drop_last()[jj] == y;
                    assert(s[jj] == y);
                }
            } else {
                assert(r[j] == s.last());
                assert(s[s.len() - 1] == y);
            }
        }
    }
}

pub proof fn lemma_collect_row_membership(acc: Seq<u64>, row: Seq<u64>, y: u64)
    ensures
        spec_collect_row(acc, row).contains(y) <==> (acc.contains(y) || row.contains(y)),
    decreases row.len(),
{
    if row.len() == 0 {
    } else {
        lemma_collect_row_membership(acc, row.drop_last(), y);
        lemma_insert_id_membership(spec_collect_row(acc, row.drop_last()), row.last(), y);
        if row.contains(y) && y != row.last() {
            let j = choose|j: int| 0 <= j < row.len() && row[j] == y;
            assert(row.drop_last()[j] == y);
        }
        if row.drop_last().contains(y) {
            let j = choose|j: int| 0 <= j < row.drop_last().len() && row.drop_last()[j] == y;
            assert(row[j] == y);
        }
    }
}

pub proof fn lemma_collect_ids_membership(rows: Seq<Seq<u64>>, i: nat, y: u64)
    ensures
        spec_collect_ids(rows, i).contains(y) <==> (exists|r: int|
            0 <= r < i && (#[trigger] rows[r]).contains(y)),
    decreases i,
{
    if i > 0 {
        lemma_collect_ids_membership(rows, (i - 1) as nat, y);
        lemma_collect_row_membership(spec_collect_ids(rows, (i - 1) as nat), rows[i - 1], y);
    }
}

/// Where the insertion point is known, the sorted insertion is `Seq::insert`
/// or, on a duplicate, the sequence unchanged.
proof fn lemma_insert_id_at(s: Seq<u64>, x: u64, k: int)
    requires
        0 <= k <= s.len(),
        forall|j: int| k <= j < s.len() ==> s[j] > x,
        k > 0 ==> s[k - 1] <= x,
    ensures
        spec_insert_id(s, x) == if k > 0 && s[k - 1] == x {
            s
        } else {
            s.insert(k, x)
        },
    decreases s.len(),
{
    if s.len() == 0 {
        assert(spec_insert_id(s, x) =~= s.insert(0, x));
    } else if k == s.len() {
        if s[k - 1] == x {
        } else {
            assert(s.push(x) =~= s.insert(k, x));
        }
    } else {
        lemma_insert_id_at(s.drop_last(), x, k);
        if k > 0 && s[k - 1] == x {
        } else {
            assert(s.drop_last().insert(k, x).push(s.last()) =~= s.insert(k, x));
        }
    }
}

/// Inserts `x` into an ascending duplicate-free vector.
fn insert_sorted_id(ids: &mut Vec<u64>, x: u64)
    ensures
        final(ids)@ == spec_insert_id(old(ids)@, x),
{
    let mut k: usize = ids.len();
    while k > 0 && ids[k - 1] > x
        invariant
            k <= ids@.len(),
            forall|j: int| k <= j < ids@.len() ==> ids@[j] > x,
        decreases k,
    {
        k = k - 1;
    }
    if k > 0 && ids[k - 1] == x {
        proof {
            lemma_insert_id_at(ids@, x, k as int);
        }
        return ;
    }
    let ghost pre = ids@;
    ids.insert(k, x);
    proof {
        lemma_insert_id_at(pre, x, k as int);
    }
}

/// The penalty, in tenths, of a raw count against a match count.
pub open spec fn spec_penalty_tenths(raw: nat, u: nat) -> nat {
    if raw > 2 * u {
        8
    } else if 2 * raw > 3 * u {
        9
    } else {
        10
    }
}

/// A candidate clears the confidence floor: it matched at least once and
/// `U / T` is at least one tenth.
pub open spec fn spec_qualifies(u: nat, t: nat) -> bool {
    u > 0 && !(10 * u < t)
}

/// The confidence of a candidate with match count `u`, raw count `raw`, out
/// of `t` query hashes.
pub open spec fn spec_confidence_of(u: nat, raw: nat, t: nat) -> Confidence {
    Confidence { num: (u * spec_penalty_tenths(raw, u)) as u128, den: (10 * t) as u128 }
}

/// The qualifying candidates among the first `j` collected identifiers, in
/// identifier order. The raw count equals the match count by construction,
/// as both rise together during accumulation.
pub open spec fn spec_candidates(rows: Seq<Seq<u64>>, ids: Seq<u64>, j: nat) -> Seq<SongMatch>
    decreases j,
{
    if j == 0 {
        Seq::empty()
    } else {
        let prev = spec_candidates(rows, ids, (j - 1) as nat);
        let u = spec_match_count(rows, ids[j - 1], rows.len());
        if spec_qualifies(u, rows.len()) {
            prev.push(
                SongMatch { song_id: ids[j - 1], confidence: spec_confidence_of(u, u, rows.len()) },
            )
        } else {
            prev
        }
    }
}

/// `a` is ranked strictly before `b`: higher confidence numerator (the
/// denominators agree within one query), or the same numerator and a smaller
/// song identifier.
pub open spec fn spec_before(a: SongMatch, b: SongMatch) -> bool {
    a.confidence.num > b.confidence.num || (a.confidence.num == b.confidence.num && a.song_id
        < b.song_id)
}

/// Inserts `x` into a ranking, after every candidate ranked before it.
pub open spec fn spec_insert_match(s: Seq<SongMatch>, x: SongMatch) -> Seq<SongMatch>
    decreases s.len(),
{
    if s.len() == 0 {
        seq![x]
    } else if spec_before(s.last(), x) {
        s.push(x)
    } else {
        spec_insert_match(s.drop_last(), x).push(s.last())
    }
}

/// Sorts candidates by descending confidence, ties by ascending identifier.
pub open spec fn spec_sort_matches(s: Seq<SongMatch>) -> Seq<SongMatch>
    decreases s.len(),
{
    if s.len() == 0 {
        Seq::empty()
    } else {
        spec_insert_match(spec_sort_matches(s.drop_last()), s.last())
    }
}

/// The ranked candidate list of a query's posting rows.
pub open spec fn spec_ranked(rows: Seq<Seq<u64>>) -> Seq<SongMatch> {
    let ids = spec_collect_ids(rows, rows.len() as nat);
    spec_sort_matches(spec_candidates(rows, ids, ids.len() as nat))
}

proof fn lemma_insert_match_at(s: Seq<SongMatch>, x: SongMatch, k: int)
    requires
        0 <= k <= s.len(),
        forall|j: int| k <= j < s.len() ==> !spec_before(#[trigger] s[j], x),
        k > 0 ==> spec_before(s[k - 1], x),
    ensures
        spec_insert_match(s, x) == s.insert(k, x),
    decreases s.len(),
{
    if s.len() == 0 {
        assert(spec_insert_match(s, x) =~= s.insert(0, x));
    } else if k == s.len() {
        assert(s.push(x) =~= s.insert(k, x));
    } else {
        lemma_insert_match_at(s.drop_last(), x, k);
        assert(s.drop_last().insert(k, x).push(s.last()) =~= s.insert(k, x));
    }
}

/// Membership across the ranking insertion.
pub proof fn lemma_insert_match_membership(s: Seq<SongMatch>, x: SongMatch, y: SongMatch)
    ensures
        spec_insert_match(s, x).contains(y) <==> (s.contains(y) || y == x),
    decreases s.len(),
{
    let r = spec_insert_match(s, x);
    if s.len() == 0 {
        if y == x {
            assert(r[0] == y);
        }
        if r.contains(y) {
            let j = choose|j: int| 0 <= j < r.len() && r[j] == y;
            assert(j == 0);
        }
    } else if spec_before(s.last(), x) {
        if s.contains(y) {
            let j = choose|j: int| 0 <= j < s.len() && s[j] == y;
            assert(r[j] == y);
        }
        if y == x {
            assert(r[s.len() as int] == y);
        }
        if r.contains(y) {
            let j = choose|j: int| 0 <= j < r.len() && r[j] == y;
            if j < s.len() {
                assert(s[j] == y);
            }
        }
    } else {
        lemma_insert_match_membership(s.drop_last(), x, y);
        let t = spec_insert_match(s.drop_last(), x);
        if s.contains(y) || y == x {
            if y == s.last() {
                assert(r[t.len() as int] == y);
            } else {
                if s.contains(y) && y != s.last() {
                    let j = choose|j: int| 0 <= j < s.len() && s[j] == y;
                    assert(s.drop_last()[j] == y);
                }
                let j = choose|j: int| 0 <= j < t.len() && t[j] == y;
                assert(r[j] == y);
            }
        }
        if r.contains(y) {
            let j = choose|j: int| 0 <= j < r.len() && r[j] == y;
            if j < t.len() {
                assert(t[j] == y);
                if y != x {
                    assert(s.drop_last().contains(y));
                    let jj = choose|jj: int| 0 <= jj < s.drop_last().len() && s.drop_last()[jj] == y;
                    assert(s[jj] == y);
                }
            } else {
                assert(r[j] == s.last());
                assert(s[s.len() - 1] == y);
            }
        }
    }
}

/// Membership across the ranking sort.
pub proof fn lemma_sort_matches_membership(s: Seq<SongMatch>, y: SongMatch)
    ensures
        spec_sort_matches(s).contains(y) <==> s.contains(y),
    decreases s.len(),
{
    if s.len() == 0 {
    } else {
        lemma_sort_matches_membership(s.drop_last(), y);
        lemma_insert_match_membership(spec_sort_matches(s.drop_last()), s.last(), y);
        if s.contains(y) && y != s.last() {
            let j = choose|j: int| 0 <= j < s.len() && s[j] == y;
            assert(s.drop_last()[j] == y);
        }
        if s.drop_last().contains(y) {
            let j = choose|j: int| 0 <= j < s.drop_last().len() && s.drop_last()[j] == y;
            assert(s[j] == y);
        }
        if y == s.last() {
            assert(s[s.len() - 1] == y);
        }
    }
}

/// A ranking is ordered: no entry is ranked before an earlier one.
pub open spec fn spec_ranking_ordered(s: Seq<SongMatch>) -> bool {
    forall|a: int, b: int| 0 <= a < b < s.len() ==> !spec_before(#[trigger] s[b], #[trigger] s[a])
}

proof fn lemma_insert_match_ordered(s: Seq<SongMatch>, x: SongMatch)
    requires
        spec_ranking_ordered(s),
    ensures
        spec_ranking_ordered(spec_insert_match(s, x)),
    decreases s.len(),
{
    let r = spec_insert_match(s, x);
    if s.len() == 0 {
    } else if spec_before(s.last(), x) {
        assert forall|a: int, b: int| 0 <= a < b < r.len() implies !spec_before(
            #[trigger] r[b],
            #[trigger] r[a],
        ) by {
            if b == s.len() {
                assert(!spec_before(s.last(), s[a]));
            }
        }
    } else {
        lemma_insert_match_ordered(s.drop_last(), x);
        lemma_insert_match_membership(s.drop_last(), x, x);
        let t = spec_insert_match(s.drop_last(), x);
        assert forall|a: int, b: int| 0 <= a < b < r.len() implies !spec_before(
            #[trigger] r[b],
            #[trigger] r[a],
        ) by {
            if b == t.len() {
                assert(r[b] == s.last());
                assert(t.contains(t[a]));
                lemma_insert_match_membership(s.drop_last(), x, t[a]);
                if t[a] == x {
                } else {
                    let j = choose|j: int|
                        0 <= j < s.drop_last().len() && s.drop_last()[j] == t[a];
                    assert(!spec_before(s[s.len() - 1], s[j]));
                }
            } else {
                assert(r[a] == t[a] && r[b] == t[b]);
            }
        }
    }
}

proof fn lemma_sort_matches_ordered(s: Seq<SongMatch>)
    ensures
        spec_ranking_ordered(spec_sort_matches(s)),
    decreases s.len(),
{
    if s.len() > 0 {
        lemma_sort_matches_ordered(s.drop_last());
        lemma_insert_match_ordered(spec_sort_matches(s.drop_last()), s.last());
    }
}

/// The result of a query is sorted by its ranking relation: confidences
/// descend, and equal confidences carry ascending song identifiers.
pub proof fn lemma_ranked_sorted(rows: Seq<Seq<u64>>)
    ensures
        spec_ranking_ordered(spec_ranked(rows)),
{
    let ids = spec_collect_ids(rows, rows.len() as nat);
    lemma_sort_matches_ordered(spec_candidates(rows, ids, ids.len() as nat));
}

/// A candidate list entry is well-formed for its rows: its song qualifies
/// and its confidence is the one its match count gives.
pub open spec fn spec_cand_ok(rows: Seq<Seq<u64>>, m: SongMatch) -> bool {
    let u = spec_match_count(rows, m.song_id, rows.len() as nat);
    &&& spec_qualifies(u, rows.len() as nat)
    &&& m.confidence == spec_confidence_of(u, u, rows.len() as nat)
}

pub proof fn lemma_candidates_props(rows: Seq<Seq<u64>>, ids: Seq<u64>, j: nat)
    ensures
        forall|k: int|
            0 <= k < spec_candidates(rows, ids, j).len() ==> spec_cand_ok(
                rows,
                #[trigger] spec_candidates(rows, ids, j)[k],
            ),
    decreases j,
{
    if j > 0 {
        lemma_candidates_props(rows, ids, (j - 1) as nat);
        let prev = spec_candidates(rows, ids, (j - 1) as nat);
        let r = spec_candidates(rows, ids, j);
        assert forall|k: int| 0 <= k < r.len() implies spec_cand_ok(rows, #[trigger] r[k]) by {
            if k < prev.len() {
                assert(r[k] == prev[k]);
            }
        }
    }
}

/// A collected identifier that qualifies appears among the candidates, with
/// the confidence its match count gives.
pub proof fn lemma_candidate_present(rows: Seq<Seq<u64>>, ids: Seq<u64>, j: nat, id: u64)
    requires
        exists|jj: int| 0 <= jj < j && ids[jj] == id,
        spec_qualifies(spec_match_count(rows, id, rows.len() as nat), rows.len() as nat),
    ensures
        spec_candidates(rows, ids, j).contains(
            SongMatch {
                song_id: id,
                confidence: spec_confidence_of(
                    spec_match_count(rows, id, rows.len() as nat),
                    spec_match_count(rows, id, rows.len() as nat),
                    rows.len() as nat,
                ),
            },
        ),
    decreases j,
{
    let u = spec_match_count(rows, id, rows.len() as nat);
    let m = SongMatch { song_id: id, confidence: spec_confidence_of(u, u, rows.len() as nat) };
    let jj = choose|jj: int| 0 <= jj < j && ids[jj] == id;
    let prev = spec_candidates(rows, ids, (j - 1) as nat);
    let r = spec_candidates(rows, ids, j);
    if jj == j - 1 {
        assert(r[prev.len() as int] == m);
    } else {
        lemma_candidate_present(rows, ids, (j - 1) as nat, id);
        let k = choose|k: int| 0 <= k < prev.len() && prev[k] == m;
        assert(r[k] == m);
    }
}

/// For a query of an enrolled song's own hashes — every posting row holds
/// the song — the song is ranked with confidence 1 (numerator equal to
/// denominator), while a song that no row holds is dropped entirely. The
/// enrolled song therefore ranks strictly above every song whose
/// fingerprint set is disjoint from the query's.
pub proof fn lemma_self_query_tops_disjoint(rows: Seq<Seq<u64>>, s: u64, d: u64)
    requires
        rows.len() > 0,
        forall|r: int| 0 <= r < rows.len() ==> (#[trigger] rows[r]).contains(s),
        forall|r: int| 0 <= r < rows.len() ==> !(#[trigger] rows[r]).contains(d),
    ensures
        spec_ranked(rows).contains(
            SongMatch {
                song_id: s,
                confidence: Confidence {
                    num: (10 * rows.len()) as u128,
                    den: (10 * rows.len()) as u128,
                },
            },
        ),
        forall|k: int|
            0 <= k < spec_ranked(rows).len() ==> (#[trigger] spec_ranked(rows)[k]).song_id != d,
{
    let t = rows.len() as nat;
    let ids = spec_collect_ids(rows, t);
    lemma_match_count_full(rows, s, t);
    lemma_match_count_none(rows, d, t);
    lemma_collect_ids_membership(rows, t, s);
    assert(rows[0].contains(s));
    assert(ids.contains(s));
    let jj = choose|jj: int| 0 <= jj < ids.len() && ids[jj] == s;
    lemma_candidate_present(rows, ids, ids.len() as nat, s);
    let u = spec_match_count(rows, s, t);
    let m = SongMatch { song_id: s, confidence: spec_confidence_of(u, u, t) };
    lemma_sort_matches_membership(spec_candidates(rows, ids, ids.len() as nat), m);
    assert(spec_penalty_tenths(u, u) == 10);
    assert(u * 10 == 10 * t);
    lemma_candidates_props(rows, ids, ids.len() as nat);
    let ranked = spec_ranked(rows);
    assert forall|k: int| 0 <= k < ranked.len() implies (#[trigger] ranked[k]).song_id != d by {
        assert(ranked.contains(ranked[k]));
        lemma_sort_matches_membership(spec_candidates(rows, ids, ids.len() as nat), ranked[k]);
        let kk = choose|kk: int|
            0 <= kk < spec_candidates(rows, ids, ids.len() as nat).len() && spec_candidates(
                rows,
                ids,
                ids.len() as nat,
            )[kk] == ranked[k];
        assert(spec_cand_ok(rows, ranked[k]));
    }
}

/// Two songs that the query's rows hold in exactly the same places — as the
/// two identifiers created by enrolling one recording twice — are either
/// both ranked or both dropped, and when ranked they carry equal confidence.
pub proof fn lemma_twin_songs_equal_confidence(rows: Seq<Seq<u64>>, a: u64, b: u64)
    requires
        forall|r: int|
            0 <= r < rows.len() ==> ((#[trigger] rows[r]).contains(a) <==> rows[r].contains(b)),
    ensures
        (exists|k: int| 0 <= k < spec_ranked(rows).len() && (#[trigger] spec_ranked(rows)[k]).song_id == a)
            <==> (exists|k: int|
            0 <= k < spec_ranked(rows).len() && (#[trigger] spec_ranked(rows)[k]).song_id == b),
        forall|ka: int, kb: int|
            0 <= ka < spec_ranked(rows).len() && 0 <= kb < spec_ranked(rows).len() && (
            #[trigger] spec_ranked(rows)[ka]).song_id == a && (
            #[trigger] spec_ranked(rows)[kb]).song_id == b ==> spec_ranked(rows)[ka].confidence
                == spec_ranked(rows)[kb].confidence,
{
    let t = rows.len() as nat;
    let ids = spec_collect_ids(rows, t);
    let cands = spec_candidates(rows, ids, ids.len() as nat);
    let ranked = spec_ranked(rows);
    lemma_match_count_agree(rows, a, b, t);
    lemma_candidates_props(rows, ids, ids.len() as nat);
    assert forall|k: int|
        0 <= k < ranked.len() && (#[trigger] ranked[k]).song_id == a implies (exists|kb: int|
        0 <= kb < ranked.len() && (#[trigger] ranked[kb]).song_id == b) by {
        lemma_ranked_twin_one_way(rows, a, b);
    }
    assert forall|k: int|
        0 <= k < ranked.len() && (#[trigger] ranked[k]).song_id == b implies (exists|ka: int|
        0 <= ka < ranked.len() && (#[trigger] ranked[ka]).song_id == a) by {
        lemma_ranked_twin_one_way(rows, b, a);
    }
    assert forall|ka: int, kb: int|
        0 <= ka < ranked.len() && 0 <= kb < ranked.len() && (#[trigger] ranked[ka]).song_id == a
            && (#[trigger] ranked[kb]).song_id == b implies ranked[ka].confidence
        == ranked[kb].confidence by {
        assert(ranked.contains(ranked[ka]));
        assert(ranked.contains(ranked[kb]));
        lemma_sort_matches_membership(cands, ranked[ka]);
        lemma_sort_matches_membership(cands, ranked[kb]);
        let ia = choose|ia: int| 0 <= ia < cands.len() && cands[ia] == ranked[ka];
        let ib = choose|ib: int| 0 <= ib < cands.len() && cands[ib] == ranked[kb];
        assert(spec_cand_ok(rows, ranked[ka]));
        assert(spec_cand_ok(rows, ranked[kb]));
    }
}

/// If a ranked entry carries `a`, then `b`, matched by exactly the same
/// rows, is ranked too.
proof fn lemma_ranked_twin_one_way(rows: Seq<Seq<u64>>, a: u64, b: u64)
    requires
        forall|r: int|
            0 <= r < rows.len() ==> ((#[trigger] rows[r]).contains(a) <==> rows[r].contains(b)),
        exists|k: int|
            0 <= k < spec_ranked(rows).len() && (#[trigger] spec_ranked(rows)[k]).song_id == a,
    ensures
        exists|k: int|
            0 <= k < spec_ranked(rows).len() && (#[trigger] spec_ranked(rows)[k]).song_id == b,
{
    let t = rows.len() as nat;
    let ids = spec_collect_ids(rows, t);
    let cands = spec_candidates(rows, ids, ids.len() as nat);
    let ranked = spec_ranked(rows);
    lemma_match_count_agree(rows, a, b, t);
    lemma_candidates_props(rows, ids, ids.len() as nat);
    let k = choose|k: int| 0 <= k < ranked.len() && ranked[k].song_id == a;
    assert(ranked.contains(ranked[k]));
    lemma_sort_matches_membership(cands, ranked[k]);
    let ia = choose|ia: int| 0 <= ia < cands.len() && cands[ia] == ranked[k];
    assert(spec_cand_ok(rows, ranked[k]));
    let ua = spec_match_count(rows, a, t);
    lemma_match_count_pos(rows, a, t);
    let r0 = choose|r: int| 0 <= r < t && (#[trigger] rows[r]).contains(a);
    assert(rows[r0].contains(b));
    lemma_collect_ids_membership(rows, t, b);
    assert(ids.contains(b));
    lemma_candidate_present(rows, ids, ids.len() as nat, b);
    let ub = spec_match_count(rows, b, t);
    let mb = SongMatch { song_id: b, confidence: spec_confidence_of(ub, ub, t) };
    lemma_sort_matches_membership(cands, mb);
    let kb = choose|kb: int| 0 <= kb < ranked.len() && ranked[kb] == mb;
    assert(ranked[kb].song_id == b);
}

/// Inserts one candidate into the ranked vector.
fn insert_sorted_match(out: &mut Vec<SongMatch>, x: SongMatch)
    ensures
        final(out)@ == spec_insert_match(old(out)@, x),
{
    let mut k: usize = out.len();
    while k > 0 && !(out[k - 1].confidence.num > x.confidence.num || (out[k - 1].confidence.num
        == x.confidence.num && out[k - 1].song_id < x.song_id))
        invariant
            k <= out@.len(),
            forall|j: int| k <= j < out@.len() ==> !spec_before(#[trigger] out@[j], x),
        decreases k,
    {
        k = k - 1;
    }
    let ghost pre = out@;
    out.insert(k, x);
    proof {
        lemma_insert_match_at(pre, x, k as int);
    }
}

/// Ranks the candidate songs of a query from its posting rows: `rows[i]`
/// holds the song identifiers posted under the query's `i`-th hash. Songs
/// below the confidence floor are dropped; the rest are ordered by
/// descending confidence, ties by ascending identifier.
pub fn score_postings(postings: &Vec<Vec<u64>>) -> (r: Vec<SongMatch>)
    ensures
        r@ == spec_ranked(spec_rows(postings@)),
{
    let ghost rows = spec_rows(postings@);
    let t: usize = postings.len();
    let mut ids: Vec<u64> = Vec::new();
    let mut i: usize = 0;
    while i < t
        invariant
            i <= t,
            t == postings@.len(),
            rows == spec_rows(postings@),
            ids@ == spec_collect_ids(rows, i as nat),
        decreases t - i,
    {
        let row_len: usize = postings[i].len();
        let mut j: usize = 0;
        while j < row_len
            invariant
                i < t,
                t == postings@.len(),
                rows == spec_rows(postings@),
                j <= row_len,
                row_len == postings@[i as int]@.len(),
                ids@ == spec_collect_row(
                    spec_collect_ids(rows, i as nat),
                    rows[i as int].take(j as int),
                ),
            decreases row_len - j,
        {
            insert_sorted_id(&mut ids, postings[i][j]);
            proof {
                assert(rows[i as int].take(j as int + 1).drop_last() =~= rows[i as int].take(
                    j as int,
                ));
            }
            j = j + 1;
        }
        proof {
            assert(rows[i as int].take(row_len as int) =~= rows[i as int]);
        }
        i = i + 1;
    }
    let mut cands: Vec<SongMatch> = Vec::new();
    let mut j: usize = 0;
    while j < ids.len()
        invariant
            j <= ids@.len(),
            t == postings@.len(),
            rows == spec_rows(postings@),
            cands@ == spec_candidates(rows, ids@, j as nat),
        decreases ids@.len() - j,
    {
        let u: usize = count_matches(postings, ids[j]);
        let raw: usize = u;
        if u > 0 && !(10 * (u as u128) < t as u128) {
            let penalty: u128 = if (raw as u128) > 2 * (u as u128) {
                8
            } else if 2 * (raw as u128) > 3 * (u as u128) {
                9
            } else {
                10
            };
            let m = SongMatch {
                song_id: ids[j],
                confidence: Confidence { num: (u as u128) * penalty, den: 10 * (t as u128) },
            };
            cands.push(m);
        }
        j = j + 1;
    }
    let mut out: Vec<SongMatch> = Vec::new();
    let mut j: usize = 0;
    while j < cands.len()
        invariant
            j <= cands@.len(),
            out@ == spec_sort_matches(cands@.take(j as int)),
        decreases cands@.len() - j,
    {
        insert_sorted_match(&mut out, cands[j]);
        proof {
            assert(cands@.take(j as int + 1).drop_last() =~= cands@.take(j as int));
        }
        j = j + 1;
    }
    proof {
        assert(cands@.take(cands@.len() as int) =~= cands@);
        assert(ids@.len() as nat == spec_collect_ids(rows, rows.len() as nat).len());
    }
    out
}

} // verus!
