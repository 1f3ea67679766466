//! The fingerprint store: a song table and an inverted index.
//!
//! Song identifiers are allocated from 1 upward and never reused; song `id`
//! sits at slot `id - 1` of the table and its record never changes. The
//! inverted index maps a hash to its posting: the duplicate-free list of
//! identifiers of the songs whose fingerprints contain that hash, in order
//! of enrollment. Empty postings are never stored.

use crate::score::{score_postings, spec_ranked, spec_rows, Confidence, SongMatch};
use std::collections::HashMap;
use vstd::prelude::*;

verus! {

broadcast use vstd::std_specs::hash::group_hash_axioms;

/// A song's immutable record: its name and its artist.
#[derive(Clone, Debug)]
pub struct SongInfo {
    pub name: String,
    pub singer: String,
}

/// The store behind enrollment and query.
pub struct FingerprintStore {
    songs: Vec<SongInfo>,
    index: HashMap<u64, Vec<u64>>,
}

/// Copies a posting.
fn clone_u64_vec(v: &Vec<u64>) -> (r: Vec<u64>)
    ensures
        r@ == v@,
{
    let mut r: Vec<u64> = Vec::new();
    let mut i: usize = 0;
    while i < v.len()
        invariant
            i <= v@.len(),
            r@ == v@.take(i as int),
        decreases v@.len() - i,
    {
        r.push(v[i]);
        proof {
            assert(r@ =~= v@.take(i as int + 1));
        }
        i = i + 1;
    }
    proof {
        assert(v@.take(v@.len() as int) =~= v@);
    }
    r
}

/// Tests whether a posting already holds an identifier.
fn posting_contains(row: &Vec<u64>, id: u64) -> (r: bool)
    ensures
        r == row@.contains(id),
{
    let mut i: usize = 0;
    while i < row.len()
        invariant
            i <= row@.len(),
            forall|j: int| 0 <= j < i ==> row@[j] != id,
        decreases row@.len() - i,
    {
        if row[i] == id {
            return true;
        }
        i = i + 1;
    }
    false
}

impl FingerprintStore {
    /// The enrolled song records, in identifier order.
    pub closed spec fn spec_songs(self) -> Seq<SongInfo> {
        self.songs@
    }

    /// The posting of a hash: empty where the hash was never stored.
    pub closed spec fn spec_posting(self, h: u64) -> Seq<u64> {
        if self.index@.contains_key(h) {
            self.index@[h]@
        } else {
            Seq::empty()
        }
    }

    /// The store's invariant: every stored posting is non-empty and
    /// duplicate-free, and every posted identifier names an enrolled song.
    pub closed spec fn wf(self) -> bool {
        forall|h: u64|
            #[trigger] self.index@.contains_key(h) ==> (self.index@[h]@.len() >= 1 && (forall|
                i: int,
                j: int,
            |
                0 <= i < j < self.index@[h]@.len() ==> self.index@[h]@[i] != self.index@[h]@[j]) && (
            forall|i: int|
                0 <= i < self.index@[h]@.len() ==> 1 <= #[trigger] self.index@[h]@[i]
                    <= self.songs@.len()))
    }

    /// An empty store.
    pub fn new() -> (r: Self)
        ensures
            r.wf(),
            r.spec_songs() == Seq::<SongInfo>::empty(),
            forall|h: u64| #[trigger] r.spec_posting(h) == Seq::<u64>::empty(),
    {
        FingerprintStore { songs: Vec::new(), index: HashMap::new() }
    }

    /// How many songs are enrolled.
    pub fn song_count(&self) -> (r: usize)
        ensures
            r == self.spec_songs().len(),
    {
        self.songs.len()
    }

    /// The identifier the next enrollment will get.
    pub fn next_song_id(&self) -> (r: u64)
        requires
            self.spec_songs().len() < 0xFFFF_FFFF_FFFF_FFFFu64,
        ensures
            r == self.spec_songs().len() + 1,
    {
        (self.songs.len() as u64) + 1
    }

    /// The record of an enrolled song; `None` for an unknown identifier.
    pub fn get_song(&self, id: u64) -> (r: Option<&SongInfo>)
        ensures
            r is Some <==> 1 <= id <= self.spec_songs().len(),
            r is Some ==> *r.unwrap() == self.spec_songs()[id - 1],
    {
        if id >= 1 && id <= self.songs.len() as u64 {
            Some(&self.songs[(id - 1) as usize])
        } else {
            None
        }
    }

    /// The posting of a hash, as a fresh vector.
    pub fn get_postings(&self, h: u64) -> (r: Vec<u64>)
        ensures
            r@ == self.spec_posting(h),
    {
        match self.index.get(&h) {
            Some(v) => clone_u64_vec(v),
            None => Vec::new(),
        }
    }

    /// Enrolls a song: allocates the next identifier, appends the record,
    /// and adds the identifier to the posting of every fingerprint hash.
    /// A hash occurring several times in one fingerprint posts once.
    pub fn store_song(&mut self, info: SongInfo, fingerprints: &Vec<u64>) -> (id: u64)
        requires
            old(self).wf(),
            old(self).spec_songs().len() < 0xFFFF_FFFF_FFFF_FFFFu64,
        ensures
            final(self).wf(),
            id == old(self).spec_songs().len() + 1,
            final(self).spec_songs() == old(self).spec_songs().push(info),
            forall|h: u64|
                fingerprints@.contains(h) ==> #[trigger] final(self).spec_posting(h) == old(
                    self,
                ).spec_posting(h).push(id),
            forall|h: u64|
                !fingerprints@.contains(h) ==> #[trigger] final(self).spec_posting(h) == old(
                    self,
                ).spec_posting(h),
    {
        let id: u64 = (self.songs.len() as u64) + 1;
        self.songs.push(info);
        let mut i: usize = 0;
        while i < fingerprints.len()
            invariant
                i <= fingerprints@.len(),
                id == old(self).spec_songs().len() + 1,
                self.songs@ == old(self).spec_songs().push(info),
                forall|h: u64|
                    fingerprints@.take(i as int).contains(h) ==> #[trigger] self.spec_posting(h)
                        == old(self).spec_posting(h).push(id),
                forall|h: u64|
                    !fingerprints@.take(i as int).contains(h) ==> #[trigger] self.spec_posting(h)
                        == old(self).spec_posting(h),
                old(self).wf(),
                self.wf(),
            decreases fingerprints@.len() - i,
        {
            let h: u64 = fingerprints[i];
            let ghost pre = *self;
            let mut v: Vec<u64> = match self.index.get(&h) {
                Some(cur) => clone_u64_vec(cur),
                None => Vec::new(),
            };
            if !posting_contains(&v, id) {
                v.push(id);
            }
            let ghost vv = v@;
            self.index.insert(h, v);
            proof {
                lemma_store_song_step(pre, *self, *old(self), fingerprints@, i as int, id, vv);
            }
            i = i + 1;
        }
        proof {
            assert(fingerprints@.take(fingerprints@.len() as int) =~= fingerprints@);
        }
        id
    }

    /// The posting rows of a query: one per query hash, in order.
    pub open spec fn spec_query_rows(self, fps: Seq<u64>) -> Seq<Seq<u64>> {
        fps.map_values(|h: u64| self.spec_posting(h))
    }

    /// Ranks the enrolled songs against a list of query hashes.
    pub fn search_fingerprints(&self, fingerprints: &Vec<u64>) -> (r: Vec<SongMatch>)
        requires
            self.wf(),
        ensures
            r@ == spec_ranked(self.spec_query_rows(fingerprints@)),
            forall|k: int|
                0 <= k < r@.len() ==> 1 <= (#[trigger] r@[k]).song_id <= self.spec_songs().len(),
    {
        let mut rows: Vec<Vec<u64>> = Vec::new();
        let mut i: usize = 0;
        while i < fingerprints.len()
            invariant
                i <= fingerprints@.len(),
                rows@.len() == i,
                forall|j: int|
                    0 <= j < i ==> (#[trigger] rows@[j])@ == self.spec_posting(fingerprints@[j]),
            decreases fingerprints@.len() - i,
        {
            let p: Vec<u64> = self.get_postings(fingerprints[i]);
            rows.push(p);
            i = i + 1;
        }
        let r: Vec<SongMatch> = score_postings(&rows);
        proof {
            assert(spec_rows(rows@) =~= self.spec_query_rows(fingerprints@));
            let qrows = self.spec_query_rows(fingerprints@);
            let ids = crate::score::spec_collect_ids(qrows, qrows.len() as nat);
            let cands = crate::score::spec_candidates(qrows, ids, ids.len() as nat);
            crate::score::lemma_candidates_props(qrows, ids, ids.len() as nat);
            assert forall|k: int| 0 <= k < r@.len() implies 1 <= (#[trigger] r@[k]).song_id
                <= self.spec_songs().len() by {
                assert(r@.contains(r@[k]));
                crate::score::lemma_sort_matches_membership(cands, r@[k]);
                let kk = choose|kk: int| 0 <= kk < cands.len() && cands[kk] == r@[k];
                assert(crate::score::spec_cand_ok(qrows, r@[k]));
                crate::score::lemma_match_count_pos(qrows, r@[k].song_id, qrows.len() as nat);
                let rr = choose|rr: int|
                    0 <= rr < qrows.len() && (#[trigger] qrows[rr]).contains(r@[k].song_id);
                let pp = self.spec_posting(fingerprints@[rr]);
                let jj = choose|jj: int| 0 <= jj < pp.len() && pp[jj] == r@[k].song_id;
            }
        }
        r
    }
}

/// One enrollment step keeps the store's invariant and advances the
/// postings of the hashes seen so far.
proof fn lemma_store_song_step(
    pre: FingerprintStore,
    post: FingerprintStore,
    orig: FingerprintStore,
    fps: Seq<u64>,
    i: int,
    id: u64,
    v: Seq<u64>,
)
    requires
        0 <= i < fps.len(),
        orig.wf(),
        pre.wf(),
        id == orig.spec_songs().len() + 1,
        id <= 0xFFFF_FFFF_FFFF_FFFFu64,
        pre.spec_songs() == post.spec_songs(),
        pre.spec_songs().len() == orig.spec_songs().len() + 1,
        forall|h: u64|
            fps.take(i).contains(h) ==> #[trigger] pre.spec_posting(h) == orig.spec_posting(
                h,
            ).push(id),
        forall|h: u64|
            !fps.take(i).contains(h) ==> #[trigger] pre.spec_posting(h) == orig.spec_posting(h),
        v == if pre.spec_posting(fps[i]).contains(id) {
            pre.spec_posting(fps[i])
        } else {
            pre.spec_posting(fps[i]).push(id)
        },
        post.spec_index() == pre.spec_index().insert(fps[i], post.spec_index()[fps[i]]),
        post.spec_index().contains_key(fps[i]),
        post.spec_index()[fps[i]]@ == v,
        forall|h: u64|
            h != fps[i] ==> (#[trigger] post.spec_index().contains_key(h)
                <==> pre.spec_index().contains_key(h)),
        forall|h: u64|
            h != fps[i] && pre.spec_index().contains_key(h) ==> #[trigger] post.spec_index()[h]
                == pre.spec_index()[h],
    ensures
        post.wf(),
        forall|h: u64|
            fps.take(i + 1).contains(h) ==> #[trigger] post.spec_posting(h) == orig.spec_posting(
                h,
            ).push(id),
        forall|h: u64|
            !fps.take(i + 1).contains(h) ==> #[trigger] post.spec_posting(h) == orig.spec_posting(
                h,
            ),
{
    let hcur = fps[i];
    assert(fps.take(i + 1).contains(hcur)) by {
        assert(fps.take(i + 1)[i] == hcur);
    }
    if !fps.take(i).contains(hcur) {
        assert(pre.spec_posting(hcur) == orig.spec_posting(hcur));
        assert(!orig.spec_posting(hcur).contains(id)) by {
            if orig.spec_posting(hcur).contains(id) {
                let j = choose|j: int|
                    0 <= j < orig.spec_posting(hcur).len() && orig.spec_posting(hcur)[j] == id;
                assert(orig.spec_index().contains_key(hcur));
            }
        }
        assert(v == orig.spec_posting(hcur).push(id));
    } else {
        assert(pre.spec_posting(hcur) == orig.spec_posting(hcur).push(id));
        assert(pre.spec_posting(hcur).contains(id)) by {
            assert(pre.spec_posting(hcur)[pre.spec_posting(hcur).len() - 1] == id);
        }
        assert(v == orig.spec_posting(hcur).push(id));
    }
    assert forall|h: u64| fps.take(i + 1).contains(h) implies #[trigger] post.spec_posting(h)
        == orig.spec_posting(h).push(id) by {
        if h == hcur {
            assert(post.spec_posting(h) == v);
        } else {
            let t1 = fps.take(i + 1);
            let j = choose|j: int| 0 <= j < t1.len() && t1[j] == h;
            assert(fps.take(i)[j] == h);
            assert(fps.take(i).contains(h));
            assert(post.spec_index().contains_key(h) <==> pre.spec_index().contains_key(h));
            if pre.spec_index().contains_key(h) {
                assert(post.spec_index()[h] == pre.spec_index()[h]);
            }
            assert(post.spec_posting(h) == pre.spec_posting(h));
        }
    }
    assert forall|h: u64| !fps.take(i + 1).contains(h) implies #[trigger] post.spec_posting(h)
        == orig.spec_posting(h) by {
        assert(h != hcur);
        if fps.take(i).contains(h) {
            let t0 = fps.take(i);
            let j = choose|j: int| 0 <= j < t0.len() && t0[j] == h;
            assert(fps.take(i + 1)[j] == h);
        }
        assert(post.spec_index().contains_key(h) <==> pre.spec_index().contains_key(h));
        if pre.spec_index().contains_key(h) {
            assert(post.spec_index()[h] == pre.spec_index()[h]);
        }
        assert(post.spec_posting(h) == pre.spec_posting(h));
    }
    assert forall|h: u64| #[trigger] post.spec_index().contains_key(h) implies (
    post.spec_index()[h]@.len() >= 1 && (forall|a: int, b: int|
        0 <= a < b < post.spec_index()[h]@.len() ==> post.spec_index()[h]@[a]
            != post.spec_index()[h]@[b]) && (forall|a: int|
        0 <= a < post.spec_index()[h]@.len() ==> 1 <= #[trigger] post.spec_index()[h]@[a]
            <= post.spec_songs().len())) by {
        if h == hcur {
            let p = orig.spec_posting(hcur);
            if orig.spec_index().contains_key(hcur) {
            }
            assert(v == p.push(id));
            assert forall|a: int, b: int| 0 <= a < b < v.len() implies v[a] != v[b] by {
                if b < p.len() {
                } else {
                    assert(v[b] == id);
                    if orig.spec_index().contains_key(hcur) {
                        assert(1 <= p[a] <= orig.spec_songs().len());
                    }
                }
            }
            assert forall|a: int| 0 <= a < v.len() implies 1 <= #[trigger] v[a]
                <= post.spec_songs().len() by {
                if a < p.len() {
                    assert(orig.spec_index().contains_key(hcur));
                    assert(1 <= p[a] <= orig.spec_songs().len());
                } else {
                    assert(v[a] == id);
                }
            }
        } else {
            assert(pre.spec_index().contains_key(h));
        }
    }
}

impl FingerprintStore {
    /// The raw index view, for the enrollment proof.
    pub closed spec fn spec_index(self) -> Map<u64, Vec<u64>> {
        self.index@
    }
}

/// For a query made of an enrolled song's own hashes — every query hash's
/// posting holds the song — the ranked result carries that song at
/// confidence 1, and carries no song held by none of the query's postings:
/// the enrolled song ranks strictly above every song whose fingerprint set
/// is disjoint from the query's.
pub proof fn lemma_enrolled_tops_disjoint(store: FingerprintStore, fps: Seq<u64>, s: u64, d: u64)
    requires
        fps.len() > 0,
        forall|i: int| 0 <= i < fps.len() ==> (#[trigger] store.spec_posting(fps[i])).contains(s),
        forall|i: int| 0 <= i < fps.len() ==> !(#[trigger] store.spec_posting(fps[i])).contains(d),
    ensures
        spec_ranked(store.spec_query_rows(fps)).contains(
            SongMatch {
                song_id: s,
                confidence: Confidence {
                    num: (10 * fps.len()) as u128,
                    den: (10 * fps.len()) as u128,
                },
            },
        ),
        forall|k: int|
            0 <= k < spec_ranked(store.spec_query_rows(fps)).len() ==> (#[trigger] spec_ranked(
                store.spec_query_rows(fps),
            )[k]).song_id != d,
{
    let rows = store.spec_query_rows(fps);
    assert(rows.len() == fps.len());
    assert forall|i: int| 0 <= i < rows.len() implies (#[trigger] rows[i]).contains(s) by {
        assert(rows[i] == store.spec_posting(fps[i]));
    }
    assert forall|i: int| 0 <= i < rows.len() implies !(#[trigger] rows[i]).contains(d) by {
        assert(rows[i] == store.spec_posting(fps[i]));
    }
    crate::score::lemma_self_query_tops_disjoint(rows, s, d);
}

/// Two songs whose postings agree on every query hash — as the two
/// identifiers created by enrolling one recording twice — are either both
/// ranked or both dropped, and when ranked carry equal confidence.
pub proof fn lemma_double_enrollment_equal_confidence(
    store: FingerprintStore,
    fps: Seq<u64>,
    a: u64,
    b: u64,
)
    requires
        forall|i: int|
            0 <= i < fps.len() ==> ((#[trigger] store.spec_posting(fps[i])).contains(a)
                <==> store.spec_posting(fps[i]).contains(b)),
    ensures
        (exists|k: int|
            0 <= k < spec_ranked(store.spec_query_rows(fps)).len() && (#[trigger] spec_ranked(
                store.spec_query_rows(fps),
            )[k]).song_id == a) <==> (exists|k: int|
            0 <= k < spec_ranked(store.spec_query_rows(fps)).len() && (#[trigger] spec_ranked(
                store.spec_query_rows(fps),
            )[k]).song_id == b),
        forall|ka: int, kb: int|
            0 <= ka < spec_ranked(store.spec_query_rows(fps)).len() && 0 <= kb < spec_ranked(
                store.spec_query_rows(fps),
            ).len() && (#[trigger] spec_ranked(store.spec_query_rows(fps))[ka]).song_id == a && (
            #[trigger] spec_ranked(store.spec_query_rows(fps))[kb]).song_id == b ==> spec_ranked(
                store.spec_query_rows(fps),
            )[ka].confidence == spec_ranked(store.spec_query_rows(fps))[kb].confidence,
{
    let rows = store.spec_query_rows(fps);
    assert forall|i: int|
        0 <= i < rows.len() implies ((#[trigger] rows[i]).contains(a) <==> rows[i].contains(
        b,
    )) by {
        assert(rows[i] == store.spec_posting(fps[i]));
    }
    crate::score::lemma_twin_songs_equal_confidence(rows, a, b);
}

} // verus!
