//! Store and retrieval behaviour: enrollment, posting semantics, scoring,
//! ranking, and the end-to-end identification scenarios.

use fingerprinter::fingerprint::generate_fingerprint;
use fingerprinter::score::score_postings;
use fingerprinter::signal::normalize_i16_samples;
use fingerprinter::store::{FingerprintStore, SongInfo};
use fingerprinter::AudioFingerprinter;

fn lcg_noise(seed: u64, n: usize) -> Vec<i32> {
    let mut x = seed;
    let raw: Vec<i16> = (0..n)
        .map(|_| {
            x = x
                .wrapping_mul(6364136223846793005)
                .wrapping_add(1442695040888963407);
            (x >> 48) as i16
        })
        .collect();
    normalize_i16_samples(&raw)
}

fn tone_pair(f1: f64, f2: f64, seconds: f64) -> Vec<i32> {
    let rate = 44100u32;
    let n = (seconds * rate as f64) as usize;
    let raw: Vec<i16> = (0..n)
        .map(|i| {
            let t = i as f64 / rate as f64;
            let v = 0.45 * (2.0 * std::f64::consts::PI * f1 * t).sin()
                + 0.45 * (2.0 * std::f64::consts::PI * f2 * t).sin();
            (v * 32767.0).round() as i16
        })
        .collect();
    normalize_i16_samples(&raw)
}

fn info(name: &str, singer: &str) -> SongInfo {
    SongInfo { name: name.to_string(), singer: singer.to_string() }
}

#[test]
fn two_tone_recording_identifies_itself() {
    // The single-recording identification scenario, with a clip that emits
    // hashes: two tones in one band. Querying the enrolled buffer returns
    // exactly that recording at full confidence.
    let samples = tone_pair(1292.0, 1723.0, 3.0);
    let mut engine = AudioFingerprinter::new();
    let id = engine.store_song(info("tone", "T"), &samples, 44100);
    assert_eq!(id, 1);
    let results = engine.search_song(&samples, 44100);
    assert_eq!(results.len(), 1);
    assert_eq!(results[0].song_id, 1);
    // Confidence 1.0, and in particular at least 0.10.
    assert_eq!(results[0].confidence.num, results[0].confidence.den);
    assert!(10 * results[0].confidence.num >= results[0].confidence.den);
    let record = engine.get_song(1).expect("enrolled song");
    assert_eq!(record.name, "tone");
}

#[test]
fn self_query_ranks_above_disjoint_recording() {
    // Two recordings with disjoint fingerprint sets (pairs at different
    // bins); a self-query returns the enrolled one at confidence 1 and
    // drops the disjoint one entirely.
    let a = tone_pair(1292.0, 1723.0, 2.0);
    let b = tone_pair(1077.0, 2154.0, 2.0);
    let mut engine = AudioFingerprinter::new();
    let ida = engine.store_song(info("alpha", "A"), &a, 44100);
    let idb = engine.store_song(info("beta", "B"), &b, 44100);
    let fa = generate_fingerprint(&a, 44100);
    let fb = generate_fingerprint(&b, 44100);
    assert!(!fa.is_empty() && !fb.is_empty());
    assert!(fa.iter().all(|h| !fb.contains(h)), "fingerprint sets disjoint");
    let results = engine.search_song(&a, 44100);
    assert!(results.iter().any(|m| m.song_id == ida));
    assert!(results.iter().all(|m| m.song_id != idb));
    let top = &results[0];
    assert_eq!(top.song_id, ida);
    assert_eq!(top.confidence.num, top.confidence.den);
}

#[test]
fn double_enrollment_returns_both_ids_with_equal_confidence() {
    let samples = tone_pair(1292.0, 1723.0, 2.0);
    let mut engine = AudioFingerprinter::new();
    let id1 = engine.store_song(info("song", "S"), &samples, 44100);
    let id2 = engine.store_song(info("song", "S"), &samples, 44100);
    assert_ne!(id1, id2);
    let results = engine.search_song(&samples, 44100);
    assert_eq!(results.len(), 2);
    assert!(results.iter().any(|m| m.song_id == id1));
    assert!(results.iter().any(|m| m.song_id == id2));
    assert_eq!(results[0].confidence, results[1].confidence);
    // Ties break by ascending identifier.
    assert_eq!(results[0].song_id, id1);
    assert_eq!(results[1].song_id, id2);
}

#[test]
fn silence_query_returns_nothing() {
    let recording = lcg_noise(21, 5 * 44100);
    let mut engine = AudioFingerprinter::new();
    engine.store_song(info("real", "R"), &recording, 44100);
    let silence: Vec<i32> = vec![0; 3 * 44100];
    let results = engine.search_song(&silence, 44100);
    assert!(results.is_empty());
}

#[test]
fn aligned_subclip_finds_the_recording() {
    // Enroll a 30-second recording and query with a 5-second contiguous
    // subclip starting on a window hop, so its windows coincide with
    // enrolled ones.
    let recording = lcg_noise(23, 30 * 44100);
    let mut engine = AudioFingerprinter::new();
    let id = engine.store_song(info("long", "L"), &recording, 44100);
    let start = 512 * 400;
    let clip: Vec<i32> = recording[start..start + 5 * 44100].to_vec();
    let results = engine.search_song(&clip, 44100);
    assert!(results.iter().any(|m| m.song_id == id));
}

#[test]
fn disjoint_noise_scores_below_self_query() {
    // Independent noise of the same length: either no candidate or a
    // confidence below the self-query's 1.0.
    let recording = lcg_noise(29, 5 * 44100);
    let probe = lcg_noise(31, 5 * 44100);
    let mut engine = AudioFingerprinter::new();
    engine.store_song(info("real", "R"), &recording, 44100);
    let results = engine.search_song(&probe, 44100);
    for m in &results {
        assert!(m.confidence.num < m.confidence.den);
    }
}

#[test]
fn posting_sets_deduplicate_and_grow_monotonically() {
    let mut store = FingerprintStore::new();
    assert_eq!(store.song_count(), 0);
    assert_eq!(store.next_song_id(), 1);
    // A duplicated hash in one fingerprint posts once.
    let id1 = store.store_song(info("one", "A"), &vec![77, 77, 99]);
    assert_eq!(id1, 1);
    assert_eq!(store.get_postings(77), vec![1]);
    assert_eq!(store.get_postings(99), vec![1]);
    assert_eq!(store.get_postings(123), Vec::<u64>::new());
    let id2 = store.store_song(info("two", "B"), &vec![77]);
    assert_eq!(id2, 2);
    assert_eq!(store.get_postings(77), vec![1, 2]);
    assert_eq!(store.get_postings(99), vec![1]);
    assert_eq!(store.song_count(), 2);
    assert_eq!(store.get_song(1).unwrap().name, "one");
    assert_eq!(store.get_song(2).unwrap().singer, "B");
    assert!(store.get_song(0).is_none());
    assert!(store.get_song(3).is_none());
}

#[test]
fn scoring_keeps_the_floor_and_orders_by_confidence() {
    // Ten query hashes: song 1 in every posting, song 2 in exactly one.
    // Base confidences 1.0 and 0.10; both qualify, song 1 first.
    let mut rows: Vec<Vec<u64>> = vec![vec![1, 2]];
    for _ in 0..9 {
        rows.push(vec![1]);
    }
    let ranked = score_postings(&rows);
    assert_eq!(ranked.len(), 2);
    assert_eq!(ranked[0].song_id, 1);
    assert_eq!(ranked[0].confidence.num, 100);
    assert_eq!(ranked[0].confidence.den, 100);
    assert_eq!(ranked[1].song_id, 2);
    assert_eq!(ranked[1].confidence.num, 10);
    assert_eq!(ranked[1].confidence.den, 100);
}

#[test]
fn scoring_drops_below_one_tenth() {
    // Eleven query hashes and a single match: 1/11 < 0.10, dropped.
    let mut rows: Vec<Vec<u64>> = vec![vec![2]];
    for _ in 0..10 {
        rows.push(vec![]);
    }
    let ranked = score_postings(&rows);
    assert!(ranked.is_empty());
    // An empty query scores nothing at all.
    assert!(score_postings(&Vec::new()).is_empty());
}
