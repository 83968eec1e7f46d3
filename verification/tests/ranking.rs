use dep_scout::model::{Ecosystem, Package, Quality};
use dep_scout::rank::{blend_key, rank_candidates, rank_order, RankKey};
use dep_scout::relevance::Overlap;

fn key(n: u128) -> RankKey {
    RankKey { hi: n >> 32, lo: n & 0xffff_ffff }
}

fn quality(score: u32) -> Quality {
    Quality { score, verdict: "", signals: Vec::new(), warnings: Vec::new() }
}

#[test]
fn greatest_keys_come_first_and_equal_ones_keep_their_order() {
    let keys: Vec<RankKey> = [3u128, 9, 3, 1 << 40, 9].iter().map(|n| key(*n)).collect();
    assert_eq!(rank_order(&keys), vec![3, 1, 4, 0, 2]);
    assert_eq!(rank_order(&Vec::new()), Vec::<usize>::new());
}

#[test]
fn keys_are_compared_as_whole_numbers() {
    assert!(key(5).less_than(&key(1 << 32)));
    assert!(key((1 << 32) + 1).less_than(&key((1 << 32) + 2)));
    assert!(!key(7).less_than(&key(7)));
}

#[test]
fn a_blend_in_numbers() {
    // 0.45 * 80 + 35 * 1/2 + 20 * 3/4 = 68.5, times 20 * 2 * 4.
    let k = blend_key(80, Overlap { hits: 1, terms: 2 }, 1, 4, false);
    assert_eq!((k.hi, k.lo), (0, 10_960));
    // An exact name adds 1000 points.
    let k = blend_key(80, Overlap { hits: 1, terms: 2 }, 1, 4, true);
    assert_eq!((k.hi, k.lo), (0, 170_960));
    // Without terms nothing overlaps: 0.45 * 80 + 20, times 20 * 1 * 1.
    let k = blend_key(80, Overlap { hits: 0, terms: 0 }, 0, 1, false);
    assert_eq!((k.hi, k.lo), (0, 1_120));
}

#[test]
fn blends_beyond_64_bits() {
    let n = usize::MAX;
    let a = blend_key(100, Overlap { hits: n, terms: n }, 0, n, true);
    let b = blend_key(100, Overlap { hits: n, terms: n }, 1, n, true);
    let c = blend_key(99, Overlap { hits: n, terms: n }, 0, n, true);
    assert!(b.less_than(&a));
    assert!(c.less_than(&b));
}

/// The blend as floating-point numbers give it.
fn float_blend(score: u32, hits: usize, terms: usize, idx: usize, pool: usize, exact: bool) -> f64 {
    let overlap = if terms == 0 { 0.0 } else { hits as f64 / terms as f64 };
    let position = (pool as f64 - idx as f64) / pool as f64;
    score as f64 * 0.45
        + overlap * 100.0 * 0.35
        + position * 100.0 * 0.20
        + if exact { 1000.0 } else { 0.0 }
}

#[test]
fn blends_order_as_floating_point_blends_do() {
    let pool = 40;
    for terms in [0usize, 1, 2, 3, 7] {
        let mut all: Vec<(RankKey, f64)> = Vec::new();
        let mut x: u64 = 1;
        for i in 0..160usize {
            x = x.wrapping_mul(6364136223846793005).wrapping_add(1442695040888963407);
            let score = ((x >> 33) % 101) as u32;
            let hits = if terms == 0 { 0 } else { (x >> 45) as usize % (terms + 1) };
            let exact = (x >> 60) == 3;
            let o = Overlap { hits, terms };
            all.push((
                blend_key(score, o, i % pool, pool, exact),
                float_blend(score, hits, terms, i % pool, pool, exact),
            ));
        }
        for a in &all {
            for b in &all {
                if a.1 < b.1 - 1e-9 {
                    assert!(a.0.less_than(&b.0));
                }
                if a.0.less_than(&b.0) {
                    assert!(a.1 < b.1);
                }
            }
        }
    }
}

#[test]
fn exact_names_are_forced_to_the_top() {
    let names = ["http-client", "reqwest", "hyper"];
    let mut candidates: Vec<Package> = Vec::new();
    for n in names {
        let mut p = Package::new(Ecosystem::Rust, n.to_string());
        p.description = Some("hyper http client".to_string());
        candidates.push(p);
    }
    let qualities = vec![quality(100), quality(90), quality(0)];
    assert_eq!(rank_candidates("Hyper http client", &candidates, &qualities), vec![2, 0, 1]);
    assert_eq!(rank_candidates("http client", &candidates, &qualities), vec![0, 1, 2]);
}

#[test]
fn a_lower_score_ranks_lower() {
    let candidates: Vec<Package> = ["aa", "bb", "cc"]
        .iter()
        .map(|n| Package::new(Ecosystem::Npm, n.to_string()))
        .collect();
    let order = rank_candidates("zz", &candidates, &vec![quality(50), quality(60), quality(90)]);
    assert_eq!(order, vec![2, 0, 1]);
    let order = rank_candidates("zz", &candidates, &vec![quality(50), quality(60), quality(50)]);
    assert_eq!(order, vec![0, 1, 2]);
}
