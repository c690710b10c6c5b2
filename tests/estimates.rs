use redis_minhash::combiner::{MinHashCombiner, SimilarityTerms};
use redis_minhash::registers::{new_array_registers, NUM_REGISTERS, P, R, Q, HLL_Q};
use redis_minhash::sketch::{HyperMinHash, MinHash};

const HLL_ALPHA_INF: f64 = 0.721347520444481703680;

fn tau(mut x: f64) -> f64 {
    if x == 0.0 || x == 1.0 {
        return 0.0;
    }
    let mut y = 1.0;
    let mut z = 1.0 - x;
    loop {
        x = x.sqrt();
        let z_prime = z;
        y *= 0.5;
        z -= (1.0 - x).powf(2.0) * y;
        if z_prime == z {
            break;
        }
    }
    z / 3.0
}

fn sigma(mut x: f64) -> f64 {
    if x == 1.0 {
        return f64::INFINITY;
    }
    let mut y = 1.0;
    let mut z = x;
    loop {
        x *= x;
        let z_prime = z;
        z += x * y;
        y += y;
        if z_prime == z {
            break;
        }
    }
    z
}

fn estimate(reg_histo: &[u32]) -> f64 {
    let m = NUM_REGISTERS as f64;
    let mut z = m * tau((m - reg_histo[HLL_Q + 1] as f64) / m);
    for i in (1..=HLL_Q).rev() {
        z += reg_histo[i] as f64;
        z *= 0.5;
    }
    z += m * sigma(reg_histo[0] as f64 / m);
    (HLL_ALPHA_INF * m * m / z).round()
}

fn expected_collision(n: f64, m: f64) -> f64 {
    let two_r = 1usize;
    let two_q = 1usize << Q;
    let mut x = 0.0;
    for i in 1..=two_q {
        for j in 1..=two_r {
            let (b1, b2) = if i != two_q {
                let den = 2f64.powi((P + i) as i32);
                ((two_r + j) as f64 / den, (two_r + j + 1) as f64 / den)
            } else {
                let den = 2f64.powi((P + i - 1) as i32);
                (j as f64 / den, (j + 1) as f64 / den)
            };
            let prx = (1.0 - b2).powf(n) - (1.0 - b1).powf(n);
            let pry = (1.0 - b2).powf(m) - (1.0 - b1).powf(m);
            x += prx * pry;
        }
    }
    x * NUM_REGISTERS as f64
}

fn approx_expected_collision(n: f64, m: f64) -> f64 {
    let (n, m) = if n < m { (m, n) } else { (n, m) };
    if n > 2f64.powi((HLL_Q + R) as i32) {
        0.0
    } else if n > 2f64.powi((P + 5) as i32) {
        let phi = (4.0 * n / m) / (1.0 + n / m).powi(2);
        0.169919487159739093975315012348f64 * 2f64.powi((P - R) as i32) * phi
    } else {
        expected_collision(n, m) / 2f64.powi(R as i32)
    }
}

fn similarity(c: &MinHashCombiner) -> f64 {
    match c.similarity_terms() {
        SimilarityTerms::Empty | SimilarityTerms::Disjoint => 0.0,
        SimilarityTerms::Single => 1.0,
        SimilarityTerms::Pair { matching, occupied } => {
            let ec = approx_expected_collision(
                estimate(c.sketch_histogram(0)),
                estimate(c.sketch_histogram(1)),
            );
            (matching as f64 - ec) / occupied as f64
        }
        SimilarityTerms::Multi { matching, occupied } => matching as f64 / occupied as f64,
    }
}

fn intersection(c: &MinHashCombiner) -> f64 {
    similarity(c) * estimate(&c.union_histogram())
}

#[test]
fn sketch_test_cardinality() {
    let mut sketch = HyperMinHash::wrap(new_array_registers());

    for i in 0..10 {
        sketch.add(format!("id{}", i).as_bytes());
    }
    assert_eq!(estimate(&sketch.histogram()) as u64, 10);

    for i in 0..1_000_000 {
        sketch.add(format!("id{}", i).as_bytes());
    }
    assert_eq!(estimate(&sketch.histogram()) as u64, 997689);
}

#[test]
fn test_accuracy() {
    let mut minhash = MinHash::new();

    for i in 0..10 {
        minhash.add(format!("id{}", i).as_bytes());
    }
    assert_eq!(estimate(&minhash.histogram()) as u64, 10);

    for i in 0..1_000_000 {
        minhash.add(format!("id{}", i).as_bytes());
    }
    assert_eq!(estimate(&minhash.histogram()) as u64, 997689);
}

#[test]
fn empty_sketch_estimates_zero() {
    let sketch = MinHash::new();
    assert_eq!(estimate(&sketch.histogram()), 0.0);
}

#[test]
fn union_estimate_is_close() {
    let mut a = MinHash::new();
    let mut b = MinHash::new();
    for i in 0..60_000 {
        a.add(format!("u{}", i).as_bytes());
    }
    for i in 40_000..100_000 {
        b.add(format!("u{}", i).as_bytes());
    }
    let merged = MinHash::merge(&[a, b]);
    let est = estimate(&merged.histogram());
    let err = (est - 100_000.0).abs() / 100_000.0;
    assert!(err < 3.0 * 1.04 / (NUM_REGISTERS as f64).sqrt(), "estimate {}", est);
}

#[test]
fn test_intersection_10000() {
    let mut sketch_1 = HyperMinHash::wrap(new_array_registers());
    for i in 0..10000 {
        sketch_1.add(format!("a_{}", i).as_bytes());
    }

    let mut sketch_2 = HyperMinHash::wrap(new_array_registers());
    for i in 0..10000 {
        sketch_2.add(format!("b_{}", i).as_bytes());
    }

    for i in 0..100 {
        sketch_1.add(format!("ab_{}", i).as_bytes());
        sketch_2.add(format!("ab_{}", i).as_bytes());
    }

    let mut combiner = MinHashCombiner::new();
    combiner.combine(&sketch_1);
    combiner.combine(&sketch_2);

    assert_eq!(intersection(&combiner) as u64, 107);
}

#[test]
fn test_intersection_1_000_000() {
    let mut sketch_1 = HyperMinHash::wrap(new_array_registers());
    for i in 0..1_000_000 {
        sketch_1.add(format!("a_{}", i).as_bytes());
    }

    let mut sketch_2 = HyperMinHash::wrap(new_array_registers());
    for i in 0..1_000_000 {
        sketch_2.add(format!("b_{}", i).as_bytes());
    }

    for i in 0..10000 {
        sketch_1.add(format!("ab_{}", i).as_bytes());
        sketch_2.add(format!("ab_{}", i).as_bytes());
    }

    let mut combiner = MinHashCombiner::new();
    combiner.combine(&sketch_1);
    combiner.combine(&sketch_2);

    assert_eq!(intersection(&combiner) as u64, 9182);
}

#[test]
fn similarity_of_none_and_of_one() {
    let combiner = MinHashCombiner::new();
    assert_eq!(combiner.similarity_terms(), SimilarityTerms::Empty);
    assert_eq!(similarity(&combiner), 0.0);
    assert_eq!(intersection(&combiner), 0.0);

    let mut sketch = HyperMinHash::wrap(new_array_registers());
    sketch.add(b"x");
    let mut combiner = MinHashCombiner::new();
    combiner.combine(&sketch);
    assert_eq!(combiner.num_sketches(), 1);
    assert_eq!(combiner.similarity_terms(), SimilarityTerms::Single);
    assert_eq!(similarity(&combiner), 1.0);
}

#[test]
fn three_identical_sketches_share_everything() {
    let mut sketch = HyperMinHash::wrap(new_array_registers());
    for i in 0..50 {
        sketch.add(format!("s{}", i).as_bytes());
    }
    let mut combiner = MinHashCombiner::new();
    combiner.combine(&sketch);
    combiner.combine(&sketch);
    combiner.combine(&sketch);
    match combiner.similarity_terms() {
        SimilarityTerms::Multi { matching, occupied } => {
            assert_eq!(matching, occupied);
            assert!(matching > 0 && matching <= 50);
        }
        other => panic!("unexpected {:?}", other),
    }
}

#[test]
fn disjoint_sketches_share_nothing() {
    let mut a = HyperMinHash::wrap(new_array_registers());
    let mut b = HyperMinHash::wrap(new_array_registers());
    a.add(b"only in a");
    b.add(b"only in b");
    let mut combiner = MinHashCombiner::new();
    combiner.combine(&a);
    combiner.combine(&b);
    assert_eq!(combiner.similarity_terms(), SimilarityTerms::Disjoint);
    assert_eq!(similarity(&combiner), 0.0);
}
