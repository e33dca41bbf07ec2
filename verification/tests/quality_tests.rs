use std::collections::HashSet;

use hash::engine::HashEngine;

fn hash_bytes(data: &[u8]) -> u64 {
    let mut engine = HashEngine::default();
    engine.absorb(data);
    engine.digest()
}

struct Rng {
    state: u64,
}

impl Rng {
    fn new(seed: u64) -> Self {
        Self { state: seed }
    }

    fn next_u64(&mut self) -> u64 {
        self.state ^= self.state << 13;
        self.state ^= self.state >> 7;
        self.state ^= self.state << 17;
        self.state
    }

    fn fill_bytes(&mut self, buf: &mut [u8]) {
        for chunk in buf.chunks_mut(8) {
            let bytes = self.next_u64().to_le_bytes();
            let len = chunk.len().min(8);
            chunk[..len].copy_from_slice(&bytes[..len]);
        }
    }
}

#[test]
fn seed_sensitivity() {
    let data = b"identical bytes under many different seeds";
    let mut rng = Rng::new(0x0dd5_eed5);
    for _ in 0..120 {
        let left = rng.next_u64();
        let right = rng.next_u64();
        if left == right {
            continue;
        }
        let mut a = HashEngine::new(left);
        a.absorb(data);
        let mut b = HashEngine::new(right);
        b.absorb(data);
        assert_ne!(a.digest(), b.digest(), "seeds {:#x} vs {:#x}", left, right);
    }
}

#[test]
fn avalanche_over_random_inputs() {
    const SAMPLES: usize = 10_000;
    const INPUT_LEN: usize = 32;

    let mut rng = Rng::new(0xdead_beef_1234_5678);
    let total_input_bits = INPUT_LEN * 8;
    let mut total_flipped: u64 = 0;
    let mut total_tests: u64 = 0;

    let mut input = [0u8; INPUT_LEN];
    for _ in 0..SAMPLES {
        rng.fill_bytes(&mut input);
        let original = hash_bytes(&input);
        for bit in 0..total_input_bits {
            input[bit / 8] ^= 1 << (bit % 8);
            let flipped = hash_bytes(&input);
            input[bit / 8] ^= 1 << (bit % 8);
            total_flipped += (original ^ flipped).count_ones() as u64;
            total_tests += 1;
        }
    }

    let average = total_flipped as f64 / total_tests as f64 / 64.0 * 100.0;
    let deviation = (average - 50.0).abs();
    assert!(deviation < 5.0, "average flip rate {:.2}% deviates by {:.2}%", average, deviation);
}

#[test]
fn distribution_uniformity() {
    const COUNT: usize = 1_000_000;
    const BUCKETS: usize = 1024;

    let mut buckets = vec![0u64; BUCKETS];
    for i in 0..COUNT {
        let key = format!("dist-key-{}", i);
        let digest = hash_bytes(key.as_bytes());
        buckets[(digest as usize) % BUCKETS] += 1;
    }

    let expected = COUNT as f64 / BUCKETS as f64;
    let chi_sq: f64 = buckets
        .iter()
        .map(|&c| {
            let d = c as f64 - expected;
            d * d / expected
        })
        .sum();
    let dof = (BUCKETS - 1) as f64;
    let z = (2.0 * chi_sq).sqrt() - (2.0 * dof - 1.0).sqrt();
    assert!(z.abs() < 3.0, "chi-squared z-score {:.4} out of range", z);
}

#[test]
fn no_collisions_at_scale() {
    const COUNT: usize = 1_000_000;

    let mut seen = HashSet::with_capacity(COUNT);
    for i in 0..COUNT {
        let key = format!("key-{}", i);
        assert!(seen.insert(hash_bytes(key.as_bytes())), "collision at key-{}", i);
    }
    assert_eq!(seen.len(), COUNT);
}
