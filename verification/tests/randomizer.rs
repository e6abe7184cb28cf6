use subnet_scan::randomizer::{Rand, PRINTABLE_MAX, PRINTABLE_MIN, PROBE_LEN};

#[test]
fn next_follows_the_three_xorshift_steps() {
    let mut rng = Rand::from_seed(1);
    assert_eq!(rng.next(), 173);
    assert_eq!(rng.state(), 173);
    let mut rng = Rand::from_seed(42);
    assert_eq!(rng.next(), 115);
    let mut rng = Rand::from_seed(255);
    assert_eq!(rng.next(), 156);
}

#[test]
fn zero_seed_is_a_fixed_point() {
    let mut rng = Rand::from_seed(0);
    assert_eq!(rng.next(), 0);
    assert_eq!(rng.probe(), vec![32u8; 5]);
}

#[test]
fn register_visits_every_nonzero_state() {
    let mut rng = Rand::from_seed(1);
    let mut seen = vec![false; 256];
    for _ in 0..255 {
        let s = rng.next();
        assert!(s != 0);
        assert!(!seen[s as usize]);
        seen[s as usize] = true;
    }
    assert_eq!(rng.state(), 1);
}

#[test]
fn next_printable_folds_the_upper_seven_bits() {
    let mut rng = Rand::from_seed(1);
    // 173 / 2 = 86, and 32 + 86 = 118
    assert_eq!(rng.next_printable(), 118);
    assert_eq!(rng.state(), 173);
    let mut rng = Rand::from_seed(200);
    // 190 / 2 = 95, which wraps to 0: a space
    assert_eq!(rng.next_printable(), 32);
}

#[test]
fn probe_has_exact_bytes_for_known_seeds() {
    let mut rng = Rand::from_seed(1);
    assert_eq!(rng.probe(), b"vF?$V".to_vec());
    assert_eq!(rng.state(), 109);
    let mut rng = Rand::from_seed(2);
    assert_eq!(rng.probe(), b")a{50".to_vec());
    let mut rng = Rand::from_seed(255);
    assert_eq!(rng.probe(), b"nLe@8".to_vec());
    assert_eq!(rng.state(), 49);
}

#[test]
fn probe_is_printable_for_every_seed() {
    for seed in 0..=255u8 {
        let mut rng = Rand::from_seed(seed);
        let probe = rng.probe();
        assert_eq!(probe.len(), PROBE_LEN);
        for b in probe {
            assert!(PRINTABLE_MIN <= b && b <= PRINTABLE_MAX);
        }
    }
}

#[test]
fn successive_probes_continue_the_sequence() {
    let mut rng = Rand::from_seed(1);
    let first = rng.probe();
    let second = rng.probe();
    let mut again = Rand::from_seed(109);
    assert_eq!(second, again.probe());
    assert!(first != second);
}

#[test]
fn new_generators_yield_printable_probes() {
    for _ in 0..32 {
        let mut rng = Rand::new();
        let seed = rng.state();
        let probe = rng.probe();
        let mut same = Rand::from_seed(seed);
        assert_eq!(probe, same.probe());
    }
}
