use rustsdr::gen::TonePhase;

#[test]
fn tone_phase_period_is_rate_over_freq() {
    let t = TonePhase::new(440, 48000);
    assert_eq!(t.sample_period(), 109);
    let t = TonePhase::new(1000, 999);
    assert_eq!(t.sample_period(), 0);
}

#[test]
fn tone_phase_counts_and_wraps() {
    let mut t = TonePhase::new(1000, 4000);
    let phases: Vec<u32> = (0..9).map(|_| t.next_phase()).collect();
    assert_eq!(phases, vec![0, 1, 2, 3, 0, 1, 2, 3, 0]);
}

#[test]
fn tone_phase_chunks_continue() {
    let mut t = TonePhase::new(2, 6);
    assert_eq!(t.next_phases(2), vec![0, 1]);
    assert_eq!(t.next_phases(4), vec![2, 0, 1, 2]);
    assert_eq!(t.next_phases(0), Vec::<u32>::new());
    assert_eq!(t.next_phase(), 0);
}

#[test]
fn tone_phase_repeats_every_period() {
    let mut t = TonePhase::new(3, 21);
    let p = t.next_phases(30);
    for i in 0..23 {
        assert_eq!(p[i], p[i + 7]);
    }
}

#[test]
fn tone_phase_period_one_stays_at_zero() {
    let mut t = TonePhase::new(5, 5);
    assert_eq!(t.next_phases(3), vec![0, 0, 0]);
}
