use pgb1::keyboard::KeyboardMatrix;
use pgb1::keys::Keys;

/// Row samples in strobe order: five columns, six rows each, all open.
fn no_samples() -> Vec<bool> {
    vec![false; 30]
}

/// Row samples with a single switch closed, by column and row (1-based).
fn one_sample(col: usize, row: usize) -> Vec<bool> {
    let mut s = no_samples();
    s[(col - 1) * 6 + (row - 1)] = true;
    s
}

#[test]
fn scan_single_switch_row3_col2() {
    let mut m = KeyboardMatrix::new();
    m.scan(&one_sample(2, 3));
    let word = m.current_word();
    assert_eq!(word.count_ones(), 1);
    assert_eq!(word, Keys::K9.mask());
}

#[test]
fn scan_all_open_is_zero() {
    let mut m = KeyboardMatrix::new();
    m.scan(&no_samples());
    assert_eq!(m.current_word(), 0);
}

#[test]
fn scan_all_closed_sets_thirty_bits() {
    let mut m = KeyboardMatrix::new();
    m.scan(&vec![true; 30]);
    assert_eq!(m.current_word(), 0x3FFF_FFFF);
}

#[test]
fn previous_tracks_current() {
    let mut m = KeyboardMatrix::new();
    m.scan(&one_sample(2, 3));
    let was_current = m.current_word();
    m.scan(&one_sample(1, 1));
    assert_eq!(m.previous_word(), was_current);
    m.scan(&no_samples());
    assert_eq!(m.previous_word(), Keys::LEFT.mask());
    assert_eq!(m.current_word(), 0);
}

#[test]
fn edges_over_a_press_and_release() {
    let mut m = KeyboardMatrix::new();

    m.scan(&one_sample(2, 3));
    assert!(m.pressed(Keys::K9));
    assert!(m.falling(Keys::K9));
    assert!(!m.raising(Keys::K9));

    m.scan(&one_sample(2, 3));
    assert!(m.pressed(Keys::K9));
    assert!(!m.falling(Keys::K9));
    assert!(!m.raising(Keys::K9));

    m.scan(&no_samples());
    assert!(!m.pressed(Keys::K9));
    assert!(!m.falling(Keys::K9));
    assert!(m.raising(Keys::K9));
}

#[test]
fn edges_never_coincide_per_key() {
    let mut m = KeyboardMatrix::new();
    let passes = [
        one_sample(2, 3),
        one_sample(1, 1),
        one_sample(1, 1),
        no_samples(),
        vec![true; 30],
        no_samples(),
    ];
    for samples in passes {
        m.scan(&samples);
        for k in Keys::list() {
            assert!(!(m.falling(k) && m.raising(k)));
            if m.falling(k) {
                assert!(m.pressed(k));
            }
            if m.raising(k) {
                assert!(!m.pressed(k));
            }
        }
    }
}

#[test]
fn each_sample_index_maps_to_one_key_bit() {
    // The first sample of the pass lands on bit 29, the last on bit 0, and
    // every key's documented mask matches its place in the strobe order.
    for i in 0..30 {
        let mut m = KeyboardMatrix::new();
        let mut s = vec![false; 30];
        s[i] = true;
        m.scan(&s);
        assert_eq!(m.current_word(), 1u32 << (29 - i));
        let mut pressed_count = 0;
        for k in Keys::list() {
            if m.pressed(k) {
                pressed_count += 1;
                assert_eq!(k.mask(), 1u32 << (29 - i));
            }
        }
        assert_eq!(pressed_count, 1);
    }
}

#[test]
fn untouched_keys_stay_silent() {
    let mut m = KeyboardMatrix::new();
    m.scan(&one_sample(2, 3));
    for k in Keys::list() {
        if k.mask() != Keys::K9.mask() {
            assert!(!m.pressed(k));
            assert!(!m.falling(k));
            assert!(!m.raising(k));
        }
    }
}
