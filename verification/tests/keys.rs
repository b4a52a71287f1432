use pgb1::keys::Keys;

#[test]
fn masks_pairwise_distinct() {
    let list = Keys::list();
    assert_eq!(list.len(), 30);
    for i in 0..list.len() {
        for j in 0..list.len() {
            if i != j {
                assert_eq!(list[i].mask() & list[j].mask(), 0);
            }
        }
    }
}

#[test]
fn masks_are_single_bits() {
    for k in Keys::list() {
        assert_eq!(k.mask().count_ones(), 1);
    }
}

#[test]
fn masks_cover_low_thirty_bits() {
    let mut all: u32 = 0;
    for k in Keys::list() {
        all |= k.mask();
    }
    assert_eq!(all, 0x3FFF_FFFF);
}

#[test]
fn mask_table_spot_values() {
    assert_eq!(Keys::TRACK.mask(), 0x1000_0000);
    assert_eq!(Keys::LEFT.mask(), 0x2000_0000);
    assert_eq!(Keys::B.mask(), 0x0000_0001);
    assert_eq!(Keys::K9.mask(), 0x0020_0000);
    assert_eq!(Keys::SONG.mask(), 0x0000_0040);
}

#[test]
fn led_indices_below_twenty_four() {
    for k in Keys::list() {
        assert!(k.led_index() < 24);
    }
}

#[test]
fn led_index_spot_values() {
    assert_eq!(Keys::TRACK.led_index(), 4);
    assert_eq!(Keys::STEP.led_index(), 14);
    assert_eq!(Keys::PLAY.led_index(), 13);
    assert_eq!(Keys::REC.led_index(), 23);
    assert_eq!(Keys::MENU.led_index(), 0);
    assert_eq!(Keys::UP.led_index(), 0);
    assert_eq!(Keys::K1.led_index(), 5);
    assert_eq!(Keys::K16.led_index(), 22);
}
