use thx_dsp::ChannelMask as C;

#[test]
fn channel_counts() {
    assert_eq!(C::MASK_DIRECT_OUT().channel_count(), 0);
    assert_eq!(C::MASK_MONO().channel_count(), 1);
    assert_eq!(C::MASK_1_1().channel_count(), 2);
    assert_eq!(C::MASK_STEREO().channel_count(), 2);
    assert_eq!(C::MASK_2_1().channel_count(), 3);
    assert_eq!(C::MASK_3_0().channel_count(), 3);
    assert_eq!(C::MASK_3_1().channel_count(), 4);
    assert_eq!(C::MASK_QUAD().channel_count(), 4);
    assert_eq!(C::MASK_4_0_SURROUND().channel_count(), 4);
    assert_eq!(C::MASK_5_0().channel_count(), 5);
    assert_eq!(C::MASK_5_1().channel_count(), 6);
    assert_eq!(C::MASK_5_1_SIDE().channel_count(), 6);
    assert_eq!(C::MASK_7_0().channel_count(), 7);
    assert_eq!(C::MASK_7_1().channel_count(), 8);
    assert_eq!(C::MASK_7_1_WIDE().channel_count(), 8);
    assert_eq!(C::MASK_7_1_4().channel_count(), 12);
}

#[test]
fn positions_iterate_in_planar_order() {
    assert_eq!(
        C::MASK_QUAD().positions(),
        [C::FRONT_LEFT(), C::FRONT_RIGHT(), C::BACK_LEFT(), C::BACK_RIGHT()],
    );

    assert_eq!(
        C::MASK_5_1().positions(),
        [
            C::FRONT_LEFT(),
            C::FRONT_RIGHT(),
            C::FRONT_CENTER(),
            C::LOW_FREQUENCY(),
            C::BACK_LEFT(),
            C::BACK_RIGHT(),
        ],
    );

    assert_eq!(
        C::MASK_7_1().positions(),
        [
            C::FRONT_LEFT(),
            C::FRONT_RIGHT(),
            C::FRONT_CENTER(),
            C::LOW_FREQUENCY(),
            C::BACK_LEFT(),
            C::BACK_RIGHT(),
            C::SIDE_LEFT(),
            C::SIDE_RIGHT(),
        ],
    );

    assert_eq!(
        C::MASK_7_1_4().positions(),
        [
            C::FRONT_LEFT(),
            C::FRONT_RIGHT(),
            C::FRONT_CENTER(),
            C::LOW_FREQUENCY(),
            C::BACK_LEFT(),
            C::BACK_RIGHT(),
            C::SIDE_LEFT(),
            C::SIDE_RIGHT(),
            C::TOP_FRONT_LEFT(),
            C::TOP_FRONT_RIGHT(),
            C::TOP_BACK_LEFT(),
            C::TOP_BACK_RIGHT(),
        ],
    );
}

#[test]
fn index_of_follows_bit_order() {
    // Expected planar order per layout, hard-coded (not derived from
    // `positions`) so a bug there can't mask a bug in `index_of`. The n-th
    // position must report index n.
    let cases: Vec<(C, Vec<C>)> = vec![
        (
            C::MASK_QUAD(),
            vec![C::FRONT_LEFT(), C::FRONT_RIGHT(), C::BACK_LEFT(), C::BACK_RIGHT()],
        ),
        (
            C::MASK_5_1(),
            vec![
                C::FRONT_LEFT(),
                C::FRONT_RIGHT(),
                C::FRONT_CENTER(),
                C::LOW_FREQUENCY(),
                C::BACK_LEFT(),
                C::BACK_RIGHT(),
            ],
        ),
        (
            C::MASK_7_1(),
            vec![
                C::FRONT_LEFT(),
                C::FRONT_RIGHT(),
                C::FRONT_CENTER(),
                C::LOW_FREQUENCY(),
                C::BACK_LEFT(),
                C::BACK_RIGHT(),
                C::SIDE_LEFT(),
                C::SIDE_RIGHT(),
            ],
        ),
        (
            C::MASK_7_1_4(),
            vec![
                C::FRONT_LEFT(),
                C::FRONT_RIGHT(),
                C::FRONT_CENTER(),
                C::LOW_FREQUENCY(),
                C::BACK_LEFT(),
                C::BACK_RIGHT(),
                C::SIDE_LEFT(),
                C::SIDE_RIGHT(),
                C::TOP_FRONT_LEFT(),
                C::TOP_FRONT_RIGHT(),
                C::TOP_BACK_LEFT(),
                C::TOP_BACK_RIGHT(),
            ],
        ),
    ];

    for (mask, expected) in &cases {
        for (i, position) in expected.iter().enumerate() {
            assert_eq!(mask.index_of(*position), Some(i), "{position:?} in {mask:?}");
        }
    }

    // A position absent from the layout has no index.
    assert_eq!(C::MASK_QUAD().index_of(C::FRONT_CENTER()), None);
    assert_eq!(C::MASK_5_1().index_of(C::SIDE_LEFT()), None);

    // A multi-bit (whole-layout) mask is not a single position.
    assert_eq!(C::MASK_5_1().index_of(C::MASK_STEREO()), None);
}

#[test]
fn index_of_inverts_positions_for_every_bit_pattern() {
    for bits in [0u32, 1, 0x5, 0x8000_0001, 0xFFFF_FFFF, 0x2_D63F, 0x1234_5678] {
        let mask = C::from_bits_retain(bits);
        let positions = mask.positions();
        assert_eq!(positions.len(), mask.channel_count());
        assert_eq!(mask.channel_count(), bits.count_ones() as usize);
        for (k, p) in positions.iter().enumerate() {
            assert_eq!(p.bits().count_ones(), 1);
            assert_eq!(mask.index_of(*p), Some(k));
        }
    }
}

#[test]
fn index_of_rejects_empty_and_high_bits() {
    assert_eq!(C::MASK_7_1_4().index_of(C::empty()), None);
    let high = C::from_bits_retain(0x8000_0000);
    assert_eq!(C::MASK_7_1_4().index_of(high), None);
    assert_eq!(C::from_bits_retain(0x8000_0004).index_of(high), Some(1));
    assert_eq!(C::from_bits_retain(0x8000_0004).index_of(C::FRONT_CENTER()), Some(0));
}

#[test]
fn standard_layouts_compose_from_positions() {
    let or = |ms: &[C]| C::from_bits_retain(ms.iter().fold(0, |a, m| a | m.bits()));
    assert_eq!(C::MASK_DIRECT_OUT(), C::empty());
    assert_eq!(C::MASK_MONO(), C::FRONT_CENTER());
    assert_eq!(C::MASK_1_1(), or(&[C::FRONT_CENTER(), C::LOW_FREQUENCY()]));
    assert_eq!(C::MASK_STEREO(), or(&[C::FRONT_LEFT(), C::FRONT_RIGHT()]));
    assert_eq!(C::MASK_2_1(), or(&[C::MASK_STEREO(), C::LOW_FREQUENCY()]));
    assert_eq!(C::MASK_3_0(), or(&[C::MASK_STEREO(), C::FRONT_CENTER()]));
    assert_eq!(C::MASK_3_1(), or(&[C::MASK_3_0(), C::LOW_FREQUENCY()]));
    assert_eq!(C::MASK_QUAD(), or(&[C::MASK_STEREO(), C::BACK_LEFT(), C::BACK_RIGHT()]));
    assert_eq!(C::MASK_4_0_SURROUND(), or(&[C::MASK_3_0(), C::BACK_CENTER()]));
    assert_eq!(C::MASK_5_0(), or(&[C::MASK_3_0(), C::SIDE_LEFT(), C::SIDE_RIGHT()]));
    assert_eq!(C::MASK_5_1(), or(&[C::MASK_3_1(), C::BACK_LEFT(), C::BACK_RIGHT()]));
    assert_eq!(C::MASK_5_1_SIDE(), or(&[C::MASK_3_1(), C::SIDE_LEFT(), C::SIDE_RIGHT()]));
    assert_eq!(C::MASK_7_0(), or(&[C::MASK_5_0(), C::BACK_LEFT(), C::BACK_RIGHT()]));
    assert_eq!(C::MASK_7_1(), or(&[C::MASK_5_1(), C::SIDE_LEFT(), C::SIDE_RIGHT()]));
    assert_eq!(
        C::MASK_7_1_WIDE(),
        or(&[C::MASK_5_1(), C::FRONT_LEFT_OF_CENTER(), C::FRONT_RIGHT_OF_CENTER()])
    );
    assert_eq!(
        C::MASK_7_1_4(),
        or(&[
            C::MASK_7_1(),
            C::TOP_FRONT_LEFT(),
            C::TOP_FRONT_RIGHT(),
            C::TOP_BACK_LEFT(),
            C::TOP_BACK_RIGHT()
        ])
    );
    assert_eq!(C::TOP_CENTER().bits(), 0x800);
    assert_eq!(C::TOP_FRONT_CENTER().bits(), 0x2000);
    assert_eq!(C::TOP_BACK_CENTER().bits(), 0x1_0000);
}

#[test]
fn contains_is_subset() {
    assert!(C::MASK_5_1().contains(C::MASK_STEREO()));
    assert!(C::MASK_5_1().contains(C::empty()));
    assert!(!C::MASK_STEREO().contains(C::MASK_5_1()));
    assert!(!C::MASK_QUAD().contains(C::FRONT_CENTER()));
}

#[test]
fn set_operations_follow_the_bits() {
    let stereo = C::MASK_STEREO();
    let quad = C::MASK_QUAD();
    assert_eq!(stereo | C::LOW_FREQUENCY(), C::MASK_2_1());
    assert_eq!(quad & C::MASK_5_1(), quad);
    assert_eq!(quad - stereo, C::from_bits_retain(0x30));
    assert_eq!(quad ^ C::MASK_5_1(), C::MASK_3_1() - stereo);
    assert_eq!((!C::MASK_7_1_4()).bits(), 0x3_FFFF & !0x2_D63F);
    assert_eq!(!C::all(), C::empty());
    assert_eq!(stereo.union(C::FRONT_CENTER()), C::MASK_3_0());
    assert_eq!(C::MASK_5_1().intersection(C::MASK_5_1_SIDE()), C::MASK_3_1());
    assert_eq!(C::MASK_5_1().difference(C::MASK_3_1()), quad - stereo);
    assert_eq!(C::MASK_5_1().symmetric_difference(C::MASK_5_1()), C::empty());
    assert_eq!(C::FRONT_LEFT().complement().channel_count(), 17);
    assert!(stereo.intersects(C::MASK_MONO() | C::FRONT_LEFT()));
    assert!(!stereo.intersects(C::MASK_MONO()));
    assert!(C::empty().is_empty());
    assert!(!stereo.is_empty());
    assert!(C::all().is_all());
    assert!(C::from_bits_retain(0xFFFF_FFFF).is_all());
    assert!(!C::MASK_7_1_4().is_all());
    assert_eq!(C::all().channel_count(), 18);
}

#[test]
fn insert_remove_toggle_and_set_edit_in_place() {
    let mut m = C::MASK_STEREO();
    m.insert(C::LOW_FREQUENCY());
    assert_eq!(m, C::MASK_2_1());
    m.remove(C::FRONT_LEFT());
    assert_eq!(m, C::from_bits_retain(0xA));
    m.toggle(C::MASK_STEREO());
    assert_eq!(m, C::from_bits_retain(0x9));
    m.set(C::BACK_LEFT(), true);
    assert_eq!(m, C::from_bits_retain(0x19));
    m.set(C::BACK_LEFT(), false);
    assert_eq!(m, C::from_bits_retain(0x9));
}

#[test]
fn from_bits_keeps_only_known_positions() {
    assert_eq!(C::from_bits(0x2_D63F), Some(C::MASK_7_1_4()));
    assert_eq!(C::from_bits(0x4_0000), None);
    assert_eq!(C::from_bits(0), Some(C::empty()));
    assert_eq!(C::from_bits_truncate(0x8000_0003), C::MASK_STEREO());
}

#[test]
fn union_and_intersection_counts_add_up() {
    for (a, b) in [
        (C::MASK_5_1(), C::MASK_5_1_SIDE()),
        (C::MASK_STEREO(), C::MASK_MONO()),
        (C::MASK_7_1_4(), C::MASK_QUAD()),
    ] {
        assert_eq!(
            (a | b).channel_count() + (a & b).channel_count(),
            a.channel_count() + b.channel_count()
        );
    }
    assert!(C::MASK_7_1_4().contains(C::MASK_QUAD()));
    assert!(C::MASK_QUAD().channel_count() <= C::MASK_7_1_4().channel_count());
}
