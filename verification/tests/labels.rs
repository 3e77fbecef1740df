use palette_tracer_engine::labels::{LabelId, LabelPlane, LabelWidth};

#[test]
fn storage_width_follows_the_label_count() {
    assert_eq!(LabelWidth::for_count(2), LabelWidth::U8);
    assert_eq!(LabelWidth::for_count(256), LabelWidth::U8);
    assert_eq!(LabelWidth::for_count(257), LabelWidth::U16);
    assert_eq!(LabelWidth::for_count(65_536), LabelWidth::U16);
    assert_eq!(LabelWidth::for_count(65_537), LabelWidth::U32);
    assert_eq!(LabelWidth::for_count(262_144), LabelWidth::U32);
}

#[test]
fn the_u8_to_u16_transition_preserves_values() {
    for count in [200u64, 300] {
        let mut plane = LabelPlane::new(4, 2, count).unwrap();
        for i in 0..8 {
            plane.set_index(i, LabelId(i as u32 * 25));
        }
        let read: Vec<u32> = (0..8).map(|i| plane.get_index(i).0).collect();
        assert_eq!(read, vec![0, 25, 50, 75, 100, 125, 150, 175]);
    }
}

#[test]
fn a_wide_label_survives_the_u32_tier() {
    let mut plane = LabelPlane::new(2, 1, 300_000).unwrap();
    assert_eq!(plane.label_width(), LabelWidth::U32);
    plane.set(1, 0, LabelId(262_143));
    assert_eq!(plane.get(1, 0), LabelId(262_143));
}

#[test]
fn indexing_is_row_major() {
    let mut plane = LabelPlane::new(3, 2, 8).unwrap();
    plane.set(2, 1, LabelId(7));
    assert_eq!(plane.index(2, 1), 5);
    assert_eq!(plane.get_index(5), LabelId(7));
}

#[test]
fn bytes_reflect_the_chosen_tier() {
    assert_eq!(LabelPlane::new(100, 100, 10).unwrap().bytes(), 10_000);
    assert_eq!(LabelPlane::new(100, 100, 1000).unwrap().bytes(), 20_000);
    assert_eq!(LabelPlane::new(100, 100, 100_000).unwrap().bytes(), 40_000);
}

#[test]
fn remap_applies_a_canonical_relabelling() {
    let mut plane = LabelPlane::new(2, 2, 4).unwrap();
    plane.set_index(0, LabelId(3));
    plane.set_index(1, LabelId(1));
    plane.set_index(2, LabelId(3));
    plane.set_index(3, LabelId(0));
    plane.remap(&[LabelId(2), LabelId(1), LabelId(9), LabelId(0)]);
    let read: Vec<u32> = plane.iter().into_iter().map(|l| l.0).collect();
    assert_eq!(read, vec![0, 1, 0, 2]);
}

#[test]
fn histogram_is_linear_in_pixels_and_counts_every_one() {
    let mut plane = LabelPlane::new(4, 4, 3).unwrap();
    for i in 0..16 {
        plane.set_index(i, LabelId((i % 3) as u32));
    }
    let h = plane.histogram(3);
    assert_eq!(h.iter().sum::<u64>(), 16);
    assert_eq!(h, vec![6, 5, 5]);
}

#[test]
fn a_fresh_plane_is_all_zero_and_sized_by_its_sides() {
    let plane = LabelPlane::new(3, 2, 5).unwrap();
    assert_eq!(plane.len(), 6);
    assert!(!plane.is_empty());
    assert_eq!((plane.width(), plane.height()), (3, 2));
    assert!(plane.iter().iter().all(|l| l.0 == 0));
    assert!(plane.contains(2, 1));
    assert!(!plane.contains(3, 0));
    assert_eq!(LabelId(4).index(), 4);
    assert_eq!(LabelWidth::U16.bytes(), 2);
}

#[test]
fn a_plane_with_no_pixels_is_refused() {
    assert!(LabelPlane::new(0, 3, 2).is_err());
}
