use starry_mm::backend::frames::FrameTableRefCount;

#[test]
fn a_frame_is_freed_with_its_last_reference() {
    let mut t = FrameTableRefCount::new();
    assert_eq!(t.get_frame_ref(0x1000), None);
    t.init_frame(0x1000);
    assert_eq!(t.get_frame_ref(0x1000), Some(1));
    assert!(t.add_ref(0x1000));
    assert!(t.add_ref(0x1000));
    assert_eq!(t.get_frame_ref(0x1000), Some(3));
    assert!(!t.drop_frame(0x1000));
    assert!(!t.drop_frame(0x1000));
    assert_eq!(t.get_frame_ref(0x1000), Some(1));
    assert!(t.drop_frame(0x1000));
    assert_eq!(t.get_frame_ref(0x1000), None);
}

#[test]
fn frames_are_counted_apart() {
    let mut t = FrameTableRefCount::new();
    t.init_frame(0x1000);
    t.init_frame(0x2000);
    assert!(t.add_ref(0x2000));
    t.remove_frame(0x1000);
    assert_eq!(t.get_frame_ref(0x1000), None);
    assert_eq!(t.get_frame_ref(0x2000), Some(2));
    t.init_frame(0x1000);
    assert_eq!(t.get_frame_ref(0x1000), Some(1));
}
