use flask::byte_buffer_reader::ByteBufferReader;
use flask::colliders::BoxCollider;
use flask::rand::Rand;

#[test]
fn splitmix_sequence() {
    let mut r = Rand::new();
    assert_eq!(r.next_u64(), 0xE220A8397B1DCDAF);
    assert_eq!(r.next_u64(), 0x6E789E6AA1B965F4);
    let mut a = Rand::new_with_seed(42);
    let mut b = Rand::new_with_seed(42);
    assert_eq!(a.next_u32(), b.next_u64() as u32);
}

#[test]
fn coin_threshold() {
    let mut r = Rand::new_with_seed(7);
    let mut probe = Rand::new_with_seed(7);
    for _ in 0..64 {
        let v = probe.next_u32();
        assert_eq!(r.next_bool(), v >= 3221225472);
    }
}

#[test]
fn box_contains_edges() {
    let mut b = BoxCollider::new(0, 0, 10, 5);
    assert!(b.is_point_in_box(0, 0));
    assert!(b.is_point_in_box(10, 5));
    assert!(!b.is_point_in_box(11, 5));
    assert!(!b.is_point_in_box(5, -1));
    b.set_position(100, 100);
    assert!(b.is_point_in_box(105, 102));
    b.set_size(i64::MAX, 0);
    assert!(b.is_point_in_box(i64::MAX, 100));
    assert!(!b.is_point_in_box(i64::MAX, 101));
}

#[test]
fn byte_reader() {
    let mut r = ByteBufferReader::from(&[1, 2, 3, 4, 5]);
    assert_eq!(r.read_byte(), Some(1));
    let mut buf = [0u8; 3];
    assert_eq!(r.read(&mut buf), 3);
    assert_eq!(buf, [2, 3, 4]);
    let mut buf = [9u8; 3];
    assert_eq!(r.read(&mut buf), 1);
    assert_eq!(buf, [5, 9, 9]);
    assert_eq!(r.read_byte(), None);
    assert_eq!(r.read(&mut buf), 0);
}
