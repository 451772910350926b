use tcp_endpoint::seqnum::is_between_wrapped;

#[test]
fn between_excludes_start() {
    assert!(!is_between_wrapped(5, 5, 10));
    assert!(!is_between_wrapped(0, 0, 0));
    assert!(!is_between_wrapped(u32::MAX, u32::MAX, 3));
}

#[test]
fn between_plain_interval() {
    assert!(is_between_wrapped(5, 6, 10));
    assert!(is_between_wrapped(5, 9, 10));
    assert!(!is_between_wrapped(5, 10, 10));
    assert!(!is_between_wrapped(5, 11, 10));
    assert!(!is_between_wrapped(5, 4, 10));
}

#[test]
fn between_wrapped_interval() {
    // interval that wraps past zero
    assert!(is_between_wrapped(u32::MAX - 1, u32::MAX, 2));
    assert!(is_between_wrapped(u32::MAX - 1, 0, 2));
    assert!(is_between_wrapped(u32::MAX - 1, 1, 2));
    assert!(!is_between_wrapped(u32::MAX - 1, 2, 2));
    assert!(!is_between_wrapped(u32::MAX - 1, 3, 2));
}

#[test]
fn between_empty_interval() {
    // start == end gives the empty interval
    assert!(!is_between_wrapped(7, 8, 7));
    assert!(!is_between_wrapped(7, 6, 7));
}

#[test]
fn between_translation_invariant() {
    let cases: [(u32, u32, u32); 6] = [
        (5, 6, 10),
        (5, 10, 10),
        (5, 5, 10),
        (u32::MAX - 1, 0, 2),
        (1000, 1001, 6841),
        (0, 9999, 1024),
    ];
    let offsets: [u32; 5] = [0, 1, 1024, 0x8000_0000, u32::MAX];
    for &(a, b, c) in cases.iter() {
        for &k in offsets.iter() {
            assert_eq!(
                is_between_wrapped(a, b, c),
                is_between_wrapped(a.wrapping_add(k), b.wrapping_add(k), c.wrapping_add(k)),
                "translation by {} changed the result for ({}, {}, {})",
                k,
                a,
                b,
                c
            );
        }
    }
}
