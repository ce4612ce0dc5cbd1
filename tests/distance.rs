use simimgrs::get_distance;

#[test]
fn get_distance_1() {
    assert_eq!(get_distance(2247878505465, 2488321179641, 64), 6)
}

#[test]
fn get_distance_2() {
    assert_eq!(
        get_distance(17431013446337445887, 17431022259610337215, 64),
        3
    )
}

#[test]
fn distance_counts_only_requested_bits() {
    assert_eq!(get_distance(1110, 1101, 64), 4);
    assert_eq!(get_distance(0b1111, 0, 2), 2);
    assert_eq!(get_distance(0b1111, 0, 0), 0);
}

#[test]
fn distance_is_symmetric() {
    let pairs = [(2247878505465u64, 2488321179641u64), (0, u64::MAX), (12345, 54321)];
    for (a, b) in pairs {
        for n in [0usize, 1, 17, 64] {
            assert_eq!(get_distance(a, b, n), get_distance(b, a, n));
        }
    }
}

#[test]
fn distance_to_self_is_zero() {
    for a in [0u64, 1, 17431013446337445887, u64::MAX] {
        assert_eq!(get_distance(a, a, 64), 0);
    }
}

#[test]
fn distance_of_complements_is_bit_count() {
    assert_eq!(get_distance(0, u64::MAX, 64), 64);
    assert_eq!(get_distance(0, u64::MAX, 100), 64);
    assert_eq!(get_distance(0, u64::MAX, 10), 10);
}
