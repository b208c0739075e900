use tckn_utils::checksum::{generate_eleventh, generate_tenth};

#[test]
fn generate_tenth_of_the_known_number() {
    // (1 + 3 + 5 + 7 + 9) * 7 - (2 + 4 + 6 + 8) = 155
    assert_eq!(generate_tenth(&vec![1, 3, 5, 7, 9], &vec![2, 4, 6, 8]), 5);
}

#[test]
fn generate_eleventh_of_the_known_number() {
    // 25 + 20 + 5 = 50
    assert_eq!(generate_eleventh(&vec![1, 3, 5, 7, 9], &vec![2, 4, 6, 8, 5]), 0);
}

#[test]
fn generate_tenth_of_zeros_is_zero() {
    assert_eq!(generate_tenth(&vec![0, 0, 0, 0, 0], &vec![0, 0, 0, 0]), 0);
}

#[test]
fn generate_tenth_of_nines() {
    // 45 * 7 - 36 = 279
    assert_eq!(generate_tenth(&vec![9, 9, 9, 9, 9], &vec![9, 9, 9, 9]), 9);
}

#[test]
fn generate_tenth_where_the_difference_is_below_zero() {
    // 1 * 7 - 36 = -29, and -29 = -3 * 10 + 1
    assert_eq!(generate_tenth(&vec![1, 0, 0, 0, 0], &vec![9, 9, 9, 9]), 1);
    // 0 * 7 - 36 = -36, and -36 = -4 * 10 + 4
    assert_eq!(generate_tenth(&vec![0, 0, 0, 0, 0], &vec![9, 9, 9, 9]), 4);
    // 0 * 7 - 1 = -1, and -1 = -1 * 10 + 9
    assert_eq!(generate_tenth(&vec![0, 0, 0, 0, 0], &vec![0, 1, 0, 0]), 9);
    // 0 * 7 - 10 = -10
    assert_eq!(generate_tenth(&vec![0, 0, 0, 0, 0], &vec![1, 9, 0, 0]), 0);
}

#[test]
fn generate_tenth_weighs_odd_places_by_seven() {
    assert_eq!(generate_tenth(&vec![1, 0, 0, 0, 0], &vec![0, 0, 0, 0]), 7);
    assert_eq!(generate_tenth(&vec![0, 0, 2, 0, 0], &vec![0, 0, 0, 0]), 4);
    assert_eq!(generate_tenth(&vec![0, 0, 0, 0, 3], &vec![0, 0, 0, 0]), 1);
    assert_eq!(generate_tenth(&vec![1, 0, 0, 0, 0], &vec![0, 0, 0, 3]), 4);
}

#[test]
fn generate_eleventh_of_nines() {
    // 45 + 45 = 90
    assert_eq!(generate_eleventh(&vec![9, 9, 9, 9, 9], &vec![9, 9, 9, 9, 9]), 0);
    // 45 + 44 = 89
    assert_eq!(generate_eleventh(&vec![9, 9, 9, 9, 9], &vec![9, 9, 9, 9, 8]), 9);
}

#[test]
fn generate_eleventh_counts_every_place_once() {
    assert_eq!(generate_eleventh(&vec![0, 0, 0, 0, 0], &vec![0, 0, 0, 0, 0]), 0);
    assert_eq!(generate_eleventh(&vec![1, 0, 0, 0, 0], &vec![0, 0, 0, 0, 0]), 1);
    assert_eq!(generate_eleventh(&vec![0, 0, 0, 0, 2], &vec![0, 0, 0, 0, 0]), 2);
    assert_eq!(generate_eleventh(&vec![0, 0, 0, 0, 0], &vec![3, 0, 0, 0, 0]), 3);
    assert_eq!(generate_eleventh(&vec![0, 0, 0, 0, 0], &vec![0, 0, 0, 0, 4]), 4);
}

#[test]
fn check_digits_are_the_same_on_every_call() {
    let odds: Vec<u16> = vec![4, 0, 6, 2, 9];
    let evens: Vec<u16> = vec![7, 7, 1, 3];
    let tenth = generate_tenth(&odds, &evens);
    for _ in 0..100 {
        assert_eq!(generate_tenth(&odds, &evens), tenth);
        assert_eq!(generate_tenth(&odds.clone(), &evens.clone()), tenth);
    }
    let mut with_tenth = evens.clone();
    with_tenth.push(tenth);
    let eleventh = generate_eleventh(&odds, &with_tenth);
    for _ in 0..100 {
        assert_eq!(generate_eleventh(&odds, &with_tenth), eleventh);
        assert_eq!(generate_eleventh(&odds.clone(), &with_tenth.clone()), eleventh);
    }
    // (21 * 7 - 18) mod 10 = 129 mod 10, (21 + 18 + 9) mod 10 = 48 mod 10
    assert_eq!(tenth, 9);
    assert_eq!(eleventh, 8);
}

#[test]
fn check_digits_are_digits_for_all_sums() {
    for odd in 0..=9u16 {
        for even in 0..=9u16 {
            let odds = vec![odd, 9 - odd, odd, 0, odd];
            let evens = vec![even, even, 9 - even, even];
            let tenth = generate_tenth(&odds, &evens);
            assert!(tenth <= 9);
            let odd_sum = i32::from(odds.iter().sum::<u16>());
            let even_sum = i32::from(evens.iter().sum::<u16>());
            assert_eq!(i32::from(tenth), (odd_sum * 7 - even_sum).rem_euclid(10));
            let mut with_tenth = evens.clone();
            with_tenth.push(tenth);
            let eleventh = generate_eleventh(&odds, &with_tenth);
            assert_eq!(i32::from(eleventh), (odd_sum + even_sum + i32::from(tenth)) % 10);
        }
    }
}
