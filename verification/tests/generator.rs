use pwdgen::generator::{Alphabet, GenError, produce_password};

#[test]
fn alphabet_len() {
    let abc = Alphabet::new("ABCD");
    assert_eq!(4, abc.len());
}

#[test]
fn alphabet_get() {
    let abc = Alphabet::new("ABCD");
    let mut iter = abc.get().iter(); // Expecting &Vec<char>
    assert_eq!(Some(&'A'), iter.next());
    assert_eq!(Some(&'B'), iter.next());
    assert_eq!(Some(&'C'), iter.next());
    assert_eq!(Some(&'D'), iter.next());
    assert_eq!(None, iter.next());
}

#[test]
fn alphabet_nth() {
    let abc = Alphabet::new("ABCD");
    assert_eq!('A', abc.nth(0));
    assert_eq!('D', abc.nth(3));
}

#[test]
#[should_panic]
fn alphabet_nth_panic_when_out_of_bounds() {
    let abc = Alphabet::new("ABCD");
    let _x = abc.nth(4); // Should panic here.
}

#[test]
fn alphabet_keeps_order_and_duplicates() {
    let abc = Alphabet::new("AAB1");
    assert_eq!(4, abc.len());
    assert_eq!(vec!['A', 'A', 'B', '1'], *abc.get());
}

#[test]
fn produce_password_rejects_false_length() {
    let alphabets = vec![Alphabet::new("ABCD"), Alphabet::new("12")];
    assert_eq!(Err(GenError::LengthTooShort), produce_password(1, &alphabets));
}

#[test]
fn produce_password_rejects_zero_length() {
    let alphabets = vec![Alphabet::new("abc")];
    assert_eq!(Err(GenError::LengthTooShort), produce_password(0, &alphabets));
}

#[test]
fn produce_password_rejects_empty_alphabet_set() {
    let alphabets: Vec<Alphabet> = Vec::new();
    assert_eq!(Err(GenError::EmptyAlphabetSet), produce_password(8, &alphabets));
}

#[test]
fn produce_password_rejects_empty_alphabet() {
    let alphabets = vec![Alphabet::new("ABCD"), Alphabet::new("")];
    assert_eq!(Err(GenError::EmptyAlphabet), produce_password(8, &alphabets));
}

#[test]
fn produce_password_length_exact() {
    let alphabets = vec![Alphabet::new("ABCD"), Alphabet::new("12")];
    for length in [2usize, 3, 8, 40] {
        let p = produce_password(length, &alphabets).unwrap();
        assert_eq!(length, p.chars().count());
    }
}

#[test]
fn produce_password_covers_every_alphabet() {
    let alphabets = vec![Alphabet::new("ABCD"), Alphabet::new("12")];
    for _ in 0..100 {
        let p = produce_password(8, &alphabets).unwrap();
        assert_eq!(8, p.chars().count());
        assert!(p.chars().any(|c| "ABCD".contains(c)));
        assert!(p.chars().any(|c| "12".contains(c)));
        assert!(p.chars().all(|c| "ABCD12".contains(c)));
    }
}

#[test]
fn produce_password_boundary_one_symbol_per_alphabet() {
    let alphabets = vec![Alphabet::new("AB"), Alphabet::new("12")];
    for _ in 0..100 {
        let p = produce_password(2, &alphabets).unwrap();
        assert_eq!(2, p.chars().count());
        // With disjoint alphabets and length == count, the password is
        // exactly one symbol of each alphabet, in some order.
        assert_eq!(1, p.chars().filter(|c| "AB".contains(*c)).count());
        assert_eq!(1, p.chars().filter(|c| "12".contains(*c)).count());
    }
}

#[test]
fn produce_password_end_to_end_example() {
    let alphabets = vec![Alphabet::new("AB"), Alphabet::new("12")];
    for _ in 0..100 {
        let p = produce_password(6, &alphabets).unwrap();
        assert_eq!(6, p.chars().count());
        assert!(p.chars().any(|c| "AB".contains(c)));
        assert!(p.chars().any(|c| "12".contains(c)));
        assert!(p.chars().all(|c| "AB12".contains(c)));
    }
}

#[test]
fn produce_password_distribution_is_roughly_even() {
    let alphabets = vec![Alphabet::new("AB")];
    let mut count_a = 0usize;
    let mut count_b = 0usize;
    for _ in 0..10 {
        let p = produce_password(1000, &alphabets).unwrap();
        count_a += p.chars().filter(|c| *c == 'A').count();
        count_b += p.chars().filter(|c| *c == 'B').count();
    }
    assert_eq!(10_000, count_a + count_b);
    // Each symbol is expected about 5000 times; a count below 4000 is
    // many standard deviations away from an unbiased draw.
    assert!(count_a >= 4000, "'A' appeared only {} times", count_a);
    assert!(count_b >= 4000, "'B' appeared only {} times", count_b);
}

#[test]
fn produce_password_varies_between_calls() {
    let alphabets = vec![Alphabet::new("ABCD"), Alphabet::new("12")];
    let mut saw_difference = false;
    for _ in 0..10 {
        let first = produce_password(8, &alphabets).unwrap();
        let second = produce_password(8, &alphabets).unwrap();
        for p in [&first, &second] {
            assert!(p.chars().any(|c| "ABCD".contains(c)));
            assert!(p.chars().any(|c| "12".contains(c)));
        }
        if first != second {
            saw_difference = true;
        }
    }
    assert!(saw_difference);
}

#[test]
fn produce_password_shuffles_the_buffer() {
    // With singleton alphabets the only randomness left is the shuffle:
    // an unshuffled buffer would always read "AB".
    let alphabets = vec![Alphabet::new("A"), Alphabet::new("B")];
    let mut saw_ab = false;
    let mut saw_ba = false;
    for _ in 0..200 {
        let p = produce_password(2, &alphabets).unwrap();
        match p.as_str() {
            "AB" => saw_ab = true,
            "BA" => saw_ba = true,
            other => panic!("unexpected password {}", other),
        }
    }
    assert!(saw_ab && saw_ba);
}
