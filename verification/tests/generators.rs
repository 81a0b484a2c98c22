use anyinput::counter::Counter;
use anyinput::uuid_generator::replace_char;
use anyinput::{simple_suffix_iter_factory, SuffixIter, UuidGenerator};

#[test]
fn uuid() {
    let mut uuid_generator = UuidGenerator::new();
    for i in 0..10 {
        let _ = uuid_generator.next();
        println!("{:#?}", i);
    }
}

#[test]
fn simple_suffixes_count_up_from_zero() {
    let mut suffix_iter = simple_suffix_iter_factory();
    let drawn: Vec<String> = (0..12).map(|_| suffix_iter.next()).collect();
    assert_eq!(
        drawn,
        vec!["0", "1", "2", "3", "4", "5", "6", "7", "8", "9", "10", "11"]
    );
}

#[test]
fn simple_suffixes_are_the_decimal_numbers() {
    let mut suffix_iter = simple_suffix_iter_factory();
    for number in 0..2500usize {
        assert_eq!(suffix_iter.next(), number.to_string());
    }
}

#[test]
fn a_counter_counts_past_every_carry() {
    let mut counter = Counter::new();
    assert_eq!(counter.to_text(), "0");
    for number in 1..=100_100u32 {
        counter.increment();
        if number % 1000 < 2 || number % 1000 > 997 {
            assert_eq!(counter.to_text(), number.to_string());
        }
    }
    assert_eq!(counter.to_text(), "100100");
}

#[test]
fn a_character_is_replaced_everywhere() {
    assert_eq!(replace_char("", '-', '_'), "");
    assert_eq!(replace_char("a-b--c-", '-', '_'), "a_b__c_");
    assert_eq!(replace_char("none", '-', '_'), "none");
    assert_eq!(replace_char("héllo wörld", 'ö', 'o'), "héllo world");
}

#[test]
fn uuid_suffixes_hold_the_uuid_and_count_up() {
    let mut generator = UuidGenerator::with_uuid("936da01f-9abd-4d9d-80c7-02af85c822a8");
    assert_eq!(generator.next(), "U936da01f_9abd_4d9d_80c7_02af85c822a8_0");
    assert_eq!(generator.next(), "U936da01f_9abd_4d9d_80c7_02af85c822a8_1");
    for _ in 2..10 {
        generator.next();
    }
    assert_eq!(generator.next(), "U936da01f_9abd_4d9d_80c7_02af85c822a8_10");
}

#[test]
fn a_fresh_uuid_has_the_form_of_a_random_uuid() {
    let mut generator = UuidGenerator::new();
    let first = generator.next();
    let second = generator.next();

    let chars: Vec<char> = first.chars().collect();
    assert_eq!(chars.len(), 1 + 36 + 2);
    assert_eq!(chars[0], 'U');
    for (place, c) in chars[1..37].iter().enumerate() {
        if [8, 13, 18, 23].contains(&place) {
            assert_eq!(*c, '_');
        } else {
            assert!(c.is_ascii_digit() || ('a'..='f').contains(c));
        }
    }
    assert_eq!(chars[1 + 14], '4');
    assert!(['8', '9', 'a', 'b'].contains(&chars[1 + 19]));
    assert_eq!(&first[37..], "_0");

    // The same UUID, the next number.
    assert_eq!(second[..37], first[..37]);
    assert_eq!(&second[37..], "_1");

    // Another generator, another UUID.
    let other = UuidGenerator::new().next();
    assert_ne!(other, first);
}
