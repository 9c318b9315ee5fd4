use giga_test::models::ret_false;
use giga_test::placement::{get_user_place, PlaceBucket, GT_RESULTS};
use giga_test::responses::first_char;
use giga_test::strmap::StrMap;
use giga_test::text::{parse_int, push_decimal, str_equal, str_less};

fn keys_of(map: &StrMap<u32>) -> Vec<String> {
    (0..map.len()).map(|i| map.key_at(i).clone()).collect()
}

#[test]
fn text_order_is_lexicographic() {
    assert!(str_less("", "a"));
    assert!(!str_less("", ""));
    assert!(!str_less("a", ""));
    assert!(str_less("a", "b"));
    assert!(!str_less("b", "a"));
    assert!(str_less("a", "ab"));
    assert!(!str_less("ab", "a"));
    assert!(str_less("10", "2"));
    assert!(str_less("ab", "b"));
    assert!(!str_less("abc", "abc"));
    assert!(str_less("abc", "abd"));
    assert!(str_less("z", "ż"));
    assert!(str_less("ż", "€"));
}

#[test]
fn text_order_agrees_with_the_order_of_strings() {
    let words = ["", "1", "10", "2", "a", "ab", "b", "ń", "q1_1_0", "q1_10_0", "€", "😀"];
    for a in words {
        for b in words {
            assert_eq!(str_less(a, b), a < b);
            assert_eq!(str_equal(a, b), a == b);
        }
    }
}

#[test]
fn decimal_numerals() {
    for (n, text) in [(0usize, "0"), (7, "7"), (10, "10"), (42, "42"), (100, "100"), (9075, "9075")] {
        let mut out = String::from("n=");
        push_decimal(&mut out, n);
        assert_eq!(out, format!("n={}", text));
    }
    let mut out = String::new();
    push_decimal(&mut out, usize::MAX);
    assert_eq!(out, format!("{}", usize::MAX));
}

#[test]
fn numerals_are_parsed() {
    assert_eq!(parse_int("0"), Some(0));
    assert_eq!(parse_int("7"), Some(7));
    assert_eq!(parse_int("12"), Some(12));
    assert_eq!(parse_int("007"), Some(7));
    assert_eq!(parse_int("+5"), Some(5));
    assert_eq!(parse_int("-5"), Some(-5));
    assert_eq!(parse_int("-0"), Some(0));
    assert_eq!(parse_int("2147483647"), Some(i32::MAX));
    assert_eq!(parse_int("-2147483648"), Some(i32::MIN));
    assert_eq!(parse_int("00000000002147483647"), Some(i32::MAX));
}

#[test]
fn what_is_no_numeral_is_not_parsed() {
    for text in [
        "", "+", "-", "a", "1a", "a1", " 1", "1 ", "1.5", "--1", "+-1", "1_000", "2147483648",
        "-2147483649", "99999999999999999999999", "٣",
    ] {
        assert_eq!(parse_int(text), None);
    }
}

#[test]
fn parsing_agrees_with_the_standard_parser() {
    for text in ["", "+", "-", "0", "-0", "+0", "12", "x", "1x", "2147483647", "2147483648",
        "-2147483648", "-2147483649", "+2147483647", "0000", "9", "-9", "12345678901"]
    {
        assert_eq!(parse_int(text), text.parse::<i32>().ok());
    }
}

#[test]
fn first_character_of_a_value() {
    assert_eq!(first_char(""), None);
    assert_eq!(first_char("B"), Some('B'));
    assert_eq!(first_char("BC"), Some('B'));
    assert_eq!(first_char("ńa"), Some('ń'));
}

#[test]
fn map_keeps_keys_in_order() {
    let mut map: StrMap<u32> = StrMap::new();
    assert!(map.is_empty());
    assert_eq!(map.len(), 0);
    map.insert("b".to_string(), 2);
    map.insert("a".to_string(), 1);
    map.insert("c".to_string(), 3);
    map.insert("10".to_string(), 10);
    map.insert("2".to_string(), 20);
    assert_eq!(keys_of(&map), vec!["10", "2", "a", "b", "c"]);
    assert_eq!(*map.value_at(0), 10);
    assert_eq!(*map.value_at(4), 3);
    assert_eq!(map.len(), 5);
    assert!(!map.is_empty());
}

#[test]
fn map_replaces_the_value_under_a_key() {
    let mut map: StrMap<u32> = StrMap::new();
    map.insert("a".to_string(), 1);
    map.insert("b".to_string(), 2);
    map.insert("a".to_string(), 3);
    assert_eq!(keys_of(&map), vec!["a", "b"]);
    assert_eq!(map.get("a"), Some(&3));
    assert_eq!(map.get("b"), Some(&2));
    assert_eq!(map.len(), 2);
}

#[test]
fn map_finds_what_it_holds() {
    let mut map: StrMap<u32> = StrMap::new();
    map.insert("q1_1_0".to_string(), 1);
    map.insert("q1_1_1".to_string(), 2);
    assert_eq!(map.get("q1_1_0"), Some(&1));
    assert_eq!(map.get("q1_1_1"), Some(&2));
    assert_eq!(map.get("q1_1_2"), None);
    assert_eq!(map.get(""), None);
    assert_eq!(map.find("q1_1_1"), Some(1));
    assert_eq!(map.find("q1_1"), None);
    assert!(map.contains_key("q1_1_0"));
    assert!(!map.contains_key("q1_1_00"));
}

#[test]
fn map_clone_holds_the_same_entries() {
    let mut map: StrMap<u32> = StrMap::new();
    map.insert("b".to_string(), 2);
    map.insert("a".to_string(), 1);
    let copy = map.clone();
    map.insert("c".to_string(), 3);
    assert_eq!(keys_of(&copy), vec!["a", "b"]);
    assert_eq!(copy.get("a"), Some(&1));
    assert_eq!(copy.get("b"), Some(&2));
    assert_eq!(map.len(), 3);
}

#[test]
fn canceled_defaults_to_false() {
    assert!(!ret_false());
}

#[test]
fn results_table_is_sorted_and_ends_with_zero() {
    assert_eq!(GT_RESULTS.len(), 233);
    assert_eq!(GT_RESULTS[0], 276);
    assert_eq!(GT_RESULTS[232], 0);
    for i in 1..GT_RESULTS.len() {
        assert!(GT_RESULTS[i - 1] > GT_RESULTS[i]);
    }
}

#[test]
fn place_is_the_first_result_reached() {
    for correct in 0..400usize {
        let place = get_user_place(correct);
        assert!(1 <= place && place <= 233);
        assert!(GT_RESULTS[place - 1] <= correct);
        for j in 0..place - 1 {
            assert!(GT_RESULTS[j] > correct);
        }
    }
    assert_eq!(get_user_place(usize::MAX), 1);
    assert_eq!(get_user_place(19), 233);
    assert_eq!(get_user_place(20), 232);
    assert_eq!(get_user_place(275), 2);
}

#[test]
fn placement_exactness() {
    assert_eq!(get_user_place(276), 1);
    assert_eq!(PlaceBucket::from_place(1), PlaceBucket::Winner);
    assert_eq!(get_user_place(270), 4);
    assert_eq!(PlaceBucket::from_place(4), PlaceBucket::ConsolationPrize);
    assert_eq!(get_user_place(0), 233);
    assert_eq!(PlaceBucket::from_place(233), PlaceBucket::Loser);
    assert_eq!(get_user_place(300), 1);
}

#[test]
fn buckets_change_at_their_bounds() {
    let expected = [
        (0, PlaceBucket::Loser),
        (1, PlaceBucket::Winner),
        (2, PlaceBucket::ConsolationPrize),
        (7, PlaceBucket::ConsolationPrize),
        (8, PlaceBucket::NamePrinted),
        (61, PlaceBucket::NamePrinted),
        (62, PlaceBucket::NameWebsite),
        (232, PlaceBucket::NameWebsite),
        (233, PlaceBucket::Loser),
        (1000, PlaceBucket::Loser),
    ];
    for (place, bucket) in expected {
        assert_eq!(PlaceBucket::from_place(place), bucket);
    }
}

#[test]
fn bucket_names() {
    assert_eq!(PlaceBucket::Winner.to_string(), "winner");
    assert_eq!(PlaceBucket::ConsolationPrize.to_string(), "consolation-prize");
    assert_eq!(PlaceBucket::NamePrinted.to_string(), "name-printed");
    assert_eq!(PlaceBucket::NameWebsite.to_string(), "name-website");
    assert_eq!(PlaceBucket::Loser.to_string(), "loser");
}
