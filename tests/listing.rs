use hskx::text::{decimal_string, parse_u32};
use hskx::{list_hsk_words, listing_line_string, HskWord};

fn good_word() -> HskWord {
    HskWord {
        number: 36,
        chinese: String::from("好"),
        pinyin: String::from("hǎo"),
        translations: String::from("good"),
        level: 1,
    }
}

#[test]
fn listing_with_numbers() {
    assert_eq!(list_hsk_words(&vec![good_word()], true), vec![String::from("36 好 hǎo good")]);
}

#[test]
fn listing_without_numbers() {
    assert_eq!(list_hsk_words(&vec![good_word()], false), vec![String::from("好 hǎo good")]);
}

#[test]
fn listing_keeps_the_order() {
    let second = HskWord {
        number: 7,
        chinese: String::from("不"),
        pinyin: String::from("bù"),
        translations: String::from("no"),
        level: 1,
    };
    assert_eq!(
        list_hsk_words(&vec![good_word(), second], true),
        vec![String::from("36 好 hǎo good"), String::from("7 不 bù no")]
    );
    assert!(list_hsk_words(&Vec::new(), true).is_empty());
}

#[test]
fn listing_line_of_one_word() {
    assert_eq!(listing_line_string(&good_word(), true), "36 好 hǎo good");
}

#[test]
fn decimal_of_edge_values() {
    assert_eq!(decimal_string(0), "0");
    assert_eq!(decimal_string(9), "9");
    assert_eq!(decimal_string(10), "10");
    assert_eq!(decimal_string(36), "36");
    assert_eq!(decimal_string(4294967295), "4294967295");
}

#[test]
fn parse_of_decimal_numbers() {
    assert_eq!(parse_u32("36"), Some(36));
    assert_eq!(parse_u32("007"), Some(7));
    assert_eq!(parse_u32("4294967295"), Some(4294967295));
    assert_eq!(parse_u32("4294967296"), None);
    assert_eq!(parse_u32(""), None);
    assert_eq!(parse_u32("3a"), None);
    assert_eq!(parse_u32("+3"), None);
    assert_eq!(parse_u32(" 3"), None);
}
