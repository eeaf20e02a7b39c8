use hskx::options::OptionsError;
use hskx::{render_question_string, HskWord, RenderOptions};

fn good_word() -> HskWord {
    HskWord {
        number: 36,
        chinese: String::from("好"),
        pinyin: String::from("hǎo"),
        translations: String::from("good"),
        level: 1,
    }
}

#[test]
fn test_render_question_string() {
    let test_chinese_field = "好";
    let test_pinyin_field = "hǎo";
    let test_translations_field = "good; well; proper; good to; easy to; very; so; (suffix indicating completion or readiness)";
    let test_hsk_word = HskWord {
        number: 36,
        chinese: String::from(test_chinese_field),
        pinyin: String::from(test_pinyin_field),
        translations: String::from(test_translations_field),
        level: 1,
    };
    assert_eq!(
        render_question_string(test_hsk_word.clone(), &false, &false, &false),
        test_chinese_field
    );
    assert_eq!(
        render_question_string(test_hsk_word.clone(), &false, &true, &false),
        format!("{} {}", test_chinese_field, test_pinyin_field)
    );
    assert_eq!(
        render_question_string(test_hsk_word.clone(), &false, &false, &true),
        format!("{} {}", test_chinese_field, test_translations_field)
    );
    assert_eq!(
        render_question_string(test_hsk_word.clone(), &false, &true, &true),
        format!(
            "{} {} {}",
            test_chinese_field, test_pinyin_field, test_translations_field
        )
    );
    // Real execution with such options will cause the expected error
    assert_eq!(
        render_question_string(test_hsk_word.clone(), &true, &false, &false),
        ""
    );
    assert_eq!(
        render_question_string(test_hsk_word.clone(), &true, &true, &false),
        test_pinyin_field
    );
    assert_eq!(
        render_question_string(test_hsk_word.clone(), &true, &false, &true),
        test_translations_field
    );
    assert_eq!(
        render_question_string(test_hsk_word.clone(), &true, &true, &true),
        format!("{} {}", test_pinyin_field, test_translations_field)
    );
}

#[test]
fn render_all_off_is_the_chinese_only() {
    assert_eq!(render_question_string(good_word(), &false, &false, &false), "好");
}

#[test]
fn render_pinyin_without_chinese_is_the_pinyin_only() {
    assert_eq!(render_question_string(good_word(), &true, &true, &false), "hǎo");
}

#[test]
fn render_pinyin_and_translations_without_chinese() {
    assert_eq!(render_question_string(good_word(), &true, &true, &true), "hǎo good");
}

#[test]
fn options_without_any_visible_field_are_refused() {
    assert_eq!(
        RenderOptions::new(true, false, false, false),
        Err(OptionsError::NoChineseWithoutOtherFields)
    );
    assert_eq!(
        RenderOptions::new(true, false, false, true),
        Err(OptionsError::NoChineseWithoutOtherFields)
    );
}

#[test]
fn valid_options_are_accepted_as_given() {
    let o = RenderOptions::new(true, true, false, true).unwrap();
    assert_eq!(
        o,
        RenderOptions { no_chinese: true, pinyin: true, translations: false, answer: true }
    );
    assert!(RenderOptions::new(false, false, false, false).is_ok());
    assert!(RenderOptions::new(true, false, true, false).is_ok());
}

#[test]
fn question_follows_the_options() {
    let o = RenderOptions::new(false, true, false, false).unwrap();
    assert_eq!(o.question(&good_word()), "好 hǎo");
}

#[test]
fn full_string_shows_every_field() {
    assert_eq!(good_word().full_string(), "好 hǎo good");
}
