use hskx::options::OptionsError;
use hskx::{Action, Cli, Commands, HskWord, Session};

fn word(number: u32, level: u8) -> HskWord {
    HskWord {
        number,
        chinese: format!("字{}", number),
        pinyin: format!("zi{}", number),
        translations: format!("word {}", number),
        level,
    }
}

fn dataset() -> Vec<HskWord> {
    vec![word(1, 1), word(2, 2), word(3, 1)]
}

fn train(levels: Option<Vec<u8>>, no_chinese: bool, pinyin: bool, shuffle: bool) -> Cli {
    Cli {
        command: Commands::Train {
            levels,
            no_chinese,
            pinyin,
            translations: false,
            answer: false,
            shuffle,
            delay: Some(0),
        },
    }
}

fn shown(session: Session) -> Vec<String> {
    let mut p = match session {
        Session::Quiz(p) => p,
        Session::Listing(_) => panic!("expected a quiz"),
    };
    let mut out = Vec::new();
    loop {
        match p.step() {
            Action::Finish => return out,
            Action::Show(q) => out.push(q),
            _ => {}
        }
    }
}

#[test]
fn train_refuses_a_question_with_nothing_visible() {
    assert!(matches!(
        train(None, true, false, false).dispatch(&dataset()),
        Err(OptionsError::NoChineseWithoutOtherFields)
    ));
}

#[test]
fn train_presents_the_selected_words_in_order() {
    let session = train(Some(vec![1]), false, false, false).dispatch(&dataset()).unwrap();
    assert_eq!(shown(session), vec![String::from("字1"), String::from("字3")]);
}

#[test]
fn train_shuffled_presents_every_selected_word_once() {
    let session = train(None, true, true, true).dispatch(&dataset()).unwrap();
    let mut got = shown(session);
    got.sort();
    assert_eq!(got, vec![String::from("zi1"), String::from("zi2"), String::from("zi3")]);
}

#[test]
fn list_gives_the_listing_of_the_selection() {
    let cli = Cli { command: Commands::List { levels: Some(vec![2]), numbers: true } };
    match cli.dispatch(&dataset()).unwrap() {
        Session::Listing(lines) => assert_eq!(lines, vec![String::from("2 字2 zi2 word 2")]),
        Session::Quiz(_) => panic!("expected a listing"),
    }
}
