use hskx::{Action, HskWord, Pacing, Presenter, RenderOptions};

fn good_word() -> HskWord {
    HskWord {
        number: 36,
        chinese: String::from("好"),
        pinyin: String::from("hǎo"),
        translations: String::from("good"),
        level: 1,
    }
}

fn word(number: u32) -> HskWord {
    HskWord {
        number,
        chinese: format!("字{}", number),
        pinyin: format!("zi{}", number),
        translations: format!("word {}", number),
        level: 1,
    }
}

fn run_all(mut p: Presenter) -> Vec<Action> {
    let mut actions = Vec::new();
    loop {
        let a = p.step();
        if a == Action::Finish {
            return actions;
        }
        actions.push(a);
    }
}

/// Plays the quiz, feeding one input line on each read, and returns what was printed.
fn transcript(p: Presenter, input: &[&str]) -> (String, usize) {
    let mut out = String::new();
    let mut consumed = 0;
    for a in run_all(p) {
        if a == Action::ReadLine {
            let _line = input[consumed];
            consumed += 1;
        }
        out.push_str(&a.output());
    }
    (out, consumed)
}

#[test]
fn wait_for_input_reads_one_line_per_word() {
    let o = RenderOptions::new(false, false, false, false).unwrap();
    let p = Presenter::new(vec![word(1), word(2), word(3)], o, Pacing::WaitForInput);
    let actions = run_all(p);
    assert_eq!(actions.iter().filter(|a| **a == Action::ReadLine).count(), 3);
    assert!(!actions.iter().any(|a| matches!(a, Action::Sleep(_))));
}

#[test]
fn input_content_does_not_matter() {
    let o = RenderOptions::new(false, true, false, true).unwrap();
    let a = transcript(Presenter::new(vec![word(1), word(2)], o, Pacing::WaitForInput), &["", "x"]);
    let b = transcript(
        Presenter::new(vec![word(1), word(2)], o, Pacing::WaitForInput),
        &["anything at all", "q"],
    );
    assert_eq!(a, b);
    assert_eq!(a.1, 2);
}

#[test]
fn zero_delay_never_waits() {
    let o = RenderOptions::new(false, true, true, true).unwrap();
    let actions = run_all(Presenter::new(vec![word(1), word(2)], o, Pacing::Delay(0)));
    assert!(!actions
        .iter()
        .any(|a| matches!(a, Action::Sleep(_)) || *a == Action::ReadLine));
    assert_eq!(actions.len(), 4);
}

#[test]
fn delay_sleeps_after_each_question() {
    let o = RenderOptions::new(false, false, false, false).unwrap();
    let actions = run_all(Presenter::new(vec![word(1), word(2)], o, Pacing::Delay(3)));
    assert_eq!(
        actions,
        vec![
            Action::Show(String::from("字1")),
            Action::Sleep(3),
            Action::Show(String::from("字2")),
            Action::Sleep(3),
        ]
    );
}

#[test]
fn end_to_end_question_then_answer() {
    let o = RenderOptions::new(false, true, false, true).unwrap();
    let (out, consumed) = transcript(Presenter::new(vec![good_word()], o, Pacing::WaitForInput), &[""]);
    assert_eq!(consumed, 1);
    assert!(out.contains("好 hǎo\n\n好 hǎo good"));
    assert_eq!(out, "好 hǎo\n\n好 hǎo good\n\n");
}

#[test]
fn empty_selection_finishes_at_once() {
    let o = RenderOptions::new(false, false, false, true).unwrap();
    let mut p = Presenter::new(Vec::new(), o, Pacing::WaitForInput);
    assert_eq!(p.step(), Action::Finish);
    assert_eq!(p.step(), Action::Finish);
}

#[test]
fn order_of_the_selection_is_kept() {
    let o = RenderOptions::new(false, false, false, false).unwrap();
    let actions = run_all(Presenter::new(vec![word(3), word(1), word(2)], o, Pacing::Delay(0)));
    assert_eq!(
        actions,
        vec![
            Action::Show(String::from("字3")),
            Action::Show(String::from("字1")),
            Action::Show(String::from("字2")),
        ]
    );
}

#[test]
fn output_of_each_action() {
    assert_eq!(Action::Show(String::from("q")).output(), "q\n\n");
    assert_eq!(Action::Reveal(String::from("a b c")).output(), "a b c\n\n");
    assert_eq!(Action::ReadLine.output(), "");
    assert_eq!(Action::Sleep(1).output(), "");
    assert_eq!(Action::Finish.output(), "");
}
