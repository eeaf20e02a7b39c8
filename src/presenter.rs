use vstd::prelude::*;
use crate::options::RenderOptions;
use crate::render::question_text;
use crate::word::{full_text, HskWord, WordView};

verus! {

/// How a quiz moves from one word to the next.
///
/// `Delay(0)` is accepted and means no waiting at all: the next step follows
/// at once.
#[derive(Clone, Copy, Debug, PartialEq, Eq, Structural)]
pub enum Pacing {
    /// Wait this many seconds after each question.
    Delay(u64),
    /// Wait for one line of input after each question; its content is ignored.
    WaitForInput,
}

/// What the driver of a quiz must do next.
#[derive(Debug, PartialEq, Eq)]
pub enum Action {
    /// Print the question.
    Show(String),
    /// Sleep this many seconds.
    Sleep(u64),
    /// Read one line of input and discard it.
    ReadLine,
    /// Print the full record.
    Reveal(String),
    /// The quiz is over.
    Finish,
}

/// The mathematical value of an `Action`.
pub enum Step {
    Show(Seq<char>),
    Sleep(u64),
    ReadLine,
    Reveal(Seq<char>),
    Finish,
}

impl View for Action {
    type V = Step;

    open spec fn view(&self) -> Step {
        match self {
            Action::Show(s) => Step::Show(s@),
            Action::Sleep(n) => Step::Sleep(*n),
            Action::ReadLine => Step::ReadLine,
            Action::Reveal(s) => Step::Reveal(s@),
            Action::Finish => Step::Finish,
        }
    }
}

/// The waiting that follows a question.
pub open spec fn pacing_steps(p: Pacing) -> Seq<Step> {
    match p {
        Pacing::Delay(n) => if n == 0 {
            Seq::empty()
        } else {
            seq![Step::Sleep(n)]
        },
        Pacing::WaitForInput => seq![Step::ReadLine],
    }
}

/// The steps for one word: its question, the pacing, then the full record
/// when answers are revealed.
pub open spec fn item_steps(w: WordView, o: RenderOptions, p: Pacing) -> Seq<Step> {
    seq![Step::Show(question_text(w, o.no_chinese, o.pinyin, o.translations))] + pacing_steps(p) + (
    if o.answer {
        seq![Step::Reveal(full_text(w))]
    } else {
        Seq::empty()
    })
}

/// The steps of a whole quiz: those of each word, in the order of the selection.
pub open spec fn script(words: Seq<HskWord>, o: RenderOptions, p: Pacing) -> Seq<Step>
    decreases words.len(),
{
    if words.len() == 0 {
        Seq::empty()
    } else {
        item_steps(words[0]@, o, p) + script(words.drop_first(), o, p)
    }
}

/// What a step prints: a question or an answer followed by a blank line;
/// nothing for the others.
pub open spec fn output_text(s: Step) -> Seq<char> {
    match s {
        Step::Show(q) => q + seq!['\n', '\n'],
        Step::Reveal(a) => a + seq!['\n', '\n'],
        _ => Seq::empty(),
    }
}

impl Action {
    /// The text to print for this action.
    pub fn output(&self) -> (r: String)
        ensures
            r@ == output_text(self@),
    {
        proof {
            reveal_strlit("\n\n");
        }
        match self {
            Action::Show(q) => q.clone().concat("\n\n"),
            Action::Reveal(a) => a.clone().concat("\n\n"),
            _ => String::new(),
        }
    }
}

/// The actions for one word.
fn item_actions(w: &HskWord, o: &RenderOptions, p: &Pacing) -> (r: Vec<Action>)
    ensures
        r@.map_values(|a: Action| a@) == item_steps(w@, *o, *p),
{
    let mut actions: Vec<Action> = Vec::new();
    actions.push(Action::Show(o.question(w)));
    match p {
        Pacing::Delay(n) => {
            if *n > 0 {
                actions.push(Action::Sleep(*n));
            }
        },
        Pacing::WaitForInput => {
            actions.push(Action::ReadLine);
        },
    }
    if o.answer {
        actions.push(Action::Reveal(w.full_string()));
    }
    assert(actions@.map_values(|a: Action| a@) =~= item_steps(w@, *o, *p));
    actions
}

/// Drives a quiz over a selection of words. Each call of `step` gives the
/// next action; the caller performs it and calls again until `Finish`.
pub struct Presenter {
    words: Vec<HskWord>,
    options: RenderOptions,
    pacing: Pacing,
    next: usize,
    queue: Vec<Action>,
}

impl Presenter {
    /// The steps still to come, in order.
    pub closed spec fn pending(&self) -> Seq<Step> {
        self.queue@.map_values(|a: Action| a@) + script(
            self.words@.skip(self.next as int),
            self.options,
            self.pacing,
        )
    }

    /// The presenter's internal consistency.
    pub closed spec fn inv(&self) -> bool {
        self.next <= self.words@.len()
    }

    /// A quiz over `words`, in their order. The options must be valid, so that
    /// no question is empty.
    pub fn new(words: Vec<HskWord>, options: RenderOptions, pacing: Pacing) -> (r: Presenter)
        requires
            options.wf(),
        ensures
            r.inv(),
            r.pending() == script(words@, options, pacing),
    {
        let r = Presenter { words, options, pacing, next: 0, queue: Vec::new() };
        assert(r.words@.skip(0) =~= r.words@);
        assert(r.queue@.map_values(|a: Action| a@) =~= Seq::<Step>::empty());
        assert(r.pending() =~= script(r.words@, options, pacing));
        r
    }

    /// The next action: the first pending step, or `Finish` once none is left.
    pub fn step(&mut self) -> (a: Action)
        requires
            old(self).inv(),
        ensures
            final(self).inv(),
            old(self).pending().len() == 0 ==> a@ == Step::Finish && final(self).pending().len() == 0,
            old(self).pending().len() > 0 ==> a@ == old(self).pending()[0] && final(self).pending()
                == old(self).pending().drop_first(),
    {
        if self.queue.len() == 0 {
            if self.next == self.words.len() {
                assert(self.words@.skip(self.next as int) =~= Seq::<HskWord>::empty());
                assert(self.queue@.map_values(|a: Action| a@) =~= Seq::<Step>::empty());
                return Action::Finish;
            }
            let ghost rest = self.words@.skip(self.next as int);
            assert(rest.drop_first() =~= self.words@.skip(self.next + 1));
            assert(rest[0] == self.words@[self.next as int]);
            self.queue = item_actions(&self.words[self.next], &self.options, &self.pacing);
            self.next = self.next + 1;
            assert(self.queue@.map_values(|a: Action| a@) + script(
                self.words@.skip(self.next as int),
                self.options,
                self.pacing,
            ) =~= script(rest, self.options, self.pacing));
        }
        let ghost before = self.queue@.map_values(|a: Action| a@);
        let ghost tail = script(self.words@.skip(self.next as int), self.options, self.pacing);
        let a = self.queue.remove(0);
        assert(self.queue@.map_values(|a: Action| a@) =~= before.drop_first());
        assert((before + tail).drop_first() =~= before.drop_first() + tail);
        a
    }
}

/// The steps that read a line of input.
pub open spec fn reads(steps: Seq<Step>) -> Seq<Step> {
    steps.filter(|s: Step| s is ReadLine)
}

/// The steps that sleep for `n` seconds.
pub open spec fn sleeps(steps: Seq<Step>, n: u64) -> Seq<Step> {
    steps.filter(|s: Step| s == Step::Sleep(n))
}

proof fn lemma_filter_short(s: Seq<Step>, pred: spec_fn(Step) -> bool)
    requires
        s.len() <= 1,
    ensures
        s.filter(pred) == (if s.len() == 1 && pred(s[0]) {
            s
        } else {
            Seq::<Step>::empty()
        }),
{
    reveal(Seq::filter);
    if s.len() == 1 {
        assert(s.drop_last() =~= Seq::<Step>::empty());
        assert(s.drop_last().filter(pred) =~= Seq::<Step>::empty());
    }
}

/// Filters the steps of one word, part by part.
proof fn lemma_filter_item(w: WordView, o: RenderOptions, p: Pacing, pred: spec_fn(Step) -> bool)
    ensures
        item_steps(w, o, p).filter(pred) == seq![
            Step::Show(question_text(w, o.no_chinese, o.pinyin, o.translations)),
        ].filter(pred) + pacing_steps(p).filter(pred) + (if o.answer {
            seq![Step::Reveal(full_text(w))]
        } else {
            Seq::empty()
        }).filter(pred),
{
    let a = seq![Step::Show(question_text(w, o.no_chinese, o.pinyin, o.translations))];
    let b = pacing_steps(p);
    let c = if o.answer {
        seq![Step::Reveal(full_text(w))]
    } else {
        Seq::<Step>::empty()
    };
    Seq::filter_distributes_over_add(a + b, c, pred);
    Seq::filter_distributes_over_add(a, b, pred);
}

/// A quiz paced by input reads exactly one line per word, and never sleeps.
pub proof fn lemma_one_read_per_word(words: Seq<HskWord>, o: RenderOptions)
    ensures
        reads(script(words, o, Pacing::WaitForInput)).len() == words.len(),
        forall|i: int|
            0 <= i < script(words, o, Pacing::WaitForInput).len() ==> !(#[trigger] script(
                words,
                o,
                Pacing::WaitForInput,
            )[i] is Sleep),
    decreases words.len(),
{
    let p = Pacing::WaitForInput;
    let pred = |s: Step| s is ReadLine;
    if words.len() == 0 {
        reveal(Seq::filter);
    } else {
        let w = words[0]@;
        lemma_one_read_per_word(words.drop_first(), o);
        let item = item_steps(w, o, p);
        let rest = script(words.drop_first(), o, p);
        Seq::filter_distributes_over_add(item, rest, pred);
        lemma_filter_item(w, o, p, pred);
        lemma_filter_short(
            seq![Step::Show(question_text(w, o.no_chinese, o.pinyin, o.translations))],
            pred,
        );
        lemma_filter_short(pacing_steps(p), pred);
        lemma_filter_short(
            if o.answer {
                seq![Step::Reveal(full_text(w))]
            } else {
                Seq::empty()
            },
            pred,
        );
        assert forall|i: int| 0 <= i < script(words, o, p).len() implies !(#[trigger] script(
            words,
            o,
            p,
        )[i] is Sleep) by {
            if i >= item.len() {
                assert(script(words, o, p)[i] == rest[i - item.len()]);
            }
        }
    }
}

/// A quiz with a zero delay never waits: it neither sleeps nor reads input.
pub proof fn lemma_zero_delay_never_waits(words: Seq<HskWord>, o: RenderOptions)
    ensures
        forall|i: int|
            0 <= i < script(words, o, Pacing::Delay(0)).len() ==> {
                let s = #[trigger] script(words, o, Pacing::Delay(0))[i];
                !(s is Sleep) && !(s is ReadLine)
            },
    decreases words.len(),
{
    let p = Pacing::Delay(0);
    if words.len() > 0 {
        lemma_zero_delay_never_waits(words.drop_first(), o);
        let item = item_steps(words[0]@, o, p);
        let rest = script(words.drop_first(), o, p);
        assert forall|i: int| 0 <= i < script(words, o, p).len() implies {
            let s = #[trigger] script(words, o, p)[i];
            !(s is Sleep) && !(s is ReadLine)
        } by {
            if i >= item.len() {
                assert(script(words, o, p)[i] == rest[i - item.len()]);
            }
        }
    }
}

/// A quiz with a delay of `n > 0` seconds sleeps `n` seconds exactly once per
/// word, sleeps for no other length, and reads no input.
pub proof fn lemma_delay_sleeps_once_per_word(words: Seq<HskWord>, o: RenderOptions, n: u64)
    requires
        n > 0,
    ensures
        sleeps(script(words, o, Pacing::Delay(n)), n).len() == words.len(),
        forall|i: int|
            0 <= i < script(words, o, Pacing::Delay(n)).len() ==> {
                let s = #[trigger] script(words, o, Pacing::Delay(n))[i];
                !(s is ReadLine) && (s is Sleep ==> s == Step::Sleep(n))
            },
{
    lemma_delay_sleep_count(words, o, n);
    lemma_delay_step_kinds(words, o, n);
}

proof fn lemma_delay_sleep_count(words: Seq<HskWord>, o: RenderOptions, n: u64)
    requires
        n > 0,
    ensures
        sleeps(script(words, o, Pacing::Delay(n)), n).len() == words.len(),
    decreases words.len(),
{
    let p = Pacing::Delay(n);
    let pred = |s: Step| s == Step::Sleep(n);
    if words.len() == 0 {
        reveal(Seq::filter);
    } else {
        let w = words[0]@;
        lemma_delay_sleep_count(words.drop_first(), o, n);
        let item = item_steps(w, o, p);
        let rest = script(words.drop_first(), o, p);
        Seq::filter_distributes_over_add(item, rest, pred);
        lemma_filter_item(w, o, p, pred);
        lemma_filter_short(
            seq![Step::Show(question_text(w, o.no_chinese, o.pinyin, o.translations))],
            pred,
        );
        lemma_filter_short(pacing_steps(p), pred);
        lemma_filter_short(
            if o.answer {
                seq![Step::Reveal(full_text(w))]
            } else {
                Seq::empty()
            },
            pred,
        );
    }
}

proof fn lemma_delay_step_kinds(words: Seq<HskWord>, o: RenderOptions, n: u64)
    ensures
        forall|i: int|
            0 <= i < script(words, o, Pacing::Delay(n)).len() ==> {
                let s = #[trigger] script(words, o, Pacing::Delay(n))[i];
                !(s is ReadLine) && (s is Sleep ==> s == Step::Sleep(n))
            },
    decreases words.len(),
{
    let p = Pacing::Delay(n);
    if words.len() > 0 {
        lemma_delay_step_kinds(words.drop_first(), o, n);
        let item = item_steps(words[0]@, o, p);
        let rest = script(words.drop_first(), o, p);
        assert forall|i: int| 0 <= i < script(words, o, p).len() implies {
            let s = #[trigger] script(words, o, p)[i];
            !(s is ReadLine) && (s is Sleep ==> s == Step::Sleep(n))
        } by {
            if i >= item.len() {
                assert(script(words, o, p)[i] == rest[i - item.len()]);
            }
        }
    }
}

} // verus!
