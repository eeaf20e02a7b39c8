use vstd::prelude::*;
use crate::options::{shows_something, OptionsError, RenderOptions};
use crate::presenter::{script, Pacing, Presenter};
use crate::render::{list_hsk_words, listing_line};
use crate::selection::{filter_by_levels, filtered, levels_view, shuffle_words};
use crate::word::HskWord;

verus! {

/// A parsed command line.
pub struct Cli {
    pub command: Commands,
}

/// The commands of the tool.
pub enum Commands {
    /// Quiz on words, one at a time.
    Train {
        /// Levels to draw words from; none, or an empty list, means all.
        levels: Option<Vec<u8>>,
        /// Hide the Chinese characters.
        no_chinese: bool,
        /// Show the pinyin transcription.
        pinyin: bool,
        /// Show the English translations.
        translations: bool,
        /// Reveal the full record after each question.
        answer: bool,
        /// Present the words in a random order.
        shuffle: bool,
        /// Seconds to wait after each question; without it, wait for a line of input.
        delay: Option<u64>,
    },
    /// Print the words of the vocabulary list.
    List {
        /// Levels to list; none, or an empty list, means all.
        levels: Option<Vec<u8>>,
        /// Put each word's number in front of it.
        numbers: bool,
    },
}

/// What a command turns into once the words are loaded.
pub enum Session {
    /// A quiz to drive step by step.
    Quiz(Presenter),
    /// Lines to print.
    Listing(Vec<String>),
}

/// The pacing that a delay option asks for.
pub open spec fn pacing_of(delay: Option<u64>) -> Pacing {
    match delay {
        Some(n) => Pacing::Delay(n),
        None => Pacing::WaitForInput,
    }
}

/// `lines` is the listing of `words`.
pub open spec fn is_listing(lines: Seq<String>, words: Seq<HskWord>, numbers: bool) -> bool {
    &&& lines.len() == words.len()
    &&& forall|i: int| 0 <= i < lines.len() ==> #[trigger] lines[i]@ == listing_line(words[i]@, numbers)
}

/// The outcome of running `command` on `words`: a quiz over the selected
/// words (in a random order when shuffling), or the listing of the selected
/// words; an invalid combination of quiz options is refused.
pub open spec fn dispatched(command: Commands, words: Seq<HskWord>, r: Result<Session, OptionsError>) -> bool {
    match command {
        Commands::Train { levels, no_chinese, pinyin, translations, answer, shuffle, delay } => {
            let selected = filtered(words, levels_view(&levels));
            let options = RenderOptions { no_chinese, pinyin, translations, answer };
            match r {
                Err(e) => !shows_something(no_chinese, pinyin, translations) && e
                    == OptionsError::NoChineseWithoutOtherFields,
                Ok(Session::Quiz(p)) => {
                    &&& shows_something(no_chinese, pinyin, translations)
                    &&& p.inv()
                    &&& exists|order: Seq<HskWord>|
                        {
                            &&& (if shuffle {
                                order.to_multiset() == selected.to_multiset()
                            } else {
                                order == selected
                            })
                            &&& p.pending() == #[trigger] script(order, options, pacing_of(delay))
                        }
                },
                Ok(Session::Listing(_)) => false,
            }
        },
        Commands::List { levels, numbers } => match r {
            Ok(Session::Listing(lines)) => is_listing(
                lines@,
                filtered(words, levels_view(&levels)),
                numbers,
            ),
            _ => false,
        },
    }
}

impl Cli {
    /// Runs the command on the loaded words: checks the quiz options, selects
    /// the words, and builds the quiz or the listing.
    pub fn dispatch(self, words: &Vec<HskWord>) -> (r: Result<Session, OptionsError>)
        ensures
            dispatched(self.command, words@, r),
    {
        match self.command {
            Commands::Train { levels, no_chinese, pinyin, translations, answer, shuffle, delay } => {
                let options = match RenderOptions::new(no_chinese, pinyin, translations, answer) {
                    Ok(o) => o,
                    Err(e) => return Err(e),
                };
                let mut selected = filter_by_levels(words, &levels);
                let ghost before = selected@;
                if shuffle {
                    shuffle_words(&mut selected);
                }
                let pacing = match delay {
                    Some(n) => Pacing::Delay(n),
                    None => Pacing::WaitForInput,
                };
                let ghost order = selected@;
                let p = Presenter::new(selected, options, pacing);
                assert(if shuffle {
                    order.to_multiset() == before.to_multiset()
                } else {
                    order == before
                });
                assert(pacing == pacing_of(delay));
                assert(p.pending() == script(order, options, pacing_of(delay)));
                Ok(Session::Quiz(p))
            },
            Commands::List { levels, numbers } => {
                let selected = filter_by_levels(words, &levels);
                Ok(Session::Listing(list_hsk_words(&selected, numbers)))
            },
        }
    }
}

} // verus!
