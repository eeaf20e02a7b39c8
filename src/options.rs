use vstd::prelude::*;
use crate::render::{lemma_join_nonempty, question_fields, question_text, render_question_string};
use crate::word::HskWord;

verus! {

/// Whether a question built with these toggles shows at least one field.
pub open spec fn shows_something(no_chinese: bool, pinyin: bool, translations: bool) -> bool {
    !no_chinese || pinyin || translations
}

/// What a quiz question shows, and whether the full record follows it.
#[derive(Clone, Copy, Debug, PartialEq, Eq, Structural)]
pub struct RenderOptions {
    /// Hide the Chinese characters.
    pub no_chinese: bool,
    /// Show the pinyin transcription.
    pub pinyin: bool,
    /// Show the English translations.
    pub translations: bool,
    /// Reveal the full record after each question.
    pub answer: bool,
}

/// An invalid combination of quiz options.
#[derive(Clone, Copy, Debug, PartialEq, Eq, Structural)]
pub enum OptionsError {
    /// The characters are hidden and neither the transcription nor the
    /// translations are shown, so a question would be empty.
    NoChineseWithoutOtherFields,
}

impl RenderOptions {
    /// Valid options: a question always shows something.
    pub open spec fn wf(&self) -> bool {
        shows_something(self.no_chinese, self.pinyin, self.translations)
    }

    /// Checks the toggles before any question is rendered.
    pub fn new(no_chinese: bool, pinyin: bool, translations: bool, answer: bool) -> (r: Result<
        RenderOptions,
        OptionsError,
    >)
        ensures
            r is Ok <==> shows_something(no_chinese, pinyin, translations),
            r matches Ok(o) ==> o == (RenderOptions { no_chinese, pinyin, translations, answer }),
            r matches Err(e) ==> e == OptionsError::NoChineseWithoutOtherFields,
    {
        if no_chinese && !pinyin && !translations {
            Err(OptionsError::NoChineseWithoutOtherFields)
        } else {
            Ok(RenderOptions { no_chinese, pinyin, translations, answer })
        }
    }

    /// The question for a word under these options.
    pub fn question(&self, w: &HskWord) -> (r: String)
        ensures
            r@ == question_text(w@, self.no_chinese, self.pinyin, self.translations),
    {
        render_question_string(w.duplicate(), &self.no_chinese, &self.pinyin, &self.translations)
    }
}

/// Under valid options the question of a well-formed word is never empty.
pub proof fn lemma_valid_question_nonempty(o: RenderOptions, w: HskWord)
    requires
        o.wf(),
        w.wf(),
    ensures
        question_text(w@, o.no_chinese, o.pinyin, o.translations).len() > 0,
{
    let fields = question_fields(w@, o.no_chinese, o.pinyin, o.translations);
    assert forall|i: int| 0 <= i < fields.len() implies (#[trigger] fields[i]).len() > 0 by {
        if !o.no_chinese {
            if i >= 1 {
                if o.pinyin && i == 1 {
                    assert(fields[i] == w.pinyin@);
                } else {
                    assert(fields[i] == w.translations@);
                }
            }
        } else if o.pinyin && i >= 1 {
            assert(fields[i] == w.translations@);
        }
    }
    lemma_join_nonempty(fields);
}

} // verus!
