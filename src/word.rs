use vstd::prelude::*;

verus! {

/// One entry of a vocabulary list.
#[derive(Clone, Debug, PartialEq, Eq)]
pub struct HskWord {
    /// Position of the word in its source list.
    pub number: u32,
    /// The word in Chinese characters.
    pub chinese: String,
    /// Hanyu pinyin transcription.
    pub pinyin: String,
    /// English translations.
    pub translations: String,
    /// Exam level, from 1 to 6.
    pub level: u8,
}

/// The mathematical value of an `HskWord`: its text fields as character sequences.
pub struct WordView {
    pub number: u32,
    pub chinese: Seq<char>,
    pub pinyin: Seq<char>,
    pub translations: Seq<char>,
    pub level: u8,
}

impl View for HskWord {
    type V = WordView;

    open spec fn view(&self) -> WordView {
        WordView {
            number: self.number,
            chinese: self.chinese@,
            pinyin: self.pinyin@,
            translations: self.translations@,
            level: self.level,
        }
    }
}

/// The lowest exam level.
pub const MIN_LEVEL: u8 = 1;

/// The highest exam level.
pub const MAX_LEVEL: u8 = 6;

/// The full record as text: characters, transcription and translations,
/// separated by single spaces.
pub open spec fn full_text(w: WordView) -> Seq<char> {
    w.chinese + seq![' '] + w.pinyin + seq![' '] + w.translations
}

/// A level that the exam knows.
pub open spec fn valid_level(level: u8) -> bool {
    MIN_LEVEL <= level <= MAX_LEVEL
}

impl HskWord {
    /// A well-formed record: non-empty text fields, a positive number and a known level.
    pub open spec fn wf(&self) -> bool {
        &&& self.number > 0
        &&& self.chinese@.len() > 0
        &&& self.pinyin@.len() > 0
        &&& self.translations@.len() > 0
        &&& valid_level(self.level)
    }

    /// A copy of the record, field for field.
    pub fn duplicate(&self) -> (r: HskWord)
        ensures
            r == *self,
    {
        HskWord {
            number: self.number,
            chinese: self.chinese.clone(),
            pinyin: self.pinyin.clone(),
            translations: self.translations.clone(),
            level: self.level,
        }
    }

    /// The full record as one line of text.
    pub fn full_string(&self) -> (r: String)
        ensures
            r@ == full_text(self@),
    {
        let mut s = self.chinese.clone();
        proof {
            reveal_strlit(" ");
        }
        s.append(" ");
        s.append(self.pinyin.as_str());
        s.append(" ");
        s.append(self.translations.as_str());
        s
    }
}

} // verus!
