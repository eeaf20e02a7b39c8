use vstd::prelude::*;
use crate::text::{decimal, decimal_string};
use crate::word::{full_text, HskWord, WordView};

verus! {

/// Fields joined by single spaces, in order.
pub open spec fn join_with_spaces(fields: Seq<Seq<char>>) -> Seq<char>
    decreases fields.len(),
{
    if fields.len() == 0 {
        Seq::empty()
    } else if fields.len() == 1 {
        fields[0]
    } else {
        join_with_spaces(fields.drop_last()) + seq![' '] + fields.last()
    }
}

/// The fields that a question shows, in display order: the characters unless
/// they are suppressed, then the transcription and the translations when asked for.
pub open spec fn question_fields(
    w: WordView,
    no_chinese: bool,
    pinyin: bool,
    translations: bool,
) -> Seq<Seq<char>> {
    (if no_chinese { Seq::empty() } else { seq![w.chinese] }) + (if pinyin {
        seq![w.pinyin]
    } else {
        Seq::empty()
    }) + (if translations { seq![w.translations] } else { Seq::empty() })
}

/// The question shown for a word.
pub open spec fn question_text(
    w: WordView,
    no_chinese: bool,
    pinyin: bool,
    translations: bool,
) -> Seq<char> {
    join_with_spaces(question_fields(w, no_chinese, pinyin, translations))
}

/// Joins strings with single spaces.
fn join_strings(parts: &Vec<String>) -> (r: String)
    ensures
        r@ == join_with_spaces(parts@.map_values(|p: String| p@)),
{
    let mut out = String::new();
    let mut i: usize = 0;
    proof {
        reveal_strlit(" ");
        assert(parts@.take(0).map_values(|p: String| p@) =~= Seq::<Seq<char>>::empty());
    }
    while i < parts.len()
        invariant
            i <= parts@.len(),
            out@ == join_with_spaces(parts@.take(i as int).map_values(|p: String| p@)),
        decreases parts@.len() - i,
    {
        let ghost before = parts@.take(i as int).map_values(|p: String| p@);
        let ghost after = parts@.take(i + 1).map_values(|p: String| p@);
        assert(after.drop_last() =~= before);
        assert(after.len() == i + 1 && after.last() == parts@[i as int]@);
        let ghost prev = out@;
        proof {
            reveal_strlit(" ");
            assert(" "@ =~= seq![' ']);
        }
        if i > 0 {
            out.append(" ");
        }
        out.append(parts[i].as_str());
        i = i + 1;
        proof {
            if before.len() == 0 {
                assert(out@ =~= after[0]);
            } else {
                assert(out@ =~= prev + seq![' '] + after.last());
            }
        }
    }
    assert(parts@.take(parts@.len() as int) =~= parts@);
    out
}

/// Builds the question for a word: the characters (unless `no_chinese`), the
/// transcription (if `pinyin`) and the translations (if `translations`),
/// separated by single spaces.
pub fn render_question_string(
    hsk_word: HskWord,
    no_chinese: &bool,
    pinyin: &bool,
    translations: &bool,
) -> (r: String)
    ensures
        r@ == question_text(hsk_word@, *no_chinese, *pinyin, *translations),
{
    let ghost w = hsk_word@;
    let mut question_string: Vec<String> = Vec::new();
    if !(*no_chinese) {
        question_string.push(hsk_word.chinese);
    }
    if *pinyin {
        question_string.push(hsk_word.pinyin);
    }
    if *translations {
        question_string.push(hsk_word.translations);
    }
    assert(question_string@.map_values(|p: String| p@) =~= question_fields(
        w,
        *no_chinese,
        *pinyin,
        *translations,
    ));
    join_strings(&question_string)
}


/// With no field hidden or added, the question is the characters alone.
pub proof fn lemma_question_chinese_only(w: WordView)
    ensures
        question_text(w, false, false, false) == w.chinese,
{
    assert(question_fields(w, false, false, false) =~= seq![w.chinese]);
}

/// With the characters hidden and only the transcription shown, the question
/// is the transcription alone.
pub proof fn lemma_question_pinyin_only(w: WordView)
    ensures
        question_text(w, true, true, false) == w.pinyin,
{
    assert(question_fields(w, true, true, false) =~= seq![w.pinyin]);
}

/// With the characters hidden and both other fields shown, the question is
/// the transcription and the translations separated by a space.
pub proof fn lemma_question_pinyin_and_translations(w: WordView)
    ensures
        question_text(w, true, true, true) == w.pinyin + seq![' '] + w.translations,
{
    let fields = question_fields(w, true, true, true);
    assert(fields =~= seq![w.pinyin, w.translations]);
    assert(fields.drop_last() =~= seq![w.pinyin]);
    assert(join_with_spaces(fields.drop_last()) == w.pinyin);
    assert(fields.last() == w.translations);
}

/// Joining non-empty fields, at least one, gives non-empty text.
pub proof fn lemma_join_nonempty(fields: Seq<Seq<char>>)
    requires
        fields.len() > 0,
        forall|i: int| 0 <= i < fields.len() ==> (#[trigger] fields[i]).len() > 0,
    ensures
        join_with_spaces(fields).len() > 0,
    decreases fields.len(),
{
    if fields.len() > 1 {
        lemma_join_nonempty(fields.drop_last());
    }
}

/// A line of the static listing: the full record, preceded by the word's
/// number and a space when `numbers` is set.
pub open spec fn listing_line(w: WordView, numbers: bool) -> Seq<char> {
    if numbers {
        decimal(w.number as nat) + seq![' '] + full_text(w)
    } else {
        full_text(w)
    }
}

/// One line of the static listing.
pub fn listing_line_string(w: &HskWord, numbers: bool) -> (r: String)
    ensures
        r@ == listing_line(w@, numbers),
{
    if numbers {
        let mut s = decimal_string(w.number);
        proof {
            reveal_strlit(" ");
        }
        s.append(" ");
        s.append(w.full_string().as_str());
        s
    } else {
        w.full_string()
    }
}

/// The static listing of a selection: one line per word, in order. Listing
/// always shows the full record, whatever the quiz options.
pub fn list_hsk_words(hsk_words: &Vec<HskWord>, numbers: bool) -> (r: Vec<String>)
    ensures
        r@.len() == hsk_words@.len(),
        forall|i: int| 0 <= i < r@.len() ==> #[trigger] r@[i]@ == listing_line(hsk_words@[i]@, numbers),
{
    let mut lines: Vec<String> = Vec::new();
    let mut i: usize = 0;
    while i < hsk_words.len()
        invariant
            i <= hsk_words@.len(),
            lines@.len() == i,
            forall|j: int| 0 <= j < i ==> #[trigger] lines@[j]@ == listing_line(hsk_words@[j]@, numbers),
        decreases hsk_words@.len() - i,
    {
        lines.push(listing_line_string(&hsk_words[i], numbers));
        i = i + 1;
    }
    lines
}

} // verus!
