use vstd::prelude::*;
use rand::seq::SliceRandom;
use crate::word::HskWord;

verus! {

/// Whether a word of `level` passes the level filter. No filter, or an empty
/// one, lets every level through.
pub open spec fn level_selected(levels: Option<Seq<u8>>, level: u8) -> bool {
    match levels {
        None => true,
        Some(ls) => ls.len() == 0 || ls.contains(level),
    }
}

/// The view of an optional level list.
pub open spec fn levels_view(levels: &Option<Vec<u8>>) -> Option<Seq<u8>> {
    match levels {
        None => None,
        Some(v) => Some(v@),
    }
}

/// The words that pass the level filter, in the order given.
pub open spec fn filtered(words: Seq<HskWord>, levels: Option<Seq<u8>>) -> Seq<HskWord> {
    words.filter(|w: HskWord| level_selected(levels, w.level))
}

/// The numbers of a sequence of words, in order.
pub open spec fn numbers_of(words: Seq<HskWord>) -> Seq<u32> {
    words.map_values(|w: HskWord| w.number)
}

/// Decides whether a word of `level` passes the level filter.
pub fn is_level_selected(levels: &Option<Vec<u8>>, level: u8) -> (r: bool)
    ensures
        r == level_selected(levels_view(levels), level),
{
    match levels {
        None => true,
        Some(ls) => {
            if ls.len() == 0 {
                return true;
            }
            let mut i: usize = 0;
            while i < ls.len()
                invariant
                    i <= ls@.len(),
                    levels_view(levels) == Some(ls@),
                    forall|j: int| 0 <= j < i ==> ls@[j] != level,
                decreases ls@.len() - i,
            {
                if ls[i] == level {
                    assert(ls@[i as int] == level);
                    assert(ls@.contains(level));
                    return true;
                }
                i = i + 1;
            }
            false
        },
    }
}

/// Keeps the words whose level is in `levels`, in the order given.
/// With no filter, or an empty one, every word is kept.
pub fn filter_by_levels(words: &Vec<HskWord>, levels: &Option<Vec<u8>>) -> (r: Vec<HskWord>)
    ensures
        r@ == filtered(words@, levels_view(levels)),
{
    let ghost pred = |w: HskWord| level_selected(levels_view(levels), w.level);
    let mut out: Vec<HskWord> = Vec::new();
    let mut i: usize = 0;
    proof {
        assert(words@.take(0) =~= Seq::<HskWord>::empty());
        reveal(Seq::filter);
    }
    while i < words.len()
        invariant
            i <= words@.len(),
            pred == (|w: HskWord| level_selected(levels_view(levels), w.level)),
            out@ == words@.take(i as int).filter(pred),
        decreases words@.len() - i,
    {
        proof {
            assert(words@.take(i + 1) =~= words@.take(i as int).push(words@[i as int]));
            words@.take(i as int).lemma_filter_push(words@[i as int], pred);
        }
        if is_level_selected(levels, words[i].level) {
            out.push(words[i].duplicate());
        }
        i = i + 1;
    }
    assert(words@.take(words@.len() as int) =~= words@);
    out
}

/// Relies on rand's `SliceRandom::shuffle` with the generator of
/// `rand::thread_rng`: it reorders the slice by swaps only, so the result
/// holds the same words. (`thread_rng` panics only when the operating
/// system's random source cannot be read.)
#[verifier::external_body]
fn shuffle_in_place(words: &mut Vec<HskWord>)
    ensures
        final(words)@.to_multiset() == old(words)@.to_multiset(),
{
    let mut rng = rand::thread_rng();
    words.shuffle(&mut rng);
}

/// Puts the words in a random order. The result is a permutation of the
/// input: same length, same words, and the same multiset of numbers.
pub fn shuffle_words(words: &mut Vec<HskWord>)
    ensures
        final(words)@.len() == old(words)@.len(),
        final(words)@.to_multiset() == old(words)@.to_multiset(),
        numbers_of(final(words)@).to_multiset() == numbers_of(old(words)@).to_multiset(),
{
    let ghost before = words@;
    shuffle_in_place(words);
    proof {
        lemma_permutation_keeps_numbers(before, words@);
    }
}

/// Two sequences with the same multiset of elements have the same length
/// and the same multiset of anything computed from each element.
pub proof fn lemma_permutation_keeps_numbers(a: Seq<HskWord>, b: Seq<HskWord>)
    requires
        a.to_multiset() == b.to_multiset(),
    ensures
        a.len() == b.len(),
        numbers_of(a).to_multiset() == numbers_of(b).to_multiset(),
    decreases a.len(),
{
    broadcast use vstd::seq_lib::group_to_multiset_ensures;
    broadcast use vstd::multiset::group_multiset_axioms;

    vstd::seq_lib::to_multiset_len(a);
    vstd::seq_lib::to_multiset_len(b);
    if a.len() == 0 {
        assert(numbers_of(a) =~= Seq::<u32>::empty());
        assert(numbers_of(b) =~= Seq::<u32>::empty());
    } else {
        let x = a.last();
        let rest = a.drop_last();
        assert(a =~= rest.push(x));
        vstd::seq_lib::to_multiset_build(rest, x);
        assert(a.to_multiset().count(x) > 0);
        assert(b.contains(x));
        let j = choose|j: int| 0 <= j < b.len() && b[j] == x;
        let b2 = b.remove(j);
        vstd::seq_lib::to_multiset_remove(b, j);
        assert(rest.to_multiset() =~= a.to_multiset().remove(x));
        lemma_permutation_keeps_numbers(rest, b2);
        assert(numbers_of(a) =~= numbers_of(rest).push(x.number));
        vstd::seq_lib::to_multiset_build(numbers_of(rest), x.number);
        assert(numbers_of(b) =~= numbers_of(b2).insert(j, x.number));
        vstd::seq_lib::to_multiset_insert(numbers_of(b2), j, x.number);
    }
}

proof fn lemma_filter_within<A>(s: Seq<A>, pred: spec_fn(A) -> bool)
    ensures
        forall|i: int| 0 <= i < s.filter(pred).len() ==> s.contains(#[trigger] s.filter(pred)[i]),
    decreases s.len(),
{
    reveal(Seq::filter);
    if s.len() > 0 {
        let rest = s.drop_last();
        lemma_filter_within(rest, pred);
        assert forall|i: int| 0 <= i < s.filter(pred).len() implies s.contains(
            #[trigger] s.filter(pred)[i],
        ) by {
            let f = s.filter(pred);
            if i < rest.filter(pred).len() {
                let x = rest.filter(pred)[i];
                assert(f[i] == x);
                assert(rest.contains(x));
                let k = choose|k: int| 0 <= k < rest.len() && rest[k] == x;
                assert(s[k] == x);
            } else {
                assert(f[i] == s.last());
                assert(s[s.len() - 1] == s.last());
            }
        }
    }
}

/// Without a level filter the selection is the whole list, in the same order.
pub proof fn lemma_no_filter_keeps_all(words: Seq<HskWord>)
    ensures
        filtered(words, None) == words,
    decreases words.len(),
{
    reveal(Seq::filter);
    if words.len() > 0 {
        lemma_no_filter_keeps_all(words.drop_last());
        assert(words.drop_last().push(words.last()) =~= words);
    }
}

/// With a non-empty level filter, every selected word has one of the
/// requested levels and is a word of the input.
pub proof fn lemma_filter_selects_levels(words: Seq<HskWord>, levels: Seq<u8>)
    requires
        levels.len() > 0,
    ensures
        forall|i: int|
            0 <= i < filtered(words, Some(levels)).len() ==> {
                let w = #[trigger] filtered(words, Some(levels))[i];
                levels.contains(w.level) && words.contains(w)
            },
{
    let pred = |w: HskWord| level_selected(Some(levels), w.level);
    lemma_filter_within(words, pred);
    assert forall|i: int| 0 <= i < filtered(words, Some(levels)).len() implies {
        let w = #[trigger] filtered(words, Some(levels))[i];
        levels.contains(w.level) && words.contains(w)
    } by {
        words.lemma_filter_pred(pred, i);
    }
}

} // verus!
