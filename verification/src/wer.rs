use crate::seqs::{lemma_filter_take_step, views};
use crate::text::{
    chars_of, is_alphanumeric_char, is_whitespace_char, lowercase_of, push_chars, string_of,
};
use vstd::prelude::*;

verus! {

/// The predicate that holds of the characters that normalising keeps:
/// letters, numbers and whitespace.
pub open spec fn is_word_char() -> spec_fn(char) -> bool {
    |c: char| is_alphanumeric_char(c) || is_whitespace_char(c)
}

/// Reading `s` from the left: the words completed so far, and the
/// characters of the word in progress.
pub open spec fn scan_words(s: Seq<char>) -> (Seq<Seq<char>>, Seq<char>)
    decreases s.len(),
{
    if s.len() == 0 {
        (Seq::empty(), Seq::empty())
    } else {
        let (done, current) = scan_words(s.drop_last());
        if is_whitespace_char(s.last()) {
            if current.len() > 0 {
                (done.push(current), Seq::empty())
            } else {
                (done, current)
            }
        } else {
            (done, current.push(s.last()))
        }
    }
}

/// The words of `s`: its maximal runs of characters that are not whitespace, in order.
pub open spec fn words_of(s: Seq<char>) -> Seq<Seq<char>> {
    let (done, current) = scan_words(s);
    if current.len() > 0 {
        done.push(current)
    } else {
        done
    }
}

/// The words joined by single spaces.
pub open spec fn joined(words: Seq<Seq<char>>) -> Seq<char>
    decreases words.len(),
{
    if words.len() == 0 {
        Seq::empty()
    } else if words.len() == 1 {
        words[0]
    } else {
        joined(words.drop_last()) + seq![' '] + words.last()
    }
}

/// The words of a text, normalised for comparison: lower case, without
/// punctuation.
pub open spec fn normalized_words(text: Seq<char>) -> Seq<Seq<char>> {
    words_of(lowercase_of(text).filter(is_word_char()))
}

/// A text normalised for comparison: lower case, without punctuation, the
/// words separated by single spaces.
pub open spec fn normalized_text(text: Seq<char>) -> Seq<char> {
    joined(normalized_words(text))
}

/// The smallest of three numbers.
pub open spec fn min3(a: nat, b: nat, c: nat) -> nat {
    if a <= b && a <= c {
        a
    } else if b <= c {
        b
    } else {
        c
    }
}

/// The edit distance between two sequences of words: the least number of
/// insertions, deletions and substitutions of a word that turn one into
/// the other.
pub open spec fn edit_distance(a: Seq<Seq<char>>, b: Seq<Seq<char>>) -> nat
    decreases a.len() + b.len(),
{
    if a.len() == 0 {
        b.len()
    } else if b.len() == 0 {
        a.len()
    } else {
        min3(
            edit_distance(a.drop_last(), b) + 1,
            edit_distance(a, b.drop_last()) + 1,
            edit_distance(a.drop_last(), b.drop_last()) + if a.last() == b.last() {
                0nat
            } else {
                1nat
            },
        )
    }
}

/// The edit distance is no more than the length of the longer sequence.
pub proof fn lemma_edit_distance_bound(a: Seq<Seq<char>>, b: Seq<Seq<char>>)
    ensures
        edit_distance(a, b) <= if a.len() >= b.len() {
            a.len()
        } else {
            b.len()
        },
    decreases a.len() + b.len(),
{
    if a.len() > 0 && b.len() > 0 {
        lemma_edit_distance_bound(a.drop_last(), b.drop_last());
    }
}

/// Each word that is complete is followed by whitespace, so the words
/// completed and the word in progress fit in the text twice over.
proof fn lemma_scan_bound(s: Seq<char>)
    ensures
        2 * scan_words(s).0.len() + scan_words(s).1.len() <= s.len(),
    decreases s.len(),
{
    if s.len() > 0 {
        lemma_scan_bound(s.drop_last());
    }
}

/// Splits a text into its words.
fn split_words(chars: &Vec<char>) -> (words: Vec<String>)
    ensures
        views(words@) == words_of(chars@),
        words@.len() < usize::MAX,
{
    let mut words: Vec<String> = Vec::new();
    let mut current: Vec<char> = Vec::new();
    let mut i: usize = 0;
    proof {
        assert(views(words@) =~= Seq::<Seq<char>>::empty());
    }
    while i < chars.len()
        invariant
            i <= chars.len(),
            views(words@) == scan_words(chars@.take(i as int)).0,
            current@ == scan_words(chars@.take(i as int)).1,
        decreases chars.len() - i,
    {
        let ghost before = views(words@);
        proof {
            assert(chars@.take(i as int + 1).drop_last() =~= chars@.take(i as int));
        }
        if chars[i].is_whitespace() {
            if current.len() > 0 {
                let word = string_of(&current);
                words.push(word);
                current = Vec::new();
                proof {
                    assert(views(words@) =~= before.push(word@));
                }
            }
        } else {
            current.push(chars[i]);
        }
        i += 1;
    }
    proof {
        assert(chars@.take(chars@.len() as int) =~= chars@);
        lemma_scan_bound(chars@);
    }
    if current.len() > 0 {
        let ghost before = views(words@);
        let word = string_of(&current);
        words.push(word);
        proof {
            assert(views(words@) =~= before.push(word@));
        }
    }
    words
}

/// Normalises a text for comparison and splits it into words.
pub fn normalize_words(text: &str) -> (words: Vec<String>)
    ensures
        views(words@) == normalized_words(text@),
        words@.len() < usize::MAX,
{
    let lower_text = text.to_lowercase();
    let lower = chars_of(lower_text.as_str());
    let ghost keep = is_word_char();
    let mut kept: Vec<char> = Vec::new();
    let mut i: usize = 0;
    proof {
        reveal(Seq::filter);
        assert(lower@.take(0).filter(keep) =~= Seq::<char>::empty());
    }
    while i < lower.len()
        invariant
            i <= lower.len(),
            keep == is_word_char(),
            kept@ == lower@.take(i as int).filter(keep),
        decreases lower.len() - i,
    {
        proof {
            lemma_filter_take_step(lower@, keep, i as int);
        }
        let c = lower[i];
        if c.is_alphanumeric() || c.is_whitespace() {
            kept.push(c);
        }
        i += 1;
    }
    proof {
        assert(lower@.take(lower@.len() as int) =~= lower@);
    }
    split_words(&kept)
}

/// Normalises a text for comparison: lower case, punctuation removed,
/// runs of whitespace collapsed to single spaces, none at the ends.
pub fn normalize_text(text: &str) -> (normal: String)
    ensures
        normal@ == normalized_text(text@),
{
    let words = normalize_words(text);
    let ghost all = views(words@);
    let mut normal = String::new();
    let mut i: usize = 0;
    while i < words.len()
        invariant
            i <= words.len(),
            all == views(words@),
            normal@ == joined(all.take(i as int)),
        decreases words.len() - i,
    {
        proof {
            assert(all.take(i as int + 1).drop_last() =~= all.take(i as int));
            assert(all.take(i as int + 1).last() == words@[i as int]@);
            if i == 0 {
                assert(all.take(1)[0] == words@[0]@);
            }
        }
        if i > 0 {
            normal.push(' ');
        }
        let word = chars_of(words[i].as_str());
        push_chars(&mut normal, &word);
        proof {
            if i > 0 {
                assert(normal@ =~= joined(all.take(i as int)) + seq![' '] + words@[i as int]@);
            } else {
                assert(all.take(0) =~= Seq::<Seq<char>>::empty());
                assert(normal@ =~= words@[0]@);
            }
        }
        i += 1;
    }
    proof {
        assert(all.take(all.len() as int) =~= all);
    }
    normal
}

/// The word-level edit distance between a reference and a hypothesis.
pub fn levenshtein_words(ref_words: &[String], hyp_words: &[String]) -> (distance: usize)
    requires
        ref_words@.len() < usize::MAX,
        hyp_words@.len() < usize::MAX,
    ensures
        distance == edit_distance(views(ref_words@), views(hyp_words@)),
{
    let m = ref_words.len();
    let n = hyp_words.len();
    let ghost a = views(ref_words@);
    let ghost b = views(hyp_words@);
    let mut prev: Vec<usize> = Vec::new();
    let mut j: usize = 0;
    while j <= n
        invariant
            j <= n + 1,
            n < usize::MAX,
            prev@.len() == j,
            forall|k: int| 0 <= k < j ==> prev@[k] == k,
        decreases n + 1 - j,
    {
        prev.push(j);
        j += 1;
    }
    proof {
        assert(a.take(0) =~= Seq::<Seq<char>>::empty());
    }
    let mut i: usize = 1;
    while i <= m
        invariant
            1 <= i <= m + 1,
            m == ref_words@.len(),
            n == hyp_words@.len(),
            m < usize::MAX,
            n < usize::MAX,
            a == views(ref_words@),
            b == views(hyp_words@),
            prev@.len() == n + 1,
            forall|k: int| 0 <= k <= n ==> prev@[k] == edit_distance(a.take(i - 1), b.take(k)),
        decreases m + 1 - i,
    {
        let mut curr: Vec<usize> = Vec::new();
        curr.push(i);
        proof {
            assert(b.take(0) =~= Seq::<Seq<char>>::empty());
            assert(a.take(i as int).len() == i);
        }
        let mut k: usize = 1;
        while k <= n
            invariant
                1 <= k <= n + 1,
                1 <= i <= m,
                m == ref_words@.len(),
                n == hyp_words@.len(),
                m < usize::MAX,
                n < usize::MAX,
                a == views(ref_words@),
                b == views(hyp_words@),
                prev@.len() == n + 1,
                curr@.len() == k,
                forall|x: int| 0 <= x <= n ==> prev@[x] == edit_distance(a.take(i - 1), b.take(x)),
                forall|x: int| 0 <= x < k ==> curr@[x] == edit_distance(a.take(i as int), b.take(x)),
            decreases n + 1 - k,
        {
            let same = ref_words[i - 1] == hyp_words[k - 1];
            let cost: usize = if same {
                0
            } else {
                1
            };
            proof {
                let ai = a.take(i as int);
                let bk = b.take(k as int);
                assert(ai.drop_last() =~= a.take(i - 1));
                assert(bk.drop_last() =~= b.take(k - 1));
                assert(ai.last() == ref_words@[i - 1]@);
                assert(bk.last() == hyp_words@[k - 1]@);
                lemma_edit_distance_bound(a.take(i - 1), b.take(k as int));
                lemma_edit_distance_bound(a.take(i as int), b.take(k - 1));
                lemma_edit_distance_bound(a.take(i - 1), b.take(k - 1));
            }
            let up: usize = prev[k] + 1;
            let left: usize = curr[k - 1] + 1;
            let diagonal: usize = prev[k - 1] + cost;
            let mut best: usize = up;
            if left < best {
                best = left;
            }
            if diagonal < best {
                best = diagonal;
            }
            curr.push(best);
            k += 1;
        }
        prev = curr;
        i += 1;
    }
    proof {
        assert(a.take(m as int) =~= a);
        assert(b.take(n as int) =~= b);
    }
    prev[n]
}

/// How far a hypothesis is from a reference, in words. The error rate is
/// `rate_numerator / rate_denominator`; the denominator is never zero.
#[derive(Clone, Copy, Debug, PartialEq, Eq, Structural)]
pub struct WordErrorRate {
    pub rate_numerator: usize,
    pub rate_denominator: usize,
    /// The edit distance in words.
    pub edits: usize,
    /// The number of words in the reference.
    pub reference_words: usize,
}

/// The word error rate of `hypothesis` against `reference`, both
/// normalised: the edit distance over the number of reference words. An
/// empty reference has rate 0 against an empty hypothesis and rate 1, with
/// one edit for each word, against any other.
pub open spec fn word_error_rate_spec(reference: Seq<char>, hypothesis: Seq<char>)
    -> WordErrorRate {
    let r = normalized_words(reference);
    let h = normalized_words(hypothesis);
    if r.len() == 0 {
        if h.len() == 0 {
            WordErrorRate { rate_numerator: 0, rate_denominator: 1, edits: 0, reference_words: 0 }
        } else {
            WordErrorRate {
                rate_numerator: 1,
                rate_denominator: 1,
                edits: h.len() as usize,
                reference_words: 0,
            }
        }
    } else {
        WordErrorRate {
            rate_numerator: edit_distance(r, h) as usize,
            rate_denominator: r.len() as usize,
            edits: edit_distance(r, h) as usize,
            reference_words: r.len() as usize,
        }
    }
}

/// Computes the word error rate between reference and hypothesis text.
pub fn word_error_rate(reference: &str, hypothesis: &str) -> (rate: WordErrorRate)
    ensures
        rate == word_error_rate_spec(reference@, hypothesis@),
        rate.rate_denominator > 0,
{
    let ref_words = normalize_words(reference);
    let hyp_words = normalize_words(hypothesis);
    if ref_words.len() == 0 {
        return if hyp_words.len() == 0 {
            WordErrorRate { rate_numerator: 0, rate_denominator: 1, edits: 0, reference_words: 0 }
        } else {
            WordErrorRate {
                rate_numerator: 1,
                rate_denominator: 1,
                edits: hyp_words.len(),
                reference_words: 0,
            }
        };
    }
    let distance = levenshtein_words(ref_words.as_slice(), hyp_words.as_slice());
    WordErrorRate {
        rate_numerator: distance,
        rate_denominator: ref_words.len(),
        edits: distance,
        reference_words: ref_words.len(),
    }
}

/// The edits and the reference words of the pairs, added up.
pub open spec fn total_errors(pairs: Seq<(String, String)>) -> (nat, nat)
    decreases pairs.len(),
{
    if pairs.len() == 0 {
        (0, 0)
    } else {
        let (edits, words) = total_errors(pairs.drop_last());
        let last = word_error_rate_spec(pairs.last().0@, pairs.last().1@);
        ((edits + last.edits) as nat, (words + last.reference_words) as nat)
    }
}

/// `n`, or the largest `usize` where `n` is larger.
pub open spec fn capped(n: nat) -> usize {
    if n <= usize::MAX {
        n as usize
    } else {
        usize::MAX
    }
}

/// Computes the micro-averaged word error rate across pairs of reference
/// and hypothesis: all edits over all reference words, and rate 0 where
/// there is no reference word. Totals beyond `usize` are capped.
pub fn aggregate_wer(pairs: &Vec<(String, String)>) -> (rate: WordErrorRate)
    ensures
        rate.rate_denominator > 0,
        rate.edits == if total_errors(pairs@).1 == 0 {
            0
        } else {
            capped(total_errors(pairs@).0)
        },
        rate.reference_words == capped(total_errors(pairs@).1),
        rate.rate_numerator == rate.edits,
        rate.rate_denominator == if rate.reference_words == 0 {
            1
        } else {
            rate.reference_words
        },
{
    let mut total_edits: usize = 0;
    let mut total_words: usize = 0;
    let mut i: usize = 0;
    while i < pairs.len()
        invariant
            i <= pairs.len(),
            total_edits == capped(total_errors(pairs@.take(i as int)).0),
            total_words == capped(total_errors(pairs@.take(i as int)).1),
        decreases pairs.len() - i,
    {
        proof {
            assert(pairs@.take(i as int + 1).drop_last() =~= pairs@.take(i as int));
        }
        let rate = word_error_rate(pairs[i].0.as_str(), pairs[i].1.as_str());
        total_edits = if total_edits <= usize::MAX - rate.edits {
            total_edits + rate.edits
        } else {
            usize::MAX
        };
        total_words = if total_words <= usize::MAX - rate.reference_words {
            total_words + rate.reference_words
        } else {
            usize::MAX
        };
        i += 1;
    }
    proof {
        assert(pairs@.take(pairs@.len() as int) =~= pairs@);
    }
    if total_words == 0 {
        return WordErrorRate {
            rate_numerator: 0,
            rate_denominator: 1,
            edits: 0,
            reference_words: 0,
        };
    }
    WordErrorRate {
        rate_numerator: total_edits,
        rate_denominator: total_words,
        edits: total_edits,
        reference_words: total_words,
    }
}

} // verus!
