//! A pig-latin-like word transformation. The vowel set is deliberately
//! non-standard: it contains 'y' and leaves out 'e'. A word that starts
//! with a vowel is echoed whole and gets the suffix "-hay"; any other
//! non-empty word is echoed whole and gets a suffix made of a hyphen,
//! its first character, and "ay".

use vstd::prelude::*;

verus! {

/// Membership in the vowel set {a, y, u, i, o}.
pub open spec fn is_vowel(c: char) -> bool {
    c == 'a' || c == 'y' || c == 'u' || c == 'i' || c == 'o'
}

/// The suffix appended after the word, chosen by its first character.
pub open spec fn suffix_for(first: char) -> Seq<char> {
    if is_vowel(first) {
        seq!['-', 'h', 'a', 'y']
    } else {
        seq!['-', first, 'a', 'y']
    }
}

/// The whole output for a non-empty word: the word itself followed by
/// the suffix that its first character selects.
pub open spec fn transformed(w: Seq<char>) -> Seq<char>
    recommends
        w.len() > 0,
{
    w + suffix_for(w[0])
}

/// Whether `c` belongs to the vowel set.
pub fn vowel(c: char) -> (r: bool)
    ensures
        r == is_vowel(c),
{
    c == 'a' || c == 'y' || c == 'u' || c == 'i' || c == 'o'
}

/// Law: a word that starts with a vowel from {a, y, u, i, o} keeps all
/// its characters and gains the literal suffix "-hay".
pub proof fn lemma_vowel_output(w: Seq<char>)
    requires
        w.len() > 0,
        is_vowel(w[0]),
    ensures
        transformed(w) == w + seq!['-', 'h', 'a', 'y'],
{
}

/// Law: a word whose first character is a consonant (not in the vowel
/// set) keeps all its characters and gains a suffix of a hyphen, that
/// first character, and "ay".
pub proof fn lemma_consonant_output(w: Seq<char>)
    requires
        w.len() > 0,
        !is_vowel(w[0]),
    ensures
        transformed(w) == w + seq!['-', w[0], 'a', 'y'],
{
}

/// Builds the transformed word: the input characters in order, then the
/// suffix chosen by the first character. An empty word has no first
/// character to decide the suffix, so it is rejected with `None`.
pub fn transform(word: &Vec<char>) -> (r: Option<Vec<char>>)
    ensures
        match r {
            Option::None => word@.len() == 0,
            Option::Some(out) => word@.len() > 0 && out@ == transformed(word@),
        },
{
    if word.len() == 0 {
        return None;
    }
    let first = word[0];
    let mut out: Vec<char> = Vec::new();
    let mut i: usize = 0;
    while i < word.len()
        invariant
            i <= word@.len(),
            out@ == word@.take(i as int),
        decreases word@.len() - i,
    {
        proof {
            assert(word@.take(i + 1) =~= word@.take(i as int).push(word@[i as int]));
        }
        out.push(word[i]);
        i = i + 1;
    }
    proof {
        assert(word@.take(word@.len() as int) =~= word@);
    }
    out.push('-');
    if vowel(first) {
        out.push('h');
        out.push('a');
        out.push('y');
    } else {
        out.push(first);
        out.push('a');
        out.push('y');
    }
    proof {
        assert(out@ =~= transformed(word@));
    }
    Some(out)
}

} // verus!
