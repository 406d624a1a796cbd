//! The word-boundary splitting transform on identifiers.

use vstd::prelude::*;
use vstd::string::*;

verus! {

/// True of a character that can end a word: an ASCII lowercase letter or digit.
pub open spec fn is_word_end(c: char) -> bool {
    ||| 'a' as u32 <= c as u32 && c as u32 <= 'z' as u32
    ||| '0' as u32 <= c as u32 && c as u32 <= '9' as u32
}

/// True of a character that can start a word: an ASCII uppercase letter.
pub open spec fn is_word_start(c: char) -> bool {
    'A' as u32 <= c as u32 && c as u32 <= 'Z' as u32
}

/// A word boundary lies between a lowercase letter or digit and an
/// uppercase letter that follows it directly.
pub open spec fn is_boundary(prev: char, cur: char) -> bool {
    is_word_end(prev) && is_word_start(cur)
}

/// The split of an identifier: exactly one space inserted at every word
/// boundary, every other character pair left untouched.
pub open spec fn split_spec(s: Seq<char>) -> Seq<char>
    decreases s.len(),
{
    if s.len() <= 1 {
        s
    } else if is_boundary(s[s.len() - 2], s.last()) {
        split_spec(s.drop_last()) + seq![' ', s.last()]
    } else {
        split_spec(s.drop_last()) + seq![s.last()]
    }
}

/// The number of word boundaries between adjacent character pairs of `s`.
pub open spec fn boundary_count(s: Seq<char>) -> nat
    decreases s.len(),
{
    if s.len() <= 1 {
        0
    } else if is_boundary(s[s.len() - 2], s.last()) {
        boundary_count(s.drop_last()) + 1
    } else {
        boundary_count(s.drop_last())
    }
}

/// Splitting a non-empty sequence keeps its last character in place.
pub proof fn lemma_split_last(s: Seq<char>)
    requires
        s.len() > 0,
    ensures
        split_spec(s).len() > 0,
        split_spec(s).last() == s.last(),
{
}

/// The split inserts exactly one character per word boundary and keeps
/// everything else: its length is the input's length plus the boundary count.
pub proof fn lemma_split_len(s: Seq<char>)
    ensures
        split_spec(s).len() == s.len() + boundary_count(s),
    decreases s.len(),
{
    if s.len() <= 1 {
    } else {
        lemma_split_len(s.drop_last());
    }
}

/// A sequence without any word boundary — a single word, an acronym, or an
/// already-split string — is returned unchanged.
pub proof fn lemma_split_identity(s: Seq<char>)
    requires
        forall|j: int| 0 < j < s.len() ==> !(#[trigger] is_boundary(s[j - 1], s[j])),
    ensures
        split_spec(s) == s,
    decreases s.len(),
{
    if s.len() <= 1 {
    } else {
        assert forall|j: int| 0 < j < s.drop_last().len() implies !(#[trigger] is_boundary(
            s.drop_last()[j - 1],
            s.drop_last()[j],
        )) by {
            assert(s.drop_last()[j - 1] == s[j - 1]);
            assert(s.drop_last()[j] == s[j]);
            assert(!is_boundary(s[j - 1], s[j]));
        }
        lemma_split_identity(s.drop_last());
        assert(!is_boundary(s[s.len() - 2], s[s.len() - 1]));
        assert(split_spec(s) =~= s);
    }
}

/// No word boundary is left between adjacent characters of a split result:
/// the inserted space breaks the pair it stands in, and a space is neither a
/// word end nor a word start.
pub proof fn lemma_split_no_boundary(s: Seq<char>)
    ensures
        forall|j: int|
            0 < j < split_spec(s).len() ==> !(#[trigger] is_boundary(
                split_spec(s)[j - 1],
                split_spec(s)[j],
            )),
    decreases s.len(),
{
    if s.len() <= 1 {
    } else {
        lemma_split_no_boundary(s.drop_last());
        lemma_split_last(s.drop_last());
        let rest = split_spec(s.drop_last());
        let out = split_spec(s);
        assert(s.drop_last().last() == s[s.len() - 2]);
        assert forall|j: int| 0 < j < out.len() implies !(#[trigger] is_boundary(
            out[j - 1],
            out[j],
        )) by {
            if j < rest.len() {
                assert(out[j - 1] == rest[j - 1]);
                assert(out[j] == rest[j]);
                assert(!is_boundary(rest[j - 1], rest[j]));
            } else if is_boundary(s[s.len() - 2], s.last()) {
                assert(out =~= rest + seq![' ', s.last()]);
                if j == rest.len() {
                    assert(out[j - 1] == rest.last());
                    assert(out[j] == ' ');
                    assert(!is_word_start(' '));
                } else {
                    assert(out[j - 1] == ' ');
                    assert(!is_word_end(' '));
                }
            } else {
                assert(out =~= rest + seq![s.last()]);
                assert(j == rest.len());
                assert(out[j - 1] == rest.last());
                assert(out[j] == s.last());
                assert(rest.last() == s[s.len() - 2]);
            }
        }
    }
}

/// The splitting transform is idempotent: a second application finds no
/// boundary left and returns its input unchanged.
pub proof fn lemma_split_idempotent(s: Seq<char>)
    ensures
        split_spec(split_spec(s)) == split_spec(s),
{
    lemma_split_no_boundary(s);
    lemma_split_identity(split_spec(s));
}

/// The characters of `s` that are not spaces, in order.
pub open spec fn strip_spaces(s: Seq<char>) -> Seq<char>
    decreases s.len(),
{
    if s.len() == 0 {
        Seq::<char>::empty()
    } else if s.last() == ' ' {
        strip_spaces(s.drop_last())
    } else {
        strip_spaces(s.drop_last()).push(s.last())
    }
}

/// The split inserts spaces and changes nothing else: erasing every space
/// from the split result erases exactly the spaces of the input.
pub proof fn lemma_split_inserts_only_spaces(s: Seq<char>)
    ensures
        strip_spaces(split_spec(s)) == strip_spaces(s),
    decreases s.len(),
{
    if s.len() <= 1 {
    } else {
        lemma_split_inserts_only_spaces(s.drop_last());
        let rest = split_spec(s.drop_last());
        if is_boundary(s[s.len() - 2], s.last()) {
            let t = rest + seq![' ', s.last()];
            assert(split_spec(s) == t);
            assert(t.len() > 0 && t.last() == s.last());
            assert(t.drop_last() =~= rest + seq![' ']);
            assert((rest + seq![' ']).len() > 0 && (rest + seq![' ']).last() == ' ');
            assert((rest + seq![' ']).drop_last() =~= rest);
            assert(strip_spaces(rest + seq![' ']) == strip_spaces(rest));
            if s.last() == ' ' {
                assert(strip_spaces(t) == strip_spaces(rest + seq![' ']));
                assert(strip_spaces(s) == strip_spaces(s.drop_last()));
            } else {
                assert(strip_spaces(t) == strip_spaces(rest + seq![' ']).push(s.last()));
                assert(strip_spaces(s) == strip_spaces(s.drop_last()).push(s.last()));
            }
        } else {
            let t = rest + seq![s.last()];
            assert(split_spec(s) == t);
            assert(t.len() > 0 && t.last() == s.last());
            assert(t.drop_last() =~= rest);
            if s.last() == ' ' {
                assert(strip_spaces(t) == strip_spaces(rest));
                assert(strip_spaces(s) == strip_spaces(s.drop_last()));
            } else {
                assert(strip_spaces(t) == strip_spaces(rest).push(s.last()));
                assert(strip_spaces(s) == strip_spaces(s.drop_last()).push(s.last()));
            }
        }
    }
}

/// A sequence without spaces is its own space-free subsequence.
pub proof fn lemma_strip_spaces_identity(s: Seq<char>)
    requires
        forall|j: int| 0 <= j < s.len() ==> s[j] != ' ',
    ensures
        strip_spaces(s) == s,
    decreases s.len(),
{
    if s.len() == 0 {
    } else {
        assert forall|j: int| 0 <= j < s.drop_last().len() implies s.drop_last()[j] != ' ' by {
            assert(s.drop_last()[j] == s[j]);
        }
        lemma_strip_spaces_identity(s.drop_last());
        assert(s.last() != ' ');
        assert(strip_spaces(s) =~= s);
    }
}

/// An identifier without spaces comes back exactly when the inserted
/// spaces are erased from its split.
pub proof fn lemma_split_round_trip(s: Seq<char>)
    requires
        forall|j: int| 0 <= j < s.len() ==> s[j] != ' ',
    ensures
        strip_spaces(split_spec(s)) == s,
{
    lemma_split_inserts_only_spaces(s);
    lemma_strip_spaces_identity(s);
}

/// Decides the word-boundary predicate on two adjacent characters.
pub fn check_boundary(prev: char, cur: char) -> (r: bool)
    ensures
        r == is_boundary(prev, cur),
{
    let p = prev as u32;
    let c = cur as u32;
    (('a' as u32 <= p && p <= 'z' as u32) || ('0' as u32 <= p && p <= '9' as u32)) && ('A' as u32
        <= c && c <= 'Z' as u32)
}

/// Splits a compact identifier into space-separated words.
pub fn split_words(s: &str) -> (r: String)
    ensures
        r@ == split_spec(s@),
{
    let n = s.unicode_len();
    let mut out = String::new();
    let mut i: usize = 0;
    proof {
        assert(s@.take(0) =~= Seq::<char>::empty());
    }
    while i < n
        invariant
            n == s@.len(),
            i <= n,
            out@ == split_spec(s@.take(i as int)),
        decreases n - i,
    {
        if i > 0 && check_boundary(s.get_char(i - 1), s.get_char(i)) {
            out.append(" ");
        }
        let piece = s.substring_char(i, i + 1);
        out.append(piece);
        proof {
            reveal_strlit(" ");
            let t = s@.take(i + 1);
            assert(t.drop_last() =~= s@.take(i as int));
            assert(t.last() == s@[i as int]);
            assert(s@.subrange(i as int, i + 1) =~= seq![s@[i as int]]);
            if i > 0 {
                assert(t[t.len() - 2] == s@[i - 1]);
                if is_boundary(s@[i - 1], s@[i as int]) {
                    assert(out@ =~= split_spec(s@.take(i as int)) + seq![' ', s@[i as int]]);
                } else {
                    assert(out@ =~= split_spec(s@.take(i as int)) + seq![s@[i as int]]);
                }
            } else {
                assert(t.len() == 1);
                assert(out@ =~= t);
            }
        }
        i = i + 1;
    }
    proof {
        assert(s@.take(n as int) =~= s@);
    }
    out
}

/// Splits each identifier of a list into space-separated words, keeping
/// order and length.
pub fn splitted_variants_names(names: &Vec<String>) -> (r: Vec<String>)
    ensures
        r@.len() == names@.len(),
        forall|i: int| 0 <= i < names@.len() ==> (#[trigger] r@[i])@ == split_spec(names@[i]@),
{
    let mut r: Vec<String> = Vec::new();
    let mut i: usize = 0;
    while i < names.len()
        invariant
            i <= names@.len(),
            r@.len() == i,
            forall|k: int| 0 <= k < i ==> (#[trigger] r@[k])@ == split_spec(names@[k]@),
        decreases names@.len() - i,
    {
        r.push(split_words(names[i].as_str()));
        i = i + 1;
    }
    r
}

} // verus!
