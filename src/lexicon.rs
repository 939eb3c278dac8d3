use vstd::prelude::*;

verus! {

/// What `str::to_lowercase` returns for a text.
pub uninterp spec fn lower_of(s: Seq<char>) -> Seq<char>;

/// The characters with the Unicode White_Space property, as
/// `char::is_whitespace` tells them.
pub open spec fn is_white(c: char) -> bool {
    ||| '\t' <= c <= '\r'
    ||| c == ' '
    ||| c == '\u{85}'
    ||| c == '\u{A0}'
    ||| c == '\u{1680}'
    ||| '\u{2000}' <= c <= '\u{200A}'
    ||| c == '\u{2028}'
    ||| c == '\u{2029}'
    ||| c == '\u{202F}'
    ||| c == '\u{205F}'
    ||| c == '\u{3000}'
}

/// The words of a text: its maximal runs of characters that are not
/// white space, in order.
pub open spec fn words_of(s: Seq<char>) -> Seq<Seq<char>>
    decreases s.len(),
{
    if s.len() == 0 {
        seq![]
    } else if is_white(s.last()) {
        words_of(s.drop_last())
    } else if s.len() >= 2 && !is_white(s[s.len() - 2]) {
        let w = words_of(s.drop_last());
        w.update(w.len() - 1, w.last().push(s.last()))
    } else {
        words_of(s.drop_last()).push(seq![s.last()])
    }
}

/// Relies on `str::to_lowercase`: the lowercase form depends on the text alone.
#[verifier::external_body]
fn lowercase(s: &str) -> (r: String)
    ensures
        r@ == lower_of(s@),
{
    s.to_lowercase()
}

/// Relies on `str::split_whitespace`: the runs of characters that are not
/// `char::is_whitespace`, in order, none of them empty.
#[verifier::external_body]
fn words(s: &str) -> (r: Vec<String>)
    ensures
        r@.len() == words_of(s@).len(),
        forall|i: int| 0 <= i < r@.len() ==> r@[i]@ == words_of(s@)[i],
{
    s.split_whitespace().map(|w| w.to_string()).collect()
}

/// The characters of each string.
pub open spec fn texts(v: Seq<String>) -> Seq<Seq<char>> {
    v.map_values(|s: String| s@)
}

/// Some word equals some term of the lexicon, exactly.
pub open spec fn token_hit(ws: Seq<Seq<char>>, lexicon: Seq<String>) -> bool {
    exists|i: int, k: int| 0 <= i < ws.len() && 0 <= k < lexicon.len() && ws[i] == lexicon[k]@
}

/// A message hits the lexicon when one of the whitespace-separated words of
/// its lowercase form is a term of the lexicon. Terms are whole words: a word
/// that merely contains a term is no hit. Terms are compared as given, so a
/// lexicon holds its terms in lowercase; a term with capitals never matches.
pub open spec fn message_hit(message: Seq<char>, lexicon: Seq<String>) -> bool {
    token_hit(words_of(lower_of(message)), lexicon)
}

/// Tells whether `word` is a term of the lexicon.
pub fn in_lexicon(word: &String, lexicon: &Vec<String>) -> (r: bool)
    ensures
        r == exists|k: int| 0 <= k < lexicon@.len() && word@ == lexicon@[k]@,
{
    let mut k: usize = 0;
    while k < lexicon.len()
        invariant
            k <= lexicon@.len(),
            forall|j: int| 0 <= j < k ==> word@ != lexicon@[j]@,
        decreases lexicon@.len() - k,
    {
        if *word == lexicon[k] {
            return true;
        }
        k = k + 1;
    }
    false
}

/// Tells whether one of `words` is a term of the lexicon.
pub fn words_hit(words: &Vec<String>, lexicon: &Vec<String>) -> (r: bool)
    ensures
        r == token_hit(texts(words@), lexicon@),
{
    let mut i: usize = 0;
    while i < words.len()
        invariant
            i <= words@.len(),
            forall|j: int, k: int|
                0 <= j < i && 0 <= k < lexicon@.len() ==> words@[j]@ != lexicon@[k]@,
        decreases words@.len() - i,
    {
        if in_lexicon(&words[i], lexicon) {
            assert(texts(words@)[i as int] == words@[i as int]@);
            return true;
        }
        i = i + 1;
    }
    proof {
        if token_hit(texts(words@), lexicon@) {
            let (a, b) = choose|a: int, b: int|
                0 <= a < texts(words@).len() && 0 <= b < lexicon@.len() && texts(words@)[a]
                    == lexicon@[b]@;
            assert(texts(words@)[a] == words@[a]@);
        }
    }
    false
}

/// Tells whether a commit message hits the lexicon (whose terms are
/// expected in lowercase).
pub fn message_hits(message: &str, lexicon: &Vec<String>) -> (r: bool)
    ensures
        r == message_hit(message@, lexicon@),
{
    let lower = lowercase(message);
    let ws = words(lower.as_str());
    assert(texts(ws@) =~= words_of(lower_of(message@)));
    words_hit(&ws, lexicon)
}

/// A message hits the lexicon exactly when one whole word of its lowercase
/// form, split at whitespace, equals a term; a word that only contains a
/// term, such as `solidity-like` for `solidity`, does not count.
pub proof fn lemma_hit_is_whole_word(message: Seq<char>, lexicon: Seq<String>)
    ensures
        message_hit(message, lexicon) <==> exists|i: int, k: int|
            0 <= i < words_of(lower_of(message)).len() && 0 <= k < lexicon.len()
                && words_of(lower_of(message))[i] == lexicon[k]@,
{
}

} // verus!
