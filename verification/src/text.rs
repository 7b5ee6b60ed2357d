//! Text handling for command lines: character classes, trimming, splitting a
//! line into words, joining words again, and comparing strings.
//!
//! Every function is specified over the sequence of characters of its
//! argument, so the contracts read the same for `&str` and `String`.

use vstd::prelude::*;
use vstd::string::StringSliceAdditionalSpecFns;

verus! {

/// The five characters that separate words on a command line:
/// space, tab, line feed, form feed and carriage return.
pub open spec fn is_ascii_space(c: char) -> bool {
    c == ' ' || c == '\t' || c == '\n' || c == '\x0C' || c == '\r'
}

/// A character with the Unicode property `White_Space`.
pub open spec fn is_space(c: char) -> bool {
    ('\t' <= c && c <= '\r') || c == ' ' || c == '\u{85}' || c == '\u{A0}' || c == '\u{1680}' || (
    '\u{2000}' <= c && c <= '\u{200A}') || c == '\u{2028}' || c == '\u{2029}' || c == '\u{202F}'
        || c == '\u{205F}' || c == '\u{3000}'
}

/// The views of a sequence of string slices.
pub open spec fn texts(words: Seq<&str>) -> Seq<Seq<char>> {
    words.map_values(|w: &str| w@)
}

/// The views of a sequence of owned strings.
pub open spec fn lines(items: Seq<String>) -> Seq<Seq<char>> {
    items.map_values(|w: String| w@)
}

/// Length of the longest prefix of `s` that holds no separator.
pub open spec fn word_len(s: Seq<char>) -> nat
    decreases s.len(),
{
    if s.len() == 0 || is_ascii_space(s[0]) {
        0
    } else {
        1 + word_len(s.drop_first())
    }
}

/// The words of `s`: its maximal runs of characters that are not separators,
/// in the order in which they occur.
pub open spec fn tokens(s: Seq<char>) -> Seq<Seq<char>>
    decreases s.len(),
    via tokens_terminates
{
    if s.len() == 0 {
        Seq::empty()
    } else if is_ascii_space(s[0]) {
        tokens(s.drop_first())
    } else {
        seq![s.take(word_len(s) as int)] + tokens(s.skip(word_len(s) as int))
    }
}

#[via_fn]
proof fn tokens_terminates(s: Seq<char>) {
    lemma_word_len_bounds(s);
}

/// `s` without the white space at its start.
pub open spec fn trim_start(s: Seq<char>) -> Seq<char>
    decreases s.len(),
{
    if s.len() > 0 && is_space(s[0]) {
        trim_start(s.drop_first())
    } else {
        s
    }
}

/// `s` without the white space at its end.
pub open spec fn trim_end(s: Seq<char>) -> Seq<char>
    decreases s.len(),
{
    if s.len() > 0 && is_space(s.last()) {
        trim_end(s.drop_last())
    } else {
        s
    }
}

/// `s` without the white space at either end.
pub open spec fn trimmed(s: Seq<char>) -> Seq<char> {
    trim_end(trim_start(s))
}

/// The words written one after another with a single space between
/// neighbours; nothing before the first or after the last.
pub open spec fn joined(words: Seq<Seq<char>>) -> Seq<char>
    decreases words.len(),
{
    if words.len() == 0 {
        Seq::empty()
    } else if words.len() == 1 {
        words[0]
    } else {
        joined(words.drop_last()) + seq![' '] + words.last()
    }
}

/// A word as the tokenizer produces it: not empty, and free of separators.
pub open spec fn is_word(w: Seq<char>) -> bool {
    w.len() > 0 && forall|i: int| 0 <= i < w.len() ==> !is_ascii_space(#[trigger] w[i])
}

/// A word never reaches past the end of the text, and is not empty where the
/// text starts with a character that is no separator.
pub proof fn lemma_word_len_bounds(s: Seq<char>)
    ensures
        word_len(s) <= s.len(),
        s.len() > 0 && !is_ascii_space(s[0]) ==> word_len(s) >= 1,
        forall|i: int| 0 <= i < word_len(s) ==> !is_ascii_space(#[trigger] s[i]),
        word_len(s) < s.len() ==> is_ascii_space(s[word_len(s) as int]),
    decreases s.len(),
{
    if s.len() > 0 && !is_ascii_space(s[0]) {
        let rest = s.drop_first();
        lemma_word_len_bounds(rest);
        assert forall|i: int| 0 <= i < word_len(s) implies !is_ascii_space(#[trigger] s[i]) by {
            if i > 0 {
                assert(s[i] == rest[i - 1]);
            }
        }
    }
}

/// A run of `n` characters without separator that ends at a separator or at
/// the end of the text is the first word of the text.
pub proof fn lemma_word_len_is(s: Seq<char>, n: int)
    requires
        0 <= n <= s.len(),
        forall|i: int| 0 <= i < n ==> !is_ascii_space(#[trigger] s[i]),
        n < s.len() ==> is_ascii_space(s[n]),
    ensures
        word_len(s) == n,
    decreases n,
{
    if n > 0 {
        lemma_word_len_is(s.drop_first(), n - 1);
    }
}

/// Whether `c` separates words.
pub fn ascii_space(c: char) -> (b: bool)
    ensures
        b == is_ascii_space(c),
{
    c == ' ' || c == '\t' || c == '\n' || c == '\x0C' || c == '\r'
}

/// Whether `c` is white space.
pub fn space(c: char) -> (b: bool)
    ensures
        b == is_space(c),
{
    ('\t' <= c && c <= '\r') || c == ' ' || c == '\u{85}' || c == '\u{A0}' || c == '\u{1680}' || (
    '\u{2000}' <= c && c <= '\u{200A}') || c == '\u{2028}' || c == '\u{2029}' || c == '\u{202F}'
        || c == '\u{205F}' || c == '\u{3000}'
}

/// The characters of `s`, in order.
pub fn chars_of(s: &str) -> (v: Vec<char>)
    ensures
        v@ == s@,
{
    let mut v: Vec<char> = Vec::new();
    let all = s.chars();
    for c in it: all
        invariant
            it.seq() == s@,
            v@ == it.seq().take(it.index()),
    {
        v.push(c);
    }
    v
}

/// Whether two strings hold the same characters.
pub fn str_eq(a: &str, b: &str) -> (same: bool)
    ensures
        same == (a@ == b@),
{
    let x = a.as_bytes();
    let y = b.as_bytes();
    proof {
        vstd::utf8::encode_utf8_decode_utf8(a@);
        vstd::utf8::encode_utf8_decode_utf8(b@);
    }
    if x.len() != y.len() {
        return false;
    }
    let n: usize = x.len();
    let mut i: usize = 0;
    while i < n
        invariant
            i <= n,
            n == x@.len(),
            n == y@.len(),
            x@ == a.spec_bytes(),
            y@ == b.spec_bytes(),
            forall|k: int| 0 <= k < i ==> x@[k] == y@[k],
        decreases n - i,
    {
        if x[i] != y[i] {
            return false;
        }
        i += 1;
    }
    assert(x@ =~= y@);
    true
}

/// Splits a line into its words.
///
/// Words are separated by runs of space, tab, line feed, form feed and
/// carriage return; no other character has a special meaning. A line without
/// any other character has no words.
pub fn tokenize<'a>(line: &'a str) -> (words: Vec<&'a str>)
    ensures
        texts(words@) == tokens(line@),
{
    let chars = chars_of(line);
    let n: usize = chars.len();
    let mut words: Vec<&'a str> = Vec::new();
    let mut i: usize = 0;
    assert(line@.skip(0) =~= line@);
    while i < n
        invariant
            i <= n,
            n == line@.len(),
            chars@ == line@,
            tokens(line@) == texts(words@) + tokens(line@.skip(i as int)),
        decreases n - i,
    {
        let ghost tail = line@.skip(i as int);
        if ascii_space(chars[i]) {
            assert(tail.drop_first() =~= line@.skip(i + 1));
            i += 1;
        } else {
            let start: usize = i;
            while i < n && !ascii_space(chars[i])
                invariant
                    start <= i <= n,
                    n == line@.len(),
                    chars@ == line@,
                    forall|k: int| start <= k < i ==> !is_ascii_space(#[trigger] line@[k]),
                decreases n - i,
            {
                i += 1;
            }
            let word = line.substring_char(start, i);
            proof {
                lemma_word_len_is(tail, i - start);
                assert(tail.take(i - start) =~= word@);
                assert(tail.skip(i - start) =~= line@.skip(i as int));
            }
            words.push(word);
        }
    }
    words
}

/// Removes the white space at both ends of a line.
///
/// White space is every character with the Unicode property `White_Space`,
/// which includes the line terminator that a line read from a terminal ends
/// with.
pub fn trim<'a>(line: &'a str) -> (core: &'a str)
    ensures
        core@ == trimmed(line@),
{
    let chars = chars_of(line);
    let n: usize = chars.len();
    let mut a: usize = 0;
    assert(line@.skip(0) =~= line@);
    while a < n && space(chars[a as usize])
        invariant
            a <= n,
            n == line@.len(),
            chars@ == line@,
            trim_start(line@) == trim_start(line@.skip(a as int)),
        decreases n - a,
    {
        assert(line@.skip(a as int).drop_first() =~= line@.skip(a + 1));
        a += 1;
    }
    let mut b: usize = n;
    while b > a && space(chars[b - 1])
        invariant
            a <= b <= n,
            n == line@.len(),
            chars@ == line@,
            trimmed(line@) == trim_end(line@.subrange(a as int, b as int)),
        decreases b,
    {
        assert(line@.subrange(a as int, b as int).drop_last() =~= line@.subrange(
            a as int,
            b - 1,
        ));
        b -= 1;
    }
    line.substring_char(a, b)
}

/// Writes the words one after another, with a single space between
/// neighbours.
pub fn join_words(words: &[&str]) -> (line: String)
    ensures
        line@ == joined(texts(words@)),
{
    let mut line = String::new();
    let n: usize = words.len();
    let mut i: usize = 0;
    while i < n
        invariant
            i <= n,
            n == words@.len(),
            line@ == joined(texts(words@).take(i as int)),
        decreases n - i,
    {
        if i > 0 {
            line.append(" ");
        }
        line.append(words[i]);
        proof {
            reveal_strlit(" ");
            let all = texts(words@);
            assert(all.take(i + 1).drop_last() =~= all.take(i as int));
        }
        i += 1;
    }
    assert(texts(words@).take(n as int) =~= texts(words@));
    line
}

/// Whether every character of `s` separates words.
pub open spec fn is_blank(s: Seq<char>) -> bool {
    forall|i: int| 0 <= i < s.len() ==> is_ascii_space(#[trigger] s[i])
}

/// A text has no words exactly when it consists of separators alone; the
/// empty text is one such.
pub proof fn lemma_blank_has_no_tokens(s: Seq<char>)
    ensures
        is_blank(s) <==> tokens(s).len() == 0,
    decreases s.len(),
{
    if s.len() > 0 && is_ascii_space(s[0]) {
        let rest = s.drop_first();
        lemma_blank_has_no_tokens(rest);
        if is_blank(rest) {
            assert forall|i: int| 0 <= i < s.len() implies is_ascii_space(#[trigger] s[i]) by {
                if i > 0 {
                    assert(s[i] == rest[i - 1]);
                }
            }
        }
    }
}

/// Every word of a text is a word: it is not empty and holds no separator.
pub proof fn lemma_tokens_are_words(s: Seq<char>)
    ensures
        forall|k: int| 0 <= k < tokens(s).len() ==> is_word(#[trigger] tokens(s)[k]),
    decreases s.len(),
{
    if s.len() == 0 {
    } else if is_ascii_space(s[0]) {
        lemma_tokens_are_words(s.drop_first());
        assert(tokens(s) == tokens(s.drop_first()));
    } else {
        let n = word_len(s) as int;
        lemma_word_len_bounds(s);
        lemma_tokens_are_words(s.skip(n));
        assert forall|k: int| 0 <= k < tokens(s).len() implies is_word(#[trigger] tokens(s)[k]) by {
            if k > 0 {
                assert(tokens(s)[k] == tokens(s.skip(n))[k - 1]);
            }
        }
    }
}

/// Separators at the start of a text carry no word.
pub proof fn lemma_tokens_after_gap(gap: Seq<char>, right: Seq<char>)
    requires
        is_blank(gap),
    ensures
        tokens(gap + right) == tokens(right),
    decreases gap.len(),
{
    if gap.len() > 0 {
        let rest = gap.drop_first();
        assert((gap + right).drop_first() =~= rest + right);
        lemma_tokens_after_gap(rest, right);
    }
}

/// The words of two texts with separators between them are the words of
/// the first followed by the words of the second.
pub proof fn lemma_tokens_around_gap(left: Seq<char>, gap: Seq<char>, right: Seq<char>)
    requires
        is_blank(gap),
        gap.len() > 0,
    ensures
        tokens(left + gap + right) == tokens(left) + tokens(right),
    decreases left.len(),
{
    let all = left + gap + right;
    if left.len() == 0 {
        lemma_tokens_after_gap(gap, right);
    } else if is_ascii_space(left[0]) {
        assert(all.drop_first() =~= left.drop_first() + gap + right);
        lemma_tokens_around_gap(left.drop_first(), gap, right);
    } else {
        let n = word_len(left) as int;
        lemma_word_len_bounds(left);
        assert(word_len(all) == n) by {
            lemma_word_len_is(all, n);
        }
        assert(all.take(n) =~= left.take(n));
        assert(all.skip(n) =~= left.skip(n) + gap + right);
        lemma_tokens_around_gap(left.skip(n), gap, right);
    }
}

/// How many separators stand between two words is of no account, as long
/// as there is one.
pub proof fn lemma_gap_length_is_immaterial(
    left: Seq<char>,
    gap: Seq<char>,
    other_gap: Seq<char>,
    right: Seq<char>,
)
    requires
        is_blank(gap),
        gap.len() > 0,
        is_blank(other_gap),
        other_gap.len() > 0,
    ensures
        tokens(left + gap + right) == tokens(left + other_gap + right),
{
    lemma_tokens_around_gap(left, gap, right);
    lemma_tokens_around_gap(left, other_gap, right);
}

/// A word is its own and only word.
pub proof fn lemma_tokens_of_word(word: Seq<char>)
    requires
        is_word(word),
    ensures
        tokens(word) == seq![word],
{
    lemma_word_len_is(word, word.len() as int);
    assert(word.take(word.len() as int) =~= word);
    assert(word.skip(word.len() as int) =~= Seq::<char>::empty());
    assert(tokens(Seq::<char>::empty()) =~= Seq::<Seq<char>>::empty());
}

/// Joining words and splitting the result gives the words back.
pub proof fn lemma_tokens_of_joined(words: Seq<Seq<char>>)
    requires
        forall|k: int| 0 <= k < words.len() ==> is_word(#[trigger] words[k]),
    ensures
        tokens(joined(words)) == words,
    decreases words.len(),
{
    if words.len() == 1 {
        lemma_tokens_of_word(words[0]);
    } else if words.len() > 1 {
        let front = words.drop_last();
        lemma_tokens_of_joined(front);
        lemma_tokens_around_gap(joined(front), seq![' '], words.last());
        lemma_tokens_of_word(words.last());
    }
}

/// Splitting a line, joining its words and splitting again changes nothing:
/// only the amount of white space between the words is lost.
pub proof fn lemma_join_keeps_tokens(s: Seq<char>)
    ensures
        tokens(joined(tokens(s))) == tokens(s),
{
    lemma_tokens_are_words(s);
    lemma_tokens_of_joined(tokens(s));
}

/// Trimming leaves nothing of a text that is white space throughout, and
/// otherwise a text that starts and ends with a character that is no white
/// space, so that it has at least one word.
pub proof fn lemma_trimmed_ends(s: Seq<char>)
    ensures
        (forall|i: int| 0 <= i < s.len() ==> is_space(#[trigger] s[i])) <==> trimmed(s).len() == 0,
        trimmed(s).len() > 0 ==> !is_space(trimmed(s)[0]) && !is_space(trimmed(s).last())
            && tokens(trimmed(s)).len() > 0,
{
    lemma_trim_start(s);
    lemma_trim_end(trim_start(s));
    let t = trimmed(s);
    if t.len() > 0 {
        lemma_blank_has_no_tokens(t);
    }
}

/// What `trim_start` leaves is the end of the text from its first character
/// that is no white space.
pub proof fn lemma_trim_start(s: Seq<char>)
    ensures
        trim_start(s).len() <= s.len(),
        trim_start(s) == s.skip(s.len() - trim_start(s).len()),
        forall|i: int| 0 <= i < s.len() - trim_start(s).len() ==> is_space(#[trigger] s[i]),
        trim_start(s).len() > 0 ==> !is_space(trim_start(s)[0]),
    decreases s.len(),
{
    if s.len() > 0 && is_space(s[0]) {
        let rest = s.drop_first();
        lemma_trim_start(rest);
        assert forall|i: int| 0 <= i < s.len() - trim_start(s).len() implies is_space(
            #[trigger] s[i],
        ) by {
            if i > 0 {
                assert(s[i] == rest[i - 1]);
            }
        }
    }
}

/// What `trim_end` leaves is the start of the text up to its last character
/// that is no white space.
pub proof fn lemma_trim_end(s: Seq<char>)
    ensures
        trim_end(s).len() <= s.len(),
        trim_end(s) == s.take(trim_end(s).len() as int),
        forall|i: int| trim_end(s).len() <= i < s.len() ==> is_space(#[trigger] s[i]),
        trim_end(s).len() > 0 ==> !is_space(trim_end(s).last()),
    decreases s.len(),
{
    if s.len() > 0 && is_space(s.last()) {
        let rest = s.drop_last();
        lemma_trim_end(rest);
        assert forall|i: int| trim_end(s).len() <= i < s.len() implies is_space(#[trigger] s[i]) by {
            if i < s.len() - 1 {
                assert(s[i] == rest[i]);
            }
        }
    }
}

} // verus!
