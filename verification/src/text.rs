//! Text building blocks: decimal numbers and splitting into fields and words.

use vstd::prelude::*;
use vstd::string::*;

verus! {

/// The character that stands for the decimal digit `d`.
pub open spec fn digit_char(d: int) -> char {
    if d == 0 {
        '0'
    } else if d == 1 {
        '1'
    } else if d == 2 {
        '2'
    } else if d == 3 {
        '3'
    } else if d == 4 {
        '4'
    } else if d == 5 {
        '5'
    } else if d == 6 {
        '6'
    } else if d == 7 {
        '7'
    } else if d == 8 {
        '8'
    } else {
        '9'
    }
}

/// The decimal notation of `n`, without sign and without leading zeros.
pub open spec fn decimal(n: nat) -> Seq<char>
    decreases n,
{
    if n < 10 {
        seq![digit_char(n as int)]
    } else {
        decimal(n / 10).push(digit_char((n % 10) as int))
    }
}

/// The one-character text of a decimal digit.
fn digit_text(d: u64) -> (text: &'static str)
    requires
        d < 10,
    ensures
        text@ == seq![digit_char(d as int)],
{
    proof {
        reveal_strlit("0");
        reveal_strlit("1");
        reveal_strlit("2");
        reveal_strlit("3");
        reveal_strlit("4");
        reveal_strlit("5");
        reveal_strlit("6");
        reveal_strlit("7");
        reveal_strlit("8");
        reveal_strlit("9");
    }
    let text: &'static str = if d == 0 {
        "0"
    } else if d == 1 {
        "1"
    } else if d == 2 {
        "2"
    } else if d == 3 {
        "3"
    } else if d == 4 {
        "4"
    } else if d == 5 {
        "5"
    } else if d == 6 {
        "6"
    } else if d == 7 {
        "7"
    } else if d == 8 {
        "8"
    } else {
        "9"
    };
    assert(text@ =~= seq![digit_char(d as int)]);
    text
}

/// Appends the decimal notation of `n` to `out`.
pub fn push_decimal(out: &mut String, n: u64)
    ensures
        final(out)@ == old(out)@ + decimal(n as nat),
    decreases n,
{
    if n >= 10 {
        push_decimal(out, n / 10);
    }
    out.append(digit_text(n % 10));
    assert(out@ =~= old(out)@ + decimal(n as nat));
}

/// The decimal notation of `n` as a string of its own.
pub fn decimal_string(n: u64) -> (text: String)
    ensures
        text@ == decimal(n as nat),
{
    let mut text = String::new();
    push_decimal(&mut text, n);
    assert(text@ =~= decimal(n as nat));
    text
}

/// The digit that the character `c` stands for; 0 for any other character.
pub open spec fn digit_value(c: char) -> nat {
    if c == '1' {
        1
    } else if c == '2' {
        2
    } else if c == '3' {
        3
    } else if c == '4' {
        4
    } else if c == '5' {
        5
    } else if c == '6' {
        6
    } else if c == '7' {
        7
    } else if c == '8' {
        8
    } else if c == '9' {
        9
    } else {
        0
    }
}

/// Whether `c` is a decimal digit.
pub open spec fn is_digit(c: char) -> bool {
    c == '0' || digit_value(c) > 0
}

/// The number that the digits of `s` denote.
pub open spec fn number_of(s: Seq<char>) -> nat
    decreases s.len(),
{
    if s.len() == 0 {
        0
    } else {
        number_of(s.drop_last()) * 10 + digit_value(s.last())
    }
}

/// The decimal notation of a number consists of digits, at least one, begins
/// with a zero only where the number is zero, and denotes the number.
pub proof fn law_decimal_reads_back(n: nat)
    ensures
        decimal(n).len() >= 1,
        forall|i: int| 0 <= i < decimal(n).len() ==> is_digit(#[trigger] decimal(n)[i]),
        decimal(n)[0] == '0' <==> n == 0,
        number_of(decimal(n)) == n,
    decreases n,
{
    if n < 10 {
        assert(decimal(n).drop_last() =~= Seq::<char>::empty());
        assert(number_of(decimal(n).drop_last()) == 0);
    } else {
        let front = decimal(n / 10);
        law_decimal_reads_back(n / 10);
        let digit = digit_char((n % 10) as int);
        assert(decimal(n) == front.push(digit));
        assert(front.push(digit).drop_last() =~= front);
        assert(digit_value(digit) == n % 10);
        assert forall|i: int| 0 <= i < decimal(n).len() implies is_digit(
            #[trigger] decimal(n)[i],
        ) by {
            if i < front.len() {
                assert(decimal(n)[i] == front[i]);
            }
        }
        assert(decimal(n)[0] == front[0]);
    }
}

/// Whether `c` is one of the five ASCII whitespace characters: space, tab,
/// line feed, form feed, carriage return.
pub open spec fn is_space(c: char) -> bool {
    c == ' ' || c == '\t' || c == '\n' || c == '\x0C' || c == '\r'
}

/// The number of characters at the front of `s` before its first whitespace
/// character: all of `s` where it holds none.
pub open spec fn word_len(s: Seq<char>) -> nat
    decreases s.len(),
{
    if s.len() == 0 || is_space(s[0]) {
        0
    } else {
        1 + word_len(s.skip(1))
    }
}

/// The words of `s`: its maximal runs of characters that are not whitespace,
/// from left to right. No word is empty.
pub open spec fn words(s: Seq<char>) -> Seq<Seq<char>>
    decreases s.len(),
{
    if s.len() == 0 {
        Seq::empty()
    } else if is_space(s[0]) {
        words(s.skip(1))
    } else {
        proof {
            lemma_word_len(s);
        }
        let n = word_len(s) as int;
        seq![s.take(n)] + words(s.skip(n))
    }
}

/// The views of a vector of strings, in order.
pub open spec fn texts(v: Seq<String>) -> Seq<Seq<char>> {
    Seq::new(v.len(), |i: int| v[i]@)
}

/// `word_len` stops at the first whitespace character or at the end.
pub proof fn lemma_word_len(s: Seq<char>)
    ensures
        word_len(s) <= s.len(),
        forall|i: int| 0 <= i < word_len(s) ==> !is_space(#[trigger] s[i]),
        word_len(s) < s.len() ==> is_space(s[word_len(s) as int]),
    decreases s.len(),
{
    if s.len() == 0 || is_space(s[0]) {
    } else {
        let rest = s.skip(1);
        lemma_word_len(rest);
        assert forall|i: int| 0 <= i < word_len(s) implies !is_space(#[trigger] s[i]) by {
            if i > 0 {
                assert(s[i] == rest[i - 1]);
            }
        }
        if word_len(s) < s.len() {
            assert(s[word_len(s) as int] == rest[word_len(rest) as int]);
        }
    }
}

/// A run of `n` characters without whitespace that ends at whitespace or at
/// the end of `s` is the run that `word_len` measures.
pub proof fn lemma_word_len_is(s: Seq<char>, n: int)
    requires
        0 <= n <= s.len(),
        forall|i: int| 0 <= i < n ==> !is_space(#[trigger] s[i]),
        n < s.len() ==> is_space(s[n]),
    ensures
        word_len(s) == n,
    decreases n,
{
    if n == 0 {
    } else {
        let rest = s.skip(1);
        assert forall|i: int| 0 <= i < n - 1 implies !is_space(#[trigger] rest[i]) by {
            assert(rest[i] == s[i + 1]);
        }
        if n - 1 < rest.len() {
            assert(rest[n - 1] == s[n]);
        }
        lemma_word_len_is(rest, n - 1);
    }
}

/// A text in which every character meets `keep` is left whole by a filter
/// on `keep`.
proof fn lemma_filter_keeps_all(s: Seq<char>, keep: spec_fn(char) -> bool)
    requires
        forall|i: int| 0 <= i < s.len() ==> keep(#[trigger] s[i]),
    ensures
        s.filter(keep) == s,
    decreases s.len(),
{
    reveal(Seq::filter);
    if s.len() > 0 {
        lemma_filter_keeps_all(s.drop_last(), keep);
        assert(s.drop_last().push(s.last()) =~= s);
    }
}

/// No word is empty and no word holds whitespace; and the words, one after
/// the other, are the text without its whitespace, so that nothing else is
/// lost and nothing is out of order.
pub proof fn law_words(s: Seq<char>)
    ensures
        forall|i: int| 0 <= i < words(s).len() ==> (#[trigger] words(s)[i]).len() > 0,
        forall|i: int, j: int|
            0 <= i < words(s).len() && 0 <= j < words(s)[i].len() ==> !is_space(
                #[trigger] words(s)[i][j],
            ),
        words(s).flatten() == s.filter(|c: char| !is_space(c)),
    decreases s.len(),
{
    let keep = |c: char| !is_space(c);
    reveal(Seq::filter);
    if s.len() == 0 {
        assert(words(s).flatten() =~= s.filter(keep));
    } else if is_space(s[0]) {
        let rest = s.skip(1);
        law_words(rest);
        assert(seq![s[0]] + rest =~= s);
        Seq::filter_distributes_over_add(seq![s[0]], rest, keep);
        let none = Seq::<char>::empty();
        none.lemma_filter_push(s[0], keep);
        assert(none.push(s[0]) =~= seq![s[0]]);
        assert(none.filter(keep) =~= none);
        assert(Seq::<char>::empty() + rest.filter(keep) =~= rest.filter(keep));
    } else {
        lemma_word_len(s);
        let n = word_len(s) as int;
        let word = s.take(n);
        let rest = s.skip(n);
        law_words(rest);
        let later = words(rest);
        assert(words(s) == seq![word] + later);
        assert forall|i: int| 0 <= i < words(s).len() implies (#[trigger] words(s)[i]).len()
            > 0 by {
            if i > 0 {
                assert(words(s)[i] == later[i - 1]);
            }
        }
        assert forall|i: int, j: int|
            0 <= i < words(s).len() && 0 <= j < words(s)[i].len() implies !is_space(
            #[trigger] words(s)[i][j],
        ) by {
            if i > 0 {
                assert(words(s)[i] == later[i - 1]);
            } else {
                assert(word[j] == s[j]);
            }
        }
        assert(word + rest =~= s);
        Seq::filter_distributes_over_add(word, rest, keep);
        assert forall|j: int| 0 <= j < word.len() implies keep(#[trigger] word[j]) by {
            assert(word[j] == s[j]);
        }
        lemma_filter_keeps_all(word, keep);
        assert((seq![word] + later).drop_first() =~= later);
        assert(words(s).flatten() =~= word + later.flatten());
    }
}

/// Whether `c` is ASCII whitespace.
pub fn is_space_char(c: char) -> (yes: bool)
    ensures
        yes == is_space(c),
{
    c == ' ' || c == '\t' || c == '\n' || c == '\x0C' || c == '\r'
}

/// Splits `s` at ASCII whitespace and returns its words in order.
pub fn split_words(s: &str) -> (out: Vec<String>)
    ensures
        texts(out@) == words(s@),
{
    let len: usize = s.unicode_len();
    let mut out: Vec<String> = Vec::new();
    let mut i: usize = 0;
    assert(s@.skip(0) =~= s@);
    assert(texts(out@) =~= Seq::empty());
    while i < len
        invariant
            len == s@.len(),
            i <= len,
            words(s@) == texts(out@) + words(s@.skip(i as int)),
        decreases len - i,
    {
        let ghost rest = s@.skip(i as int);
        if is_space_char(s.get_char(i)) {
            assert(rest.skip(1) =~= s@.skip(i + 1));
            i = i + 1;
        } else {
            let start: usize = i;
            let mut j: usize = i + 1;
            while j < len && !is_space_char(s.get_char(j))
                invariant
                    len == s@.len(),
                    start < j <= len,
                    forall|k: int| start <= k < j ==> !is_space(#[trigger] s@[k]),
                decreases len - j,
            {
                j = j + 1;
            }
            let word = String::from_str(s.substring_char(start, j));
            let ghost before = out@;
            out.push(word);
            proof {
                let n = j - start;
                assert forall|k: int| 0 <= k < n implies !is_space(#[trigger] rest[k]) by {
                    assert(rest[k] == s@[start + k]);
                }
                if n < rest.len() {
                    assert(rest[n] == s@[j as int]);
                }
                lemma_word_len_is(rest, n);
                assert(rest.take(n) =~= s@.subrange(start as int, j as int));
                assert(rest.skip(n) =~= s@.skip(j as int));
                assert(texts(out@) =~= texts(before) + seq![rest.take(n)]);
            }
            i = j;
        }
    }
    assert(s@.skip(len as int) =~= Seq::<char>::empty());
    assert(texts(out@) + Seq::<Seq<char>>::empty() =~= texts(out@));
    out
}

/// The number of characters at the front of `s` before the first `sep`: all
/// of `s` where it holds none.
pub open spec fn field_len(s: Seq<char>, sep: char) -> nat
    decreases s.len(),
{
    if s.len() == 0 || s[0] == sep {
        0
    } else {
        1 + field_len(s.skip(1), sep)
    }
}

/// The fields of `s`: what stands before, between and after the occurrences
/// of `sep`, from left to right. A text with `n` separators has `n + 1`
/// fields, some of which may be empty; the empty text has one empty field.
pub open spec fn fields(s: Seq<char>, sep: char) -> Seq<Seq<char>>
    decreases s.len(),
{
    let n = field_len(s, sep) as int;
    if n >= s.len() {
        seq![s]
    } else {
        seq![s.take(n)] + fields(s.skip(n + 1), sep)
    }
}

/// A run of `n` characters other than `sep` that ends at `sep` or at the end
/// of `s` is the run that `field_len` measures.
pub proof fn lemma_field_len_is(s: Seq<char>, sep: char, n: int)
    requires
        0 <= n <= s.len(),
        forall|i: int| 0 <= i < n ==> #[trigger] s[i] != sep,
        n < s.len() ==> s[n] == sep,
    ensures
        field_len(s, sep) == n,
    decreases n,
{
    if n == 0 {
    } else {
        let rest = s.skip(1);
        assert forall|i: int| 0 <= i < n - 1 implies #[trigger] rest[i] != sep by {
            assert(rest[i] == s[i + 1]);
        }
        if n - 1 < rest.len() {
            assert(rest[n - 1] == s[n]);
        }
        lemma_field_len_is(rest, sep, n - 1);
    }
}

/// The fields `list`, one after the other, with `sep` between each two.
pub open spec fn joined(list: Seq<Seq<char>>, sep: char) -> Seq<char>
    decreases list.len(),
{
    if list.len() == 0 {
        Seq::empty()
    } else if list.len() == 1 {
        list[0]
    } else {
        list[0] + seq![sep] + joined(list.skip(1), sep)
    }
}

/// `field_len` stops at the first separator or at the end.
pub proof fn lemma_field_len(s: Seq<char>, sep: char)
    ensures
        field_len(s, sep) <= s.len(),
        forall|i: int| 0 <= i < field_len(s, sep) ==> #[trigger] s[i] != sep,
        field_len(s, sep) < s.len() ==> s[field_len(s, sep) as int] == sep,
    decreases s.len(),
{
    if s.len() == 0 || s[0] == sep {
    } else {
        let rest = s.skip(1);
        lemma_field_len(rest, sep);
        assert forall|i: int| 0 <= i < field_len(s, sep) implies #[trigger] s[i] != sep by {
            if i > 0 {
                assert(s[i] == rest[i - 1]);
            }
        }
        if field_len(s, sep) < s.len() {
            assert(s[field_len(s, sep) as int] == rest[field_len(rest, sep) as int]);
        }
    }
}

/// A text has at least one field, no field holds the separator, and the
/// fields with the separator put back between them are the text.
pub proof fn law_fields(s: Seq<char>, sep: char)
    ensures
        fields(s, sep).len() >= 1,
        forall|i: int, j: int|
            0 <= i < fields(s, sep).len() && 0 <= j < fields(s, sep)[i].len() ==> #[trigger] fields(
                s,
                sep,
            )[i][j] != sep,
        joined(fields(s, sep), sep) == s,
    decreases s.len(),
{
    lemma_field_len(s, sep);
    let n = field_len(s, sep) as int;
    if n < s.len() {
        let first = s.take(n);
        let rest = s.skip(n + 1);
        law_fields(rest, sep);
        let later = fields(rest, sep);
        assert(fields(s, sep) == seq![first] + later);
        assert forall|i: int, j: int|
            0 <= i < fields(s, sep).len() && 0 <= j < fields(s, sep)[i].len() implies #[trigger] fields(
            s,
            sep,
        )[i][j] != sep by {
            if i > 0 {
                assert(fields(s, sep)[i] == later[i - 1]);
            } else {
                assert(first[j] == s[j]);
            }
        }
        assert((seq![first] + later).skip(1) =~= later);
        assert(first + seq![sep] + rest =~= s);
    }
}

/// Splits `s` at each `sep` and returns its fields in order.
pub fn split_fields(s: &str, sep: char) -> (out: Vec<String>)
    ensures
        texts(out@) == fields(s@, sep),
{
    let len: usize = s.unicode_len();
    let mut out: Vec<String> = Vec::new();
    let mut start: usize = 0;
    assert(s@.skip(0) =~= s@);
    assert(texts(out@) + fields(s@, sep) =~= fields(s@, sep));
    loop
        invariant_except_break
            len == s@.len(),
            start <= len,
            fields(s@, sep) == texts(out@) + fields(s@.skip(start as int), sep),
        ensures
            texts(out@) == fields(s@, sep),
        decreases len - start,
    {
        let ghost rest = s@.skip(start as int);
        let mut end: usize = start;
        while end < len && s.get_char(end) != sep
            invariant
                len == s@.len(),
                start <= end <= len,
                forall|k: int| start <= k < end ==> #[trigger] s@[k] != sep,
            decreases len - end,
        {
            end = end + 1;
        }
        let field = String::from_str(s.substring_char(start, end));
        let ghost before = out@;
        out.push(field);
        proof {
            let n = end - start;
            assert forall|k: int| 0 <= k < n implies #[trigger] rest[k] != sep by {
                assert(rest[k] == s@[start + k]);
            }
            if n < rest.len() {
                assert(rest[n] == s@[end as int]);
            }
            lemma_field_len_is(rest, sep, n);
            assert(rest.take(n) =~= s@.subrange(start as int, end as int));
            assert(texts(out@) =~= texts(before) + seq![rest.take(n)]);
            if end < len {
                assert(rest.skip(n + 1) =~= s@.skip(end + 1));
            } else {
                assert(rest.take(n) =~= rest);
            }
        }
        if end == len {
            break ;
        }
        start = end + 1;
    }
    out
}

} // verus!
