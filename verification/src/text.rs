//! Character-level helpers shared by the field parsers: comparison, search,
//! splitting on a separator, case folding and decimal numbers.

use vstd::prelude::*;
use vstd::utf8::{encode_utf8, encode_utf8_decode_utf8};

verus! {

/// Copies the characters of `s` into a vector.
pub fn to_chars(s: &str) -> (r: Vec<char>)
    ensures
        r@ == s@,
{
    let mut out: Vec<char> = Vec::new();
    for c in it: s.chars()
        invariant
            it.seq() == s@,
            out@ == it.seq().take(it.index()),
    {
        out.push(c);
    }
    out
}

/// The characters of `s` from position `from` up to, not including, `to`.
pub fn piece(s: &str, from: usize, to: usize) -> (r: String)
    requires
        from <= to <= s@.len(),
    ensures
        r@ == s@.subrange(from as int, to as int),
{
    s.substring_char(from, to).to_owned()
}

/// Whether `a` and `b` hold the same characters.
pub fn same(a: &str, b: &str) -> (r: bool)
    ensures
        r == (a@ == b@),
{
    let x = a.as_bytes();
    let y = b.as_bytes();
    proof {
        encode_utf8_decode_utf8(a@);
        encode_utf8_decode_utf8(b@);
    }
    if x.len() != y.len() {
        return false;
    }
    let mut i: usize = 0;
    while i < x.len()
        invariant
            x@ == encode_utf8(a@),
            y@ == encode_utf8(b@),
            x@.len() == y@.len(),
            i <= x@.len(),
            forall|j: int| 0 <= j < i ==> x@[j] == y@[j],
        decreases x.len() - i,
    {
        if x[i] != y[i] {
            return false;
        }
        i += 1;
    }
    assert(x@ =~= y@);
    true
}

/// Whether `chars` spells `word`.
pub fn spells(chars: &Vec<char>, word: &str) -> (r: bool)
    ensures
        r == (chars@ == word@),
{
    let other = to_chars(word);
    if chars.len() != other.len() {
        return false;
    }
    let mut i: usize = 0;
    while i < chars.len()
        invariant
            other@ == word@,
            chars@.len() == other@.len(),
            i <= chars@.len(),
            forall|j: int| 0 <= j < i ==> chars@[j] == other@[j],
        decreases chars.len() - i,
    {
        if chars[i] != other[i] {
            return false;
        }
        i += 1;
    }
    assert(chars@ =~= other@);
    true
}

/// `word` stands in `s` at position `i`.
pub open spec fn occurs_at(word: Seq<char>, s: Seq<char>, i: int) -> bool {
    &&& 0 <= i
    &&& i + word.len() <= s.len()
    &&& s.subrange(i, i + word.len()) == word
}

/// `word` stands somewhere in `s`.
pub open spec fn occurs(word: Seq<char>, s: Seq<char>) -> bool {
    exists|i: int| occurs_at(word, s, i)
}

/// Whether `word` stands in `s` at position `at`.
pub fn stands_at(word: &Vec<char>, s: &Vec<char>, at: usize) -> (r: bool)
    ensures
        r == occurs_at(word@, s@, at as int),
{
    if word.len() > s.len() || at > s.len() - word.len() {
        return false;
    }
    let mut k: usize = 0;
    while k < word.len()
        invariant
            at + word.len() <= s.len(),
            k <= word.len(),
            forall|j: int| 0 <= j < k ==> s@[at + j] == word@[j],
        decreases word.len() - k,
    {
        if s[at + k] != word[k] {
            return false;
        }
        k += 1;
    }
    assert(s@.subrange(at as int, at + word@.len()) =~= word@);
    true
}

/// Whether `s` begins with `word`.
pub fn begins_with(s: &str, word: &str) -> (r: bool)
    ensures
        r == occurs_at(word@, s@, 0),
{
    let chars = to_chars(s);
    let letters = to_chars(word);
    stands_at(&letters, &chars, 0)
}

/// Whether `word` stands somewhere in `s`.
pub fn holds(s: &str, word: &str) -> (r: bool)
    ensures
        r == occurs(word@, s@),
{
    let chars = to_chars(s);
    let letters = to_chars(word);
    if letters.len() > chars.len() {
        return false;
    }
    let last: usize = chars.len() - letters.len();
    let mut i: usize = 0;
    loop
        invariant
            chars@ == s@,
            letters@ == word@,
            last == chars@.len() - letters@.len(),
            i <= last,
            forall|j: int| 0 <= j < i ==> !occurs_at(word@, s@, j),
        decreases last - i,
    {
        if stands_at(&letters, &chars, i) {
            return true;
        }
        if i == last {
            return false;
        }
        i += 1;
    }
}

/// Whether `c` stands in `s`.
pub fn has_char(s: &str, c: char) -> (r: bool)
    ensures
        r == s@.contains(c),
{
    let chars = to_chars(s);
    let mut i: usize = 0;
    while i < chars.len()
        invariant
            chars@ == s@,
            i <= chars@.len(),
            forall|j: int| 0 <= j < i ==> chars@[j] != c,
        decreases chars.len() - i,
    {
        if chars[i] == c {
            return true;
        }
        i += 1;
    }
    false
}

/// The pieces of `s` between the occurrences of `sep`, in order. A sequence
/// without `sep` is one piece; each `sep` ends a piece and begins the next,
/// which may be empty.
pub open spec fn split(s: Seq<char>, sep: char) -> Seq<Seq<char>>
    decreases s.len(),
{
    if s.len() == 0 {
        seq![Seq::<char>::empty()]
    } else {
        let before = split(s.drop_last(), sep);
        if s.last() == sep {
            before.push(Seq::<char>::empty())
        } else {
            before.drop_last().push(before.last().push(s.last()))
        }
    }
}

/// A split has at least one piece.
pub proof fn lemma_split_nonempty(s: Seq<char>, sep: char)
    ensures
        split(s, sep).len() >= 1,
    decreases s.len(),
{
    if s.len() > 0 {
        lemma_split_nonempty(s.drop_last(), sep);
    }
}

/// A sequence without the separator is its own single piece.
pub proof fn lemma_split_plain(s: Seq<char>, sep: char)
    requires
        !s.contains(sep),
    ensures
        split(s, sep) == seq![s],
    decreases s.len(),
{
    if s.len() == 0 {
        assert(s =~= Seq::<char>::empty());
    } else {
        let head = s.drop_last();
        assert forall|c: char| head.contains(c) implies s.contains(c) by {
            let i = choose|i: int| 0 <= i < head.len() && head[i] == c;
            assert(s[i] == c);
        }
        lemma_split_plain(head, sep);
        assert(seq![head].drop_last().push(seq![head].last().push(s.last())) =~= seq![s]) by {
            assert(head.push(s.last()) =~= s);
        }
    }
}

/// Splitting `a`, a separator and `b` in a row gives the pieces of `a`
/// followed by the pieces of `b`.
pub proof fn lemma_split_concat(a: Seq<char>, b: Seq<char>, sep: char)
    ensures
        split(a + seq![sep] + b, sep) == split(a, sep) + split(b, sep),
    decreases b.len(),
{
    let whole = a + seq![sep] + b;
    if b.len() == 0 {
        assert(whole.drop_last() =~= a);
    } else {
        let shorter = b.drop_last();
        lemma_split_concat(a, shorter, sep);
        lemma_split_nonempty(shorter, sep);
        assert(whole.drop_last() =~= a + seq![sep] + shorter);
    }
}

/// No piece of a split holds the separator.
pub proof fn lemma_split_pieces_plain(s: Seq<char>, sep: char)
    ensures
        forall|k: int|
            0 <= k < split(s, sep).len() ==> !(#[trigger] split(s, sep)[k]).contains(sep),
    decreases s.len(),
{
    if s.len() > 0 {
        lemma_split_pieces_plain(s.drop_last(), sep);
        lemma_split_nonempty(s.drop_last(), sep);
        let before = split(s.drop_last(), sep);
        if s.last() != sep {
            let grown = before.last().push(s.last());
            assert(!grown.contains(sep)) by {
                if grown.contains(sep) {
                    let i = choose|i: int| 0 <= i < grown.len() && grown[i] == sep;
                    assert(before.last()[i] == sep);
                }
            }
        }
    }
}

/// Splits `s` at each occurrence of `sep`.
pub fn split_text(s: &str, sep: char) -> (parts: Vec<String>)
    ensures
        parts.deep_view() == split(s@, sep),
{
    let chars = to_chars(s);
    let mut parts: Vec<String> = Vec::new();
    let mut start: usize = 0;
    let mut i: usize = 0;
    assert(s@.subrange(0, 0) =~= Seq::<char>::empty());
    while i < chars.len()
        invariant
            chars@ == s@,
            start <= i <= chars.len(),
            split(s@.take(i as int), sep) == parts.deep_view().push(
                s@.subrange(start as int, i as int),
            ),
        decreases chars.len() - i,
    {
        let ghost current = s@.subrange(start as int, i as int);
        assert(s@.take(i + 1).drop_last() =~= s@.take(i as int));
        if chars[i] == sep {
            parts.push(piece(s, start, i));
            start = i + 1;
            assert(s@.subrange(start as int, i + 1) =~= Seq::<char>::empty());
        } else {
            assert(current.push(s@[i as int]) =~= s@.subrange(start as int, i + 1));
        }
        i += 1;
    }
    assert(s@.take(i as int) =~= s@);
    parts.push(piece(s, start, i));
    parts
}

/// `c` with an upper-case ASCII letter replaced by its lower-case form.
pub open spec fn lower_char(c: char) -> char {
    if 'A' <= c && c <= 'Z' {
        ((c as u8) + 32) as char
    } else {
        c
    }
}

/// `s` with each upper-case ASCII letter replaced by its lower-case form.
pub open spec fn ascii_lower(s: Seq<char>) -> Seq<char> {
    Seq::new(s.len(), |i: int| lower_char(s[i]))
}

/// Folds the upper-case ASCII letters of `chars` to lower case.
pub fn to_ascii_lower(chars: &Vec<char>) -> (r: Vec<char>)
    ensures
        r@ == ascii_lower(chars@),
{
    let mut out: Vec<char> = Vec::new();
    let mut i: usize = 0;
    while i < chars.len()
        invariant
            i <= chars.len(),
            out@.len() == i,
            forall|j: int| 0 <= j < i ==> out@[j] == lower_char(chars@[j]),
        decreases chars.len() - i,
    {
        let c = chars[i];
        if 'A' <= c && c <= 'Z' {
            out.push(((c as u8) + 32) as char);
        } else {
            out.push(c);
        }
        i += 1;
    }
    out
}

/// `c` is one of the ten ASCII digits.
pub open spec fn is_digit(c: char) -> bool {
    '0' <= c && c <= '9'
}

/// The number that the ASCII digit `c` stands for.
pub open spec fn digit_value(c: char) -> nat {
    (c as u8 - 48) as nat
}

/// Every character of `s` is an ASCII digit.
pub open spec fn all_digits(s: Seq<char>) -> bool {
    forall|i: int| 0 <= i < s.len() ==> is_digit(#[trigger] s[i])
}

/// The number that the digits `s` spell in base ten; 0 for no digits.
pub open spec fn decimal_value(s: Seq<char>) -> nat
    decreases s.len(),
{
    if s.len() == 0 {
        0
    } else {
        decimal_value(s.drop_last()) * 10 + digit_value(s.last())
    }
}

/// The digits of a number spell at least as much as any of their beginnings.
pub proof fn lemma_decimal_value_grows(s: Seq<char>, k: int)
    requires
        0 <= k <= s.len(),
    ensures
        decimal_value(s.take(k)) <= decimal_value(s),
    decreases s.len() - k,
{
    if k == s.len() {
        assert(s.take(k) =~= s);
    } else {
        lemma_decimal_value_grows(s, k + 1);
        assert(s.take(k + 1).drop_last() =~= s.take(k));
    }
}

/// Whether the characters of `chars` from position `from` on are all digits.
pub fn digits_from(chars: &Vec<char>, from: usize) -> (r: bool)
    requires
        from <= chars.len(),
    ensures
        r == all_digits(chars@.skip(from as int)),
{
    let mut i: usize = from;
    while i < chars.len()
        invariant
            from <= i <= chars.len(),
            forall|j: int| from <= j < i ==> is_digit(chars@[j]),
        decreases chars.len() - i,
    {
        let c = chars[i];
        if !('0' <= c && c <= '9') {
            assert(chars@.skip(from as int)[i - from] == c);
            return false;
        }
        i += 1;
    }
    assert forall|j: int| 0 <= j < chars@.skip(from as int).len() implies is_digit(
        #[trigger] chars@.skip(from as int)[j],
    ) by {
        assert(chars@.skip(from as int)[j] == chars@[from + j]);
    }
    true
}

/// The number spelt by the digits of `chars` from position `from` on, where
/// it is at most `max`.
pub fn decimal_from(chars: &Vec<char>, from: usize, max: u128) -> (r: Option<u128>)
    requires
        from <= chars.len(),
        all_digits(chars@.skip(from as int)),
    ensures
        r == (if decimal_value(chars@.skip(from as int)) <= max {
            Some(decimal_value(chars@.skip(from as int)) as u128)
        } else {
            None
        }),
{
    let ghost digits = chars@.skip(from as int);
    let mut acc: u128 = 0;
    let mut i: usize = from;
    while i < chars.len()
        invariant
            from <= i <= chars.len(),
            digits == chars@.skip(from as int),
            all_digits(digits),
            acc == decimal_value(digits.take(i - from)),
            acc <= max,
        decreases chars.len() - i,
    {
        let c = chars[i];
        proof {
            assert(digits[i - from] == c);
            assert(digits.take(i - from + 1).drop_last() =~= digits.take(i - from));
            lemma_decimal_value_grows(digits, i - from + 1);
        }
        let d: u128 = (c as u8 - 48) as u128;
        if d > max || acc > (max - d) / 10 {
            return None;
        }
        acc = acc * 10 + d;
        i += 1;
    }
    assert(digits.take(i - from) =~= digits);
    Some(acc)
}

/// The ASCII digit that stands for `d`, a number below ten.
pub open spec fn digit_char(d: nat) -> char {
    ((48 + d) as u8) as char
}

/// The digits that spell `n` in base ten, without leading zeros; `0` for 0.
pub open spec fn digits_of(n: nat) -> Seq<char>
    decreases n,
{
    if n < 10 {
        seq![digit_char(n)]
    } else {
        digits_of(n / 10).push(digit_char(n % 10))
    }
}

/// The digits that spell a number are one or more digits, and spell it.
pub proof fn lemma_digits_spell_their_number(n: nat)
    ensures
        digits_of(n).len() > 0,
        all_digits(digits_of(n)),
        decimal_value(digits_of(n)) == n,
    decreases n,
{
    if n < 10 {
        reveal_with_fuel(decimal_value, 2);
        assert(seq![digit_char(n)].drop_last() =~= Seq::<char>::empty());
    } else {
        lemma_digits_spell_their_number(n / 10);
        let head = digits_of(n / 10);
        let all = head.push(digit_char(n % 10));
        assert(all.drop_last() =~= head);
        assert forall|i: int| 0 <= i < all.len() implies is_digit(#[trigger] all[i]) by {
            if i < head.len() {
                assert(all[i] == head[i]);
            }
        }
    }
}

/// The one-letter text of the digit that stands for `d`.
fn digit_text(d: u8) -> (r: &'static str)
    requires
        d < 10,
    ensures
        r@ == seq![digit_char(d as nat)],
{
    proof {
        reveal_strlit("0");
        reveal_strlit("1");
        reveal_strlit("2");
        reveal_strlit("3");
        reveal_strlit("4");
        reveal_strlit("5");
        reveal_strlit("6");
        reveal_strlit("7");
        reveal_strlit("8");
        reveal_strlit("9");
    }
    match d {
        0 => "0",
        1 => "1",
        2 => "2",
        3 => "3",
        4 => "4",
        5 => "5",
        6 => "6",
        7 => "7",
        8 => "8",
        _ => "9",
    }
}

/// Writes `n` in base ten.
pub fn decimal_text(n: u128) -> (r: String)
    ensures
        r@ == digits_of(n as nat),
    decreases n,
{
    let last = digit_text((n % 10) as u8);
    if n < 10 {
        last.to_owned()
    } else {
        let mut head = decimal_text(n / 10);
        head.append(last);
        head
    }
}

} // verus!
