//! Text primitives: what the rest of the library says about strings, and the
//! functions that compute it.
//!
//! A string is modelled by the sequence of its characters.
use vstd::prelude::*;
use vstd::string::*;
use vstd::utf8::*;

verus! {

/// Appends one character. `String::push` is documented to append the given
/// `char` to the end of the string.
pub assume_specification[ String::push ](string: &mut String, ch: char)
    ensures
        final(string)@ == old(string)@.push(ch),
;

/// The Unicode `White_Space` property.
pub open spec fn whitespace(c: char) -> bool {
    ||| '\u{9}' <= c <= '\u{d}'
    ||| c == '\u{20}'
    ||| c == '\u{85}'
    ||| c == '\u{a0}'
    ||| c == '\u{1680}'
    ||| '\u{2000}' <= c <= '\u{200a}'
    ||| c == '\u{2028}'
    ||| c == '\u{2029}'
    ||| c == '\u{202f}'
    ||| c == '\u{205f}'
    ||| c == '\u{3000}'
}

/// Whether `c` is white space.
pub fn is_whitespace(c: char) -> (result: bool)
    ensures
        result == whitespace(c),
        result <==> 0x9 <= c as int <= 0xd || c as int == 0x20 || c as int == 0x85 || c as int
            == 0xa0 || c as int == 0x1680 || 0x2000 <= c as int <= 0x200a || c as int == 0x2028
            || c as int == 0x2029 || c as int == 0x202f || c as int == 0x205f || c as int == 0x3000,
{
    ('\u{9}' <= c && c <= '\u{d}') || c == '\u{20}' || c == '\u{85}' || c == '\u{a0}' || c
        == '\u{1680}' || ('\u{2000}' <= c && c <= '\u{200a}') || c == '\u{2028}' || c == '\u{2029}'
        || c == '\u{202f}' || c == '\u{205f}' || c == '\u{3000}'
}

/// The characters of a string.
pub fn characters(s: &str) -> (result: Vec<char>)
    ensures
        result@ == s@,
{
    let mut result: Vec<char> = Vec::new();
    for c in iter: s.chars()
        invariant
            iter.seq() == s@,
            result@ == s@.take(iter.index() as int),
    {
        result.push(c);
    }
    assert(s@.take(s@.len() as int) == s@);
    result
}

/// The string that `chars[from..to]` spells.
pub fn spell(chars: &Vec<char>, from: usize, to: usize) -> (result: String)
    requires
        from <= to <= chars.len(),
    ensures
        result@ == chars@.subrange(from as int, to as int),
{
    let mut result = String::new();
    let mut i: usize = from;
    while i < to
        invariant
            from <= i <= to <= chars.len(),
            result@ == chars@.subrange(from as int, i as int),
        decreases to - i,
    {
        result.push(chars[i]);
        i += 1;
    }
    result
}

/// Whether two strings hold the same characters.
pub fn same_text(a: &str, b: &str) -> (result: bool)
    ensures
        result == (a@ == b@),
{
    let left = a.as_bytes();
    let right = b.as_bytes();
    proof {
        broadcast use encode_utf8_decode_utf8;
        assert(decode_utf8(encode_utf8(a@)) == a@);
        assert(decode_utf8(encode_utf8(b@)) == b@);
    }
    if left.len() != right.len() {
        return false;
    }
    let mut i: usize = 0;
    while i < left.len()
        invariant
            i <= left.len(),
            left.len() == right.len(),
            left@ == encode_utf8(a@),
            right@ == encode_utf8(b@),
            forall|j: int| 0 <= j < i ==> left@[j] == right@[j],
        decreases left.len() - i,
    {
        if left[i] != right[i] {
            return false;
        }
        i += 1;
    }
    assert(left@ =~= right@);
    true
}


/// Where `c` first stands in `s`; the length of `s` where it does not.
pub open spec fn position(s: Seq<char>, c: char) -> int
    decreases s.len(),
{
    if s.len() == 0 || s[0] == c {
        0
    } else {
        1 + position(s.drop_first(), c)
    }
}

/// `position` is the first index at which the character stands.
pub proof fn lemma_position(s: Seq<char>, c: char)
    ensures
        0 <= position(s, c) <= s.len(),
        position(s, c) < s.len() ==> s[position(s, c)] == c,
        forall|i: int| 0 <= i < position(s, c) ==> s[i] != c,
    decreases s.len(),
{
    if s.len() != 0 && s[0] != c {
        lemma_position(s.drop_first(), c);
        assert forall|i: int| 0 <= i < position(s, c) implies s[i] != c by {
            if i > 0 {
                assert(s[i] == s.drop_first()[i - 1]);
            }
        }
    }
}

/// An index that holds `c`, with no `c` before it, is the position of `c`.
proof fn lemma_position_is(s: Seq<char>, c: char, at: int)
    requires
        0 <= at <= s.len(),
        at < s.len() ==> s[at] == c,
        forall|i: int| 0 <= i < at ==> s[i] != c,
    ensures
        position(s, c) == at,
{
    lemma_position(s, c);
    let found = position(s, c);
    if found < at {
        assert(s[found] != c);
    }
    if at < found {
        assert(s[at] != c);
    }
}

/// Finds the first `c` at or after `from`.
fn find_from(chars: &Vec<char>, from: usize, c: char) -> (result: usize)
    requires
        from <= chars.len(),
    ensures
        from <= result <= chars.len(),
        result == from + position(chars@.skip(from as int), c),
{
    let mut i: usize = from;
    while i < chars.len() && chars[i] != c
        invariant
            from <= i <= chars.len(),
            forall|j: int| from <= j < i ==> chars@[j] != c,
        decreases chars.len() - i,
    {
        i += 1;
    }
    proof {
        lemma_position_is(chars@.skip(from as int), c, i - from);
    }
    i
}

/// `s` without the white space it starts with.
pub open spec fn trimmed_start(s: Seq<char>) -> Seq<char>
    decreases s.len(),
{
    if s.len() > 0 && whitespace(s[0]) {
        trimmed_start(s.drop_first())
    } else {
        s
    }
}

/// `s` without the white space it ends with.
pub open spec fn trimmed_end(s: Seq<char>) -> Seq<char>
    decreases s.len(),
{
    if s.len() > 0 && whitespace(s.last()) {
        trimmed_end(s.drop_last())
    } else {
        s
    }
}

/// `s` without the white space around it.
pub open spec fn trimmed(s: Seq<char>) -> Seq<char> {
    trimmed_end(trimmed_start(s))
}

/// Removes the white space around a string.
pub fn trim(s: &str) -> (result: String)
    ensures
        result@ == trimmed(s@),
{
    let chars = characters(s);
    let mut from: usize = 0;
    assert(s@.skip(0) == s@);
    while from < chars.len() && is_whitespace(chars[from])
        invariant
            from <= chars.len(),
            chars@ == s@,
            trimmed_start(s@) == trimmed_start(s@.skip(from as int)),
        decreases chars.len() - from,
    {
        assert(s@.skip(from as int).drop_first() == s@.skip(from + 1));
        from += 1;
    }
    let mut to: usize = chars.len();
    assert(s@.subrange(from as int, to as int) == s@.skip(from as int));
    while from < to && is_whitespace(chars[to - 1])
        invariant
            from <= to <= chars.len(),
            chars@ == s@,
            trimmed(s@) == trimmed_end(s@.subrange(from as int, to as int)),
        decreases to - from,
    {
        assert(s@.subrange(from as int, to as int).drop_last() == s@.subrange(
            from as int,
            to - 1,
        ));
        to -= 1;
    }
    spell(&chars, from, to)
}

/// Whether nothing but white space stands in `s`.
pub fn is_blank(s: &str) -> (result: bool)
    ensures
        result == (trimmed(s@).len() == 0),
{
    let text = trim(s);
    text.as_str().is_empty()
}

/// What stands between the `c`s of `s`: one piece more than there are `c`s.
pub open spec fn pieces(s: Seq<char>, c: char) -> Seq<Seq<char>>
    decreases s.len(),
{
    let at = position(s, c);
    if at < 0 || at >= s.len() {
        seq![s]
    } else {
        seq![s.take(at)] + pieces(s.skip(at + 1), c)
    }
}

/// Splits a string at every `c`.
pub fn split(s: &str, c: char) -> (result: Vec<String>)
    ensures
        result.deep_view() == pieces(s@, c),
{
    let chars = characters(s);
    let mut result: Vec<String> = Vec::new();
    let mut from: usize = 0;
    let mut at: usize = find_from(&chars, 0, c);
    assert(s@.skip(0) == s@);
    assert(result.deep_view() + pieces(s@, c) == pieces(s@, c));
    while at < chars.len()
        invariant
            from <= at <= chars.len(),
            chars@ == s@,
            at == from + position(s@.skip(from as int), c),
            result.deep_view() + pieces(s@.skip(from as int), c) == pieces(s@, c),
        decreases chars.len() - from,
    {
        let ghost before = result.deep_view();
        let ghost rest = s@.skip(from as int);
        let piece = spell(&chars, from, at);
        assert(piece@ == rest.take(at - from));
        assert(rest.skip(at - from + 1) == s@.skip(at + 1));
        result.push(piece);
        assert(result.deep_view() == before.push(rest.take(at - from)));
        from = at + 1;
        at = find_from(&chars, from, c);
        assert(before.push(rest.take(position(rest, c))) + pieces(s@.skip(from as int), c) == before
            + pieces(rest, c));
    }
    let ghost before = result.deep_view();
    let piece = spell(&chars, from, chars.len());
    assert(piece@ == s@.skip(from as int));
    result.push(piece);
    assert(result.deep_view() == before.push(piece@));
    assert(before + seq![piece@] == before.push(piece@));
    result
}

/// What stands before and after the first `c` of `s`.
pub open spec fn halves(s: Seq<char>, c: char) -> Option<(Seq<char>, Seq<char>)> {
    let at = position(s, c);
    if at < s.len() {
        Some((s.take(at), s.skip(at + 1)))
    } else {
        None
    }
}

/// Splits a string at its first `c`.
pub fn split_once(s: &str, c: char) -> (result: Option<(String, String)>)
    ensures
        result.deep_view() == halves(s@, c),
{
    let chars = characters(s);
    let at = find_from(&chars, 0, c);
    assert(s@.skip(0) == s@);
    if at < chars.len() {
        let before = spell(&chars, 0, at);
        let after = spell(&chars, at + 1, chars.len());
        assert(before@ == s@.take(at as int));
        assert(after@ == s@.skip(at + 1));
        Some((before, after))
    } else {
        None
    }
}

/// Whether `s` starts with `prefix`.
pub open spec fn begins(s: Seq<char>, prefix: Seq<char>) -> bool {
    prefix.len() <= s.len() && s.take(prefix.len() as int) == prefix
}

/// Whether `chars` holds `pattern` at `at`.
fn stands_at(chars: &Vec<char>, at: usize, pattern: &Vec<char>) -> (result: bool)
    requires
        at <= chars.len(),
    ensures
        result == begins(chars@.skip(at as int), pattern@),
{
    if chars.len() - at < pattern.len() {
        return false;
    }
    let mut i: usize = 0;
    while i < pattern.len()
        invariant
            i <= pattern.len(),
            at + pattern.len() <= chars.len(),
            forall|j: int| 0 <= j < i ==> chars@[at + j] == pattern@[j],
        decreases pattern.len() - i,
    {
        if chars[at + i] != pattern[i] {
            proof {
                let tail = chars@.skip(at as int);
                assert(tail.take(pattern@.len() as int)[i as int] != pattern@[i as int]);
            }
            return false;
        }
        i += 1;
    }
    assert(chars@.skip(at as int).take(pattern@.len() as int) =~= pattern@);
    true
}

/// Whether a string starts with another.
pub fn starts_with(s: &str, prefix: &str) -> (result: bool)
    ensures
        result == begins(s@, prefix@),
{
    let chars = characters(s);
    let pattern = characters(prefix);
    assert(chars@.skip(0) == s@);
    stands_at(&chars, 0, &pattern)
}

/// What follows `prefix` in a string that starts with it.
pub fn strip_prefix(s: &str, prefix: &str) -> (result: Option<String>)
    ensures
        result.deep_view() == if begins(s@, prefix@) {
            Some(s@.skip(prefix@.len() as int))
        } else {
            None
        },
{
    let chars = characters(s);
    let pattern = characters(prefix);
    assert(chars@.skip(0) == s@);
    if stands_at(&chars, 0, &pattern) {
        let rest = spell(&chars, pattern.len(), chars.len());
        assert(rest@ == s@.skip(prefix@.len() as int));
        Some(rest)
    } else {
        None
    }
}

/// Whether `pattern` stands somewhere in `s`.
pub open spec fn holds(s: Seq<char>, pattern: Seq<char>) -> bool {
    exists|i: int| 0 <= i <= s.len() && #[trigger] begins(s.skip(i), pattern)
}

/// Whether a string contains another.
pub fn contains(s: &str, pattern: &str) -> (result: bool)
    ensures
        result == holds(s@, pattern@),
{
    let chars = characters(s);
    let wanted = characters(pattern);
    let mut i: usize = 0;
    loop
        invariant
            i <= chars.len(),
            chars@ == s@,
            wanted@ == pattern@,
            forall|j: int| 0 <= j < i ==> !#[trigger] begins(s@.skip(j), pattern@),
        decreases chars.len() - i,
    {
        if stands_at(&chars, i, &wanted) {
            return true;
        }
        if i == chars.len() {
            return false;
        }
        i += 1;
    }
}

/// `s` with every `from`, found from left to right, replaced by `to`.
pub open spec fn replaced(s: Seq<char>, from: Seq<char>, to: Seq<char>) -> Seq<char>
    decreases s.len(),
{
    if s.len() == 0 || from.len() == 0 {
        s
    } else if begins(s, from) {
        to + replaced(s.skip(from.len() as int), from, to)
    } else {
        seq![s[0]] + replaced(s.drop_first(), from, to)
    }
}

/// Replaces every `from` in a string by `to`.
pub fn replace(s: &str, from: &str, to: &str) -> (result: String)
    requires
        from@.len() > 0,
    ensures
        result@ == replaced(s@, from@, to@),
{
    let chars = characters(s);
    let wanted = characters(from);
    let mut result = String::new();
    let mut i: usize = 0;
    assert(s@.skip(0) == s@);
    assert(result@ + replaced(s@, from@, to@) == replaced(s@, from@, to@));
    while i < chars.len()
        invariant
            i <= chars.len(),
            chars@ == s@,
            wanted@ == from@,
            from@.len() > 0,
            result@ + replaced(s@.skip(i as int), from@, to@) == replaced(s@, from@, to@),
        decreases chars.len() - i,
    {
        let ghost rest = s@.skip(i as int);
        let ghost before = result@;
        if stands_at(&chars, i, &wanted) {
            result.append(to);
            assert(rest.skip(from@.len() as int) == s@.skip(i + from@.len()));
            assert(before + (to@ + replaced(s@.skip(i + from@.len()), from@, to@)) == (before
                + to@) + replaced(s@.skip(i + from@.len()), from@, to@));
            i += wanted.len();
        } else {
            result.push(chars[i]);
            assert(rest.drop_first() == s@.skip(i + 1));
            assert(before + (seq![rest[0]] + replaced(s@.skip(i + 1), from@, to@)) == before.push(
                rest[0],
            ) + replaced(s@.skip(i + 1), from@, to@));
            i += 1;
        }
    }
    assert(result@ + s@.skip(i as int) == result@);
    result
}

/// `line` without a carriage return at its end.
pub open spec fn without_return(line: Seq<char>) -> Seq<char> {
    if line.len() > 0 && line.last() == '\r' {
        line.drop_last()
    } else {
        line
    }
}

/// The lines of `s`: each ends at a line feed, or at a carriage return and a
/// line feed; what follows the last line feed is a line only if it is not empty.
pub open spec fn lines_of(s: Seq<char>) -> Seq<Seq<char>>
    decreases s.len(),
{
    if s.len() == 0 {
        Seq::empty()
    } else {
        let at = position(s, '\n');
        if at < 0 || at >= s.len() {
            seq![s]
        } else {
            seq![without_return(s.take(at))] + lines_of(s.skip(at + 1))
        }
    }
}

/// Splits a string into its lines.
pub fn lines(s: &str) -> (result: Vec<String>)
    ensures
        result.deep_view() == lines_of(s@),
{
    let chars = characters(s);
    let mut result: Vec<String> = Vec::new();
    let mut from: usize = 0;
    assert(s@.skip(0) == s@);
    assert(result.deep_view() + lines_of(s@) == lines_of(s@));
    while from < chars.len()
        invariant
            from <= chars.len(),
            chars@ == s@,
            result.deep_view() + lines_of(s@.skip(from as int)) == lines_of(s@),
        decreases chars.len() - from,
    {
        let ghost before = result.deep_view();
        let ghost rest = s@.skip(from as int);
        let at = find_from(&chars, from, '\n');
        if at == chars.len() {
            let line = spell(&chars, from, at);
            assert(line@ == rest);
            result.push(line);
            assert(result.deep_view() == before.push(rest));
            assert(before + seq![rest] == before.push(rest));
            from = at;
            assert(s@.skip(from as int).len() == 0);
            assert(result.deep_view() + lines_of(s@.skip(from as int)) == result.deep_view());
        } else {
            let to: usize = if from < at && chars[at - 1] == '\r' {
                at - 1
            } else {
                at
            };
            let line = spell(&chars, from, to);
            assert(line@ == without_return(rest.take(at - from)));
            result.push(line);
            assert(result.deep_view() == before.push(line@));
            assert(rest.skip(at - from + 1) == s@.skip(at + 1));
            assert(before + (seq![line@] + lines_of(s@.skip(at + 1))) == before.push(line@)
                + lines_of(s@.skip(at + 1)));
            from = at + 1;
        }
    }
    assert(s@.skip(from as int).len() == 0);
    assert(result.deep_view() + lines_of(s@.skip(from as int)) == result.deep_view());
    result
}

/// The decimal digit of `d`.
pub open spec fn digit(d: nat) -> char {
    seq!['0', '1', '2', '3', '4', '5', '6', '7', '8', '9'][d as int]
}

/// `n` in decimal, without leading zeros.
pub open spec fn decimal(n: nat) -> Seq<char>
    decreases n,
{
    if n < 10 {
        seq![digit(n)]
    } else {
        decimal(n / 10).push(digit(n % 10))
    }
}

/// Writes a number in decimal.
pub fn number_text(n: u64) -> (result: String)
    ensures
        result@ == decimal(n as nat),
    decreases n,
{
    let d: u64 = n % 10;
    let c = if d == 0 {
        '0'
    } else if d == 1 {
        '1'
    } else if d == 2 {
        '2'
    } else if d == 3 {
        '3'
    } else if d == 4 {
        '4'
    } else if d == 5 {
        '5'
    } else if d == 6 {
        '6'
    } else if d == 7 {
        '7'
    } else if d == 8 {
        '8'
    } else {
        '9'
    };
    let mut result = if n < 10 {
        String::new()
    } else {
        number_text(n / 10)
    };
    result.push(c);
    assert(Seq::<char>::empty().push(c) == seq![c]);
    result
}

/// The order of strings: character by character, by code point, a prefix first.
pub open spec fn precedes(a: Seq<char>, b: Seq<char>) -> bool
    decreases a.len(),
{
    if b.len() == 0 {
        false
    } else if a.len() == 0 {
        true
    } else if a[0] != b[0] {
        a[0] < b[0]
    } else {
        precedes(a.drop_first(), b.drop_first())
    }
}

/// Whether a string comes before another.
pub fn comes_before(a: &str, b: &str) -> (result: bool)
    ensures
        result == precedes(a@, b@),
{
    let left = characters(a);
    let right = characters(b);
    let mut i: usize = 0;
    assert(a@.skip(0) == a@);
    assert(b@.skip(0) == b@);
    while i < left.len() && i < right.len()
        invariant
            i <= left.len(),
            i <= right.len(),
            left@ == a@,
            right@ == b@,
            precedes(a@, b@) == precedes(a@.skip(i as int), b@.skip(i as int)),
        decreases left.len() - i,
    {
        if left[i] != right[i] {
            return left[i] < right[i];
        }
        assert(a@.skip(i as int).drop_first() == a@.skip(i + 1));
        assert(b@.skip(i as int).drop_first() == b@.skip(i + 1));
        i += 1;
    }
    i < right.len()
}

/// No string precedes itself.
pub proof fn lemma_precedes_irreflexive(a: Seq<char>)
    ensures
        !precedes(a, a),
    decreases a.len(),
{
    if a.len() > 0 {
        lemma_precedes_irreflexive(a.drop_first());
    }
}

/// What precedes a string that precedes a third precedes the third.
pub proof fn lemma_precedes_transitive(a: Seq<char>, b: Seq<char>, c: Seq<char>)
    requires
        precedes(a, b),
        precedes(b, c),
    ensures
        precedes(a, c),
    decreases a.len(),
{
    if a.len() > 0 && a[0] == b[0] && b[0] == c[0] {
        lemma_precedes_transitive(a.drop_first(), b.drop_first(), c.drop_first());
    }
}

/// Of two different strings one precedes the other.
pub proof fn lemma_precedes_total(a: Seq<char>, b: Seq<char>)
    ensures
        a == b || precedes(a, b) || precedes(b, a),
    decreases a.len(),
{
    if a.len() == 0 || b.len() == 0 {
        if a.len() == b.len() {
            assert(a =~= b);
        }
    } else if a[0] == b[0] {
        lemma_precedes_total(a.drop_first(), b.drop_first());
        if a.drop_first() == b.drop_first() {
            assert(a =~= seq![a[0]] + a.drop_first());
            assert(b =~= seq![b[0]] + b.drop_first());
        }
    }
}

/// Two numbers with the same decimal are the same number.
pub proof fn lemma_decimal_injective(a: nat, b: nat)
    requires
        decimal(a) == decimal(b),
    ensures
        a == b,
    decreases a,
{
    let x = decimal(a);
    let y = decimal(b);
    assert(x.last() == digit(a % 10));
    assert(y.last() == digit(b % 10));
    assert(a % 10 == b % 10);
    if a >= 10 {
        assert(x.drop_last() == decimal(a / 10));
        lemma_decimal_nonempty(a / 10);
    }
    if b >= 10 {
        assert(y.drop_last() == decimal(b / 10));
        lemma_decimal_nonempty(b / 10);
    }
    if a >= 10 && b >= 10 {
        lemma_decimal_injective(a / 10, b / 10);
    }
}

/// A decimal has at least one digit, and only digits.
pub proof fn lemma_decimal_nonempty(n: nat)
    ensures
        decimal(n).len() > 0,
        forall|i: int| 0 <= i < decimal(n).len() ==> '0' <= #[trigger] decimal(n)[i] <= '9',
    decreases n,
{
    if n >= 10 {
        lemma_decimal_nonempty(n / 10);
    }
}

/// A copy of a list of strings.
pub fn clone_texts(texts: &Vec<String>) -> (result: Vec<String>)
    ensures
        result.deep_view() == texts.deep_view(),
{
    let mut result: Vec<String> = Vec::new();
    for i in 0..texts.len()
        invariant
            result.deep_view() == texts.deep_view().take(i as int),
    {
        let ghost before = result.deep_view();
        result.push(texts[i].clone());
        assert(result.deep_view() == before.push(texts.deep_view()[i as int]));
    }
    assert(texts.deep_view().take(texts.len() as int) == texts.deep_view());
    result
}

/// A copy of an optional string.
pub fn clone_optional(text: &Option<String>) -> (result: Option<String>)
    ensures
        result.deep_view() == text.deep_view(),
{
    match text {
        Some(text) => Some(text.clone()),
        None => None,
    }
}

/// Whether `s` is one of `texts`.
pub fn holds_text(texts: &Vec<String>, s: &str) -> (result: bool)
    ensures
        result == texts.deep_view().contains(s@),
{
    for i in 0..texts.len()
        invariant
            forall|j: int| 0 <= j < i ==> #[trigger] texts.deep_view()[j] != s@,
    {
        if same_text(&texts[i], s) {
            assert(texts.deep_view()[i as int] == s@);
            return true;
        }
        assert(texts.deep_view()[i as int] != s@);
    }
    false
}

/// Two texts that are joined by a character which neither second half holds
/// are the same only if their halves are.
pub proof fn lemma_rejoined(
    head1: Seq<char>,
    tail1: Seq<char>,
    head2: Seq<char>,
    tail2: Seq<char>,
    c: char,
)
    requires
        head1.push(c) + tail1 == head2.push(c) + tail2,
        forall|i: int| 0 <= i < tail1.len() ==> #[trigger] tail1[i] != c,
        forall|i: int| 0 <= i < tail2.len() ==> #[trigger] tail2[i] != c,
    ensures
        head1 == head2,
        tail1 == tail2,
{
    let whole1 = head1.push(c) + tail1;
    let whole2 = head2.push(c) + tail2;
    assert(whole1.len() == head1.len() + 1 + tail1.len());
    assert(whole2.len() == head2.len() + 1 + tail2.len());
    assert(whole1[head1.len() as int] == c);
    assert(whole2[head2.len() as int] == c);
    if head1.len() < head2.len() {
        assert(whole1[head2.len() as int] == tail1[head2.len() - head1.len() - 1]);
    }
    if head2.len() < head1.len() {
        assert(whole2[head1.len() as int] == tail2[head1.len() - head2.len() - 1]);
    }
    assert(head1 == whole1.take(head1.len() as int));
    assert(head2 == whole2.take(head2.len() as int));
    assert(tail1 == whole1.skip(head1.len() as int + 1));
    assert(tail2 == whole2.skip(head2.len() as int + 1));
}

/// Whether `from` and `to` are offsets into the bytes of `text`, in this order,
/// that stand between characters.
pub open spec fn stands_in(text: Seq<char>, from: int, to: int) -> bool {
    &&& 0 <= from <= to <= encode_utf8(text).len()
    &&& is_char_boundary(encode_utf8(text), from)
    &&& is_char_boundary(encode_utf8(text), to)
}

/// What stands between two offsets into the bytes of `text`.
pub open spec fn between(text: Seq<char>, from: int, to: int) -> Seq<char> {
    decode_utf8(encode_utf8(text).subrange(from, to))
}

/// The offsets of what stands behind an offset between characters are between
/// characters where they were before.
proof fn lemma_boundary_behind(bytes: Seq<u8>, from: int, to: int)
    requires
        valid_utf8(bytes),
        0 <= from <= to <= bytes.len(),
        is_char_boundary(bytes, from),
        is_char_boundary(bytes, to),
    ensures
        valid_utf8(bytes.subrange(from, bytes.len() as int)),
        is_char_boundary(bytes.subrange(from, bytes.len() as int), to - from),
{
    let rest = bytes.subrange(from, bytes.len() as int);
    valid_utf8_split(bytes, from);
    if to == bytes.len() {
        is_char_boundary_start_end_of_seq(rest);
    } else {
        is_char_boundary_iff_not_is_continuation_byte(bytes, to);
        is_char_boundary_iff_not_is_continuation_byte(rest, to - from);
        assert(rest[to - from] == bytes[to]);
    }
}

/// What stands between three offsets is what stands between the first two and
/// between the last two.
pub proof fn lemma_between_joins(text: Seq<char>, from: int, middle: int, to: int)
    requires
        stands_in(text, from, middle),
        stands_in(text, middle, to),
    ensures
        between(text, from, to) == between(text, from, middle) + between(text, middle, to),
{
    let bytes = encode_utf8(text);
    encode_utf8_valid_utf8(text);
    lemma_boundary_behind(bytes, from, to);
    lemma_boundary_behind(bytes, from, middle);
    let rest = bytes.subrange(from, bytes.len() as int);
    valid_utf8_split(rest, to - from);
    let whole = rest.subrange(0, to - from);
    assert(whole == bytes.subrange(from, to));
    if middle == to {
        is_char_boundary_start_end_of_seq(whole);
    } else {
        is_char_boundary_iff_not_is_continuation_byte(rest, middle - from);
        is_char_boundary_iff_not_is_continuation_byte(whole, middle - from);
        assert(whole[middle - from] == rest[middle - from]);
    }
    decode_utf8_split(whole, middle - from);
    assert(whole.subrange(0, middle - from) == bytes.subrange(from, middle));
    assert(whole.subrange(middle - from, whole.len() as int) == bytes.subrange(middle, to));
}

/// All of a text stands between its first and its last offset.
pub proof fn lemma_between_all(text: Seq<char>)
    ensures
        stands_in(text, 0, encode_utf8(text).len() as int),
        between(text, 0, encode_utf8(text).len() as int) == text,
{
    encode_utf8_valid_utf8(text);
    encode_utf8_decode_utf8(text);
    is_char_boundary_start_end_of_seq(encode_utf8(text));
    assert(encode_utf8(text).subrange(0, encode_utf8(text).len() as int) == encode_utf8(text));
}

/// What stands between two offsets into the bytes of a text.
pub fn slice(text: &str, from: usize, to: usize) -> (result: String)
    requires
        stands_in(text@, from as int, to as int),
    ensures
        result@ == between(text@, from as int, to as int),
        encode_utf8(result@) == encode_utf8(text@).subrange(from as int, to as int),
{
    proof {
        encode_utf8_valid_utf8(text@);
        lemma_boundary_behind(encode_utf8(text@), from as int, to as int);
    }
    let (_, rest) = text.split_at(from);
    let (middle, _) = rest.split_at(to - from);
    proof {
        encode_utf8_decode_utf8(middle@);
        assert(encode_utf8(middle@) == encode_utf8(text@).subrange(from as int, to as int));
    }
    middle.to_owned()
}

/// `s` without the `c`s at its start.
pub open spec fn without_leading(s: Seq<char>, c: char) -> Seq<char>
    decreases s.len(),
{
    if s.len() > 0 && s[0] == c {
        without_leading(s.drop_first(), c)
    } else {
        s
    }
}

/// `s` without the `c`s at its end.
pub open spec fn without_trailing(s: Seq<char>, c: char) -> Seq<char>
    decreases s.len(),
{
    if s.len() > 0 && s.last() == c {
        without_trailing(s.drop_last(), c)
    } else {
        s
    }
}

/// The string without the `c`s at its start.
pub fn trim_leading(s: &str, c: char) -> (result: String)
    ensures
        result@ == without_leading(s@, c),
{
    let chars = characters(s);
    let mut from: usize = 0;
    assert(s@.skip(0) == s@);
    while from < chars.len() && chars[from] == c
        invariant
            from <= chars.len(),
            chars@ == s@,
            without_leading(s@, c) == without_leading(s@.skip(from as int), c),
        decreases chars.len() - from,
    {
        assert(s@.skip(from as int).drop_first() == s@.skip(from + 1));
        from += 1;
    }
    assert(s@.skip(from as int) == s@.subrange(from as int, s@.len() as int));
    spell(&chars, from, chars.len())
}

/// The string without the `c`s at its end.
pub fn trim_trailing(s: &str, c: char) -> (result: String)
    ensures
        result@ == without_trailing(s@, c),
{
    let chars = characters(s);
    let mut to: usize = chars.len();
    assert(s@.take(to as int) == s@);
    while to > 0 && chars[to - 1] == c
        invariant
            to <= chars.len(),
            chars@ == s@,
            without_trailing(s@, c) == without_trailing(s@.take(to as int), c),
        decreases to,
    {
        assert(s@.take(to as int).drop_last() == s@.take(to - 1));
        to -= 1;
    }
    assert(s@.take(to as int) == s@.subrange(0, to as int));
    spell(&chars, 0, to)
}

/// `parts`, with `c` between each and the next.
pub open spec fn joined_by(parts: Seq<Seq<char>>, c: char) -> Seq<char>
    decreases parts.len(),
{
    if parts.len() == 0 {
        Seq::empty()
    } else if parts.len() == 1 {
        parts[0]
    } else {
        parts[0] + seq![c] + joined_by(parts.drop_first(), c)
    }
}

/// Splitting a text loses nothing and leaves no separator: no piece holds the
/// separator, and joined by it the pieces are the text again.
pub proof fn lemma_pieces(s: Seq<char>, c: char)
    ensures
        pieces(s, c).len() > 0,
        joined_by(pieces(s, c), c) == s,
        forall|i: int| 0 <= i < pieces(s, c).len() ==> !(#[trigger] pieces(s, c)[i]).contains(c),
    decreases s.len(),
{
    lemma_position(s, c);
    let at = position(s, c);
    let all = pieces(s, c);
    if at >= s.len() {
        assert forall|i: int| 0 <= i < all.len() implies !(#[trigger] all[i]).contains(c) by {
            assert(all[i] == s);
        }
    } else {
        let rest = s.skip(at + 1);
        lemma_pieces(rest, c);
        assert(all.drop_first() == pieces(rest, c));
        assert(s == s.take(at) + seq![c] + rest);
        assert forall|i: int| 0 <= i < all.len() implies !(#[trigger] all[i]).contains(c) by {
            if i == 0 {
                assert(all[0] == s.take(at));
            } else {
                assert(all[i] == pieces(rest, c)[i - 1]);
            }
        }
    }
}

/// A text is split in two exactly at its first separator.
pub proof fn lemma_halves(s: Seq<char>, c: char)
    ensures
        match halves(s, c) {
            Some((head, tail)) => !head.contains(c) && s == head + seq![c] + tail,
            None => !s.contains(c),
        },
{
    lemma_position(s, c);
    let at = position(s, c);
    if at < s.len() {
        assert(s == s.take(at) + seq![c] + s.skip(at + 1));
        assert forall|i: int| 0 <= i < at implies s.take(at)[i] != c by {
            assert(s[i] != c);
        }
    }
}

/// The white space at the start of a text is all that leaves it there.
proof fn lemma_trimmed_start(s: Seq<char>) -> (from: int)
    ensures
        0 <= from <= s.len(),
        trimmed_start(s) == s.skip(from),
        forall|i: int| 0 <= i < from ==> whitespace(#[trigger] s[i]),
        from < s.len() ==> !whitespace(s[from]),
    decreases s.len(),
{
    if s.len() > 0 && whitespace(s[0]) {
        let rest = s.drop_first();
        let inner = lemma_trimmed_start(rest);
        assert(rest.skip(inner) == s.skip(inner + 1));
        assert forall|i: int| 0 <= i < inner + 1 implies whitespace(#[trigger] s[i]) by {
            if i > 0 {
                assert(s[i] == rest[i - 1]);
            }
        }
        inner + 1
    } else {
        assert(s.skip(0) == s);
        0
    }
}

/// The white space at the end of a text is all that leaves it there.
proof fn lemma_trimmed_end(s: Seq<char>) -> (to: int)
    ensures
        0 <= to <= s.len(),
        trimmed_end(s) == s.take(to),
        forall|i: int| to <= i < s.len() ==> whitespace(#[trigger] s[i]),
        to > 0 ==> !whitespace(s[to - 1]),
    decreases s.len(),
{
    if s.len() > 0 && whitespace(s.last()) {
        let rest = s.drop_last();
        let inner = lemma_trimmed_end(rest);
        assert(rest.take(inner) == s.take(inner));
        assert forall|i: int| inner <= i < s.len() implies whitespace(#[trigger] s[i]) by {
            if i < rest.len() {
                assert(s[i] == rest[i]);
            }
        }
        inner
    } else {
        assert(s.take(s.len() as int) == s);
        s.len() as int
    }
}

/// Trimming takes white space away at both ends and nothing else: what is left is a
/// part of the text around which nothing but white space stood, and which neither
/// starts nor ends with any.
pub proof fn lemma_trimmed(s: Seq<char>)
    ensures
        exists|from: int, to: int|
            0 <= from <= to <= s.len() && trimmed(s) == #[trigger] s.subrange(from, to) && (forall|
                i: int,
            |
                0 <= i < from || to <= i < s.len() ==> whitespace(#[trigger] s[i])),
        trimmed(s).len() > 0 ==> !whitespace(trimmed(s)[0]) && !whitespace(trimmed(s).last()),
        trimmed(s).len() == 0 <==> forall|i: int| 0 <= i < s.len() ==> whitespace(#[trigger] s[i]),
{
    let from = lemma_trimmed_start(s);
    let rest = s.skip(from);
    let inner = lemma_trimmed_end(rest);
    let to = from + inner;
    assert(trimmed(s) == s.subrange(from, to));
    assert forall|i: int| 0 <= i < from || to <= i < s.len() implies whitespace(
        #[trigger] s[i],
    ) by {
        if i >= to {
            assert(s[i] == rest[i - from]);
        }
    }
    if inner > 0 {
        assert(trimmed(s)[0] == s[from]);
        assert(trimmed(s).last() == rest[inner - 1]);
    }
}

/// What is left without leading characters is the text from the first other one on.
pub proof fn lemma_without_leading(s: Seq<char>, c: char)
    ensures
        without_leading(s, c).len() <= s.len(),
        without_leading(s, c) == s.skip(s.len() - without_leading(s, c).len()),
        forall|i: int| 0 <= i < s.len() - without_leading(s, c).len() ==> #[trigger] s[i] == c,
        without_leading(s, c).len() > 0 ==> without_leading(s, c)[0] != c,
    decreases s.len(),
{
    if s.len() > 0 && s[0] == c {
        let rest = s.drop_first();
        lemma_without_leading(rest, c);
        let left = without_leading(s, c);
        assert(rest.skip(rest.len() - left.len()) == s.skip(s.len() - left.len()));
        assert forall|i: int| 0 <= i < s.len() - left.len() implies #[trigger] s[i] == c by {
            if i > 0 {
                assert(s[i] == rest[i - 1]);
            }
        }
    } else {
        assert(s.skip(0) == s);
    }
}

/// What is left without trailing characters is the text up to the last other one.
pub proof fn lemma_without_trailing(s: Seq<char>, c: char)
    ensures
        without_trailing(s, c).len() <= s.len(),
        without_trailing(s, c) == s.take(without_trailing(s, c).len() as int),
        forall|i: int| without_trailing(s, c).len() <= i < s.len() ==> #[trigger] s[i] == c,
        without_trailing(s, c).len() > 0 ==> without_trailing(s, c).last() != c,
    decreases s.len(),
{
    if s.len() > 0 && s.last() == c {
        let rest = s.drop_last();
        lemma_without_trailing(rest, c);
        let left = without_trailing(s, c);
        assert(rest.take(left.len() as int) == s.take(left.len() as int));
        assert forall|i: int| left.len() <= i < s.len() implies #[trigger] s[i] == c by {
            if i < rest.len() {
                assert(s[i] == rest[i]);
            }
        }
    } else {
        assert(s.take(s.len() as int) == s);
    }
}

/// A text starts with another exactly if it is the other and something behind it.
pub proof fn lemma_begins(s: Seq<char>, prefix: Seq<char>)
    ensures
        begins(s, prefix) <==> exists|rest: Seq<char>| s == #[trigger] (prefix + rest),
{
    if begins(s, prefix) {
        let rest = s.skip(prefix.len() as int);
        assert(s == prefix + rest);
    }
    if exists|rest: Seq<char>| s == #[trigger] (prefix + rest) {
        let rest = choose|rest: Seq<char>| s == #[trigger] (prefix + rest);
        assert((prefix + rest).take(prefix.len() as int) == prefix);
    }
}

/// A text holds another exactly if it is the other with something on both sides.
pub proof fn lemma_holds(s: Seq<char>, pattern: Seq<char>)
    ensures
        holds(s, pattern) <==> exists|head: Seq<char>, tail: Seq<char>|
            s == #[trigger] (head + pattern + tail),
{
    if holds(s, pattern) {
        let i = choose|i: int| 0 <= i <= s.len() && #[trigger] begins(s.skip(i), pattern);
        let tail = s.skip(i).skip(pattern.len() as int);
        assert(s.skip(i).take(pattern.len() as int) == pattern);
        assert(s.take(i) + pattern + tail == s) by {
            assert(s.skip(i) == pattern + tail);
            assert(s == s.take(i) + s.skip(i));
        }
    }
    if exists|head: Seq<char>, tail: Seq<char>| s == #[trigger] (head + pattern + tail) {
        let (head, tail) = choose|head: Seq<char>, tail: Seq<char>|
            s == #[trigger] (head + pattern + tail);
        assert(s.skip(head.len() as int).take(pattern.len() as int) == pattern);
        assert(begins(s.skip(head.len() as int), pattern));
    }
}

/// A text that does not hold what is replaced stays as it is; of one that does, what
/// stands before the first place stays, what is replaced gives way, and the rest is
/// treated alike.
pub proof fn lemma_replaced(s: Seq<char>, from: Seq<char>, to: Seq<char>, at: int)
    requires
        from.len() > 0,
        0 <= at <= s.len(),
        forall|i: int| 0 <= i < at ==> !begins(#[trigger] s.skip(i), from),
    ensures
        begins(s.skip(at), from) ==> replaced(s, from, to) == s.take(at) + to + replaced(
            s.skip(at + from.len()),
            from,
            to,
        ),
        at == s.len() ==> replaced(s, from, to) == s,
    decreases at,
{
    assert(s.skip(0) == s);
    if at == 0 {
        if begins(s, from) {
            assert(s.take(0) + to == to);
        }
    } else {
        let rest = s.drop_first();
        assert(!begins(s.skip(0), from));
        assert forall|i: int| 0 <= i < at - 1 implies !begins(#[trigger] rest.skip(i), from) by {
            assert(rest.skip(i) == s.skip(i + 1));
        }
        lemma_replaced(rest, from, to, at - 1);
        assert(rest.skip(at - 1) == s.skip(at));
        if begins(s.skip(at), from) {
            assert(rest.skip(at - 1 + from.len()) == s.skip(at + from.len()));
            let tail = replaced(s.skip(at + from.len()), from, to);
            assert(seq![s[0]] + (rest.take(at - 1) + to + tail) == s.take(at) + to + tail);
        }
        if at == s.len() {
            assert(seq![s[0]] + rest == s);
        }
    }
}

/// A text without a line feed is one line, or none if it is empty. One with a line
/// feed has what stands before it as its first line, without a carriage return at its
/// end, and then the lines of what stands behind it.
pub proof fn lemma_lines(head: Seq<char>, tail: Seq<char>)
    requires
        !head.contains('\n'),
    ensures
        lines_of(head) == if head.len() == 0 {
            Seq::<Seq<char>>::empty()
        } else {
            seq![head]
        },
        lines_of(head + seq!['\n'] + tail) == seq![
            if head.len() > 0 && head[head.len() - 1] == '\r' {
                head.take(head.len() - 1)
            } else {
                head
            },
        ] + lines_of(tail),
{
    lemma_position(head, '\n');
    if position(head, '\n') < head.len() {
        assert(head.contains(head[position(head, '\n')]));
    }
    let s = head + seq!['\n'] + tail;
    assert(s[head.len() as int] == '\n');
    assert forall|i: int| 0 <= i < head.len() implies s[i] != '\n' by {
        assert(head.contains(head[i]));
    }
    lemma_position_is(s, '\n', head.len() as int);
    assert(s.take(head.len() as int) == head);
    assert(s.skip(head.len() as int + 1) == tail);
    if head.len() > 0 {
        assert(head.drop_last() == head.take(head.len() - 1));
    }
}

/// The decimal of a number ends in the digit of its remainder by ten, behind the
/// decimal of the quotient unless that is zero.
pub proof fn lemma_decimal(n: nat)
    ensures
        decimal(n).len() > 0,
        decimal(n).last() as int == '0' as int + n % 10,
        n < 10 ==> decimal(n).len() == 1,
        n >= 10 ==> decimal(n).drop_last() == decimal(n / 10),
{
    if n >= 10 {
        assert(decimal(n).drop_last() == decimal(n / 10));
    }
}

/// A text precedes another exactly if it is a proper prefix of it, or if at the first
/// place where they differ its character is the lower one.
pub proof fn lemma_precedes(a: Seq<char>, b: Seq<char>)
    ensures
        precedes(a, b) <==> exists|at: int|
            0 <= at <= a.len() && at < b.len() && #[trigger] a.take(at) == b.take(at) && (at
                == a.len() || a[at] < b[at]),
    decreases a.len(),
{
    if a.len() == 0 {
        if b.len() > 0 {
            assert(a.take(0) == b.take(0));
        }
    } else if b.len() > 0 {
        let x = a.drop_first();
        let y = b.drop_first();
        lemma_precedes(x, y);
        if a[0] != b[0] {
            assert(a.take(0) == b.take(0));
            if exists|at: int|
                0 <= at <= a.len() && at < b.len() && #[trigger] a.take(at) == b.take(at) && (at
                    == a.len() || a[at] < b[at]) {
                let at = choose|at: int|
                    0 <= at <= a.len() && at < b.len() && #[trigger] a.take(at) == b.take(at) && (at
                        == a.len() || a[at] < b[at]);
                if at > 0 {
                    assert(a.take(at)[0] == b.take(at)[0]);
                }
            }
        } else {
            if precedes(a, b) {
                let at = choose|at: int|
                    0 <= at <= x.len() && at < y.len() && #[trigger] x.take(at) == y.take(at) && (at
                        == x.len() || x[at] < y[at]);
                assert(a.take(at + 1) == seq![a[0]] + x.take(at));
                assert(b.take(at + 1) == seq![b[0]] + y.take(at));
            }
            if exists|at: int|
                0 <= at <= a.len() && at < b.len() && #[trigger] a.take(at) == b.take(at) && (at
                    == a.len() || a[at] < b[at]) {
                let at = choose|at: int|
                    0 <= at <= a.len() && at < b.len() && #[trigger] a.take(at) == b.take(at) && (at
                        == a.len() || a[at] < b[at]);
                assert(at > 0);
                assert(x.take(at - 1) == a.take(at).drop_first());
                assert(y.take(at - 1) == b.take(at).drop_first());
            }
        }
    }
}

} // verus!
