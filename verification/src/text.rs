//! Character-level operations on strings, with contracts over `Seq<char>` views.

use vstd::prelude::*;

verus! {

/// Appends one character to a string (`String::push`).
pub assume_specification[ String::push ](s: &mut String, c: char)
    ensures
        final(s)@ == old(s)@.push(c),
;

/// Where one text stands relative to another in lexicographic order.
#[derive(Clone, Copy, PartialEq, Eq, Structural, Debug)]
pub enum Precedence {
    Before,
    Same,
    After,
}

/// Lexicographic order on character sequences; a proper prefix comes first.
pub open spec fn text_lt(a: Seq<char>, b: Seq<char>) -> bool
    decreases a.len(),
{
    if b.len() == 0 {
        false
    } else if a.len() == 0 {
        true
    } else if a[0] != b[0] {
        (a[0] as int) < (b[0] as int)
    } else {
        text_lt(a.drop_first(), b.drop_first())
    }
}

/// No text precedes itself.
pub proof fn text_lt_irreflexive(a: Seq<char>)
    ensures
        !text_lt(a, a),
    decreases a.len(),
{
    if a.len() > 0 {
        text_lt_irreflexive(a.drop_first());
    }
}

/// The order on texts is transitive.
pub proof fn text_lt_transitive(a: Seq<char>, b: Seq<char>, c: Seq<char>)
    requires
        text_lt(a, b),
        text_lt(b, c),
    ensures
        text_lt(a, c),
    decreases a.len(),
{
    if a.len() > 0 && a[0] == b[0] && b[0] == c[0] {
        text_lt_transitive(a.drop_first(), b.drop_first(), c.drop_first());
    }
}

/// Two different texts are ordered one way or the other.
pub proof fn text_lt_total(a: Seq<char>, b: Seq<char>)
    ensures
        a == b || text_lt(a, b) || text_lt(b, a),
    decreases a.len(),
{
    if a.len() == 0 || b.len() == 0 {
        if a.len() == 0 && b.len() == 0 {
            assert(a =~= b);
        }
    } else if a[0] == b[0] {
        text_lt_total(a.drop_first(), b.drop_first());
        if a.drop_first() == b.drop_first() {
            assert(a =~= seq![a[0]] + a.drop_first());
            assert(b =~= seq![b[0]] + b.drop_first());
        }
    }
}

/// Returns the characters of a string in order.
pub fn chars_of(s: &str) -> (r: Vec<char>)
    ensures
        r@ == s@,
{
    let mut out: Vec<char> = Vec::new();
    for c in it: s.chars()
        invariant
            out@ == s@.take(it.index() as int),
            it.seq() == s@,
    {
        out.push(c);
        assert(out@ =~= s@.take(it.index() as int + 1));
    }
    assert(out@ =~= s@);
    out
}

/// Compares two strings in lexicographic order.
pub fn precedence(a: &str, b: &str) -> (r: Precedence)
    ensures
        r == Precedence::Same <==> a@ == b@,
        r == Precedence::Before <==> text_lt(a@, b@),
        r == Precedence::After <==> text_lt(b@, a@),
{
    let left = chars_of(a);
    let right = chars_of(b);
    let mut i: usize = 0;
    proof {
        assert(a@.skip(0) =~= a@);
        assert(b@.skip(0) =~= b@);
    }
    while i < left.len() && i < right.len() && left[i] == right[i]
        invariant
            i <= left.len(),
            i <= right.len(),
            left@ == a@,
            right@ == b@,
            a@.take(i as int) == b@.take(i as int),
            text_lt(a@, b@) == text_lt(a@.skip(i as int), b@.skip(i as int)),
            text_lt(b@, a@) == text_lt(b@.skip(i as int), a@.skip(i as int)),
        decreases left.len() - i,
    {
        proof {
            assert(a@.skip(i as int).drop_first() =~= a@.skip(i as int + 1));
            assert(b@.skip(i as int).drop_first() =~= b@.skip(i as int + 1));
            assert(a@.take(i as int + 1) =~= a@.take(i as int).push(a@[i as int]));
            assert(b@.take(i as int + 1) =~= b@.take(i as int).push(b@[i as int]));
        }
        i += 1;
    }
    proof {
        text_lt_irreflexive(a@);
        if i < left.len() && i < right.len() {
            assert(a@.skip(i as int)[0] == a@[i as int]);
            assert(b@.skip(i as int)[0] == b@[i as int]);
        } else if i == left.len() && i == right.len() {
            assert(a@ =~= a@.take(i as int));
            assert(b@ =~= b@.take(i as int));
        }
    }
    if i == left.len() {
        if i == right.len() {
            Precedence::Same
        } else {
            Precedence::Before
        }
    } else if i == right.len() {
        Precedence::After
    } else if left[i] < right[i] {
        Precedence::Before
    } else {
        Precedence::After
    }
}

/// Tells whether two strings hold the same characters.
pub fn same_text(a: &str, b: &str) -> (r: bool)
    ensures
        r == (a@ == b@),
{
    precedence(a, b) == Precedence::Same
}

/// Whether `needle` stands in `text` starting at position `at`.
pub open spec fn occurs_at(text: Seq<char>, needle: Seq<char>, at: int) -> bool {
    0 <= at && at + needle.len() <= text.len() && text.subrange(at, at + needle.len()) == needle
}

/// Whether `needle` stands somewhere in `text`.
pub open spec fn contains_text(text: Seq<char>, needle: Seq<char>) -> bool {
    exists|at: int| occurs_at(text, needle, at)
}

/// Tells whether `needle` stands in `text` at position `at`.
pub fn matches_at(text: &Vec<char>, needle: &Vec<char>, at: usize) -> (r: bool)
    ensures
        r == occurs_at(text@, needle@, at as int),
{
    if at > text.len() || needle.len() > text.len() - at {
        return false;
    }
    let mut i: usize = 0;
    while i < needle.len()
        invariant
            i <= needle.len(),
            at + needle.len() <= text.len(),
            text@.subrange(at as int, at + i) == needle@.take(i as int),
        decreases needle.len() - i,
    {
        if text[at + i] != needle[i] {
            proof {
                assert(text@.subrange(at as int, at + needle.len())[i as int] != needle@[i as int]);
            }
            return false;
        }
        proof {
            assert(text@.subrange(at as int, at + i + 1) =~= text@.subrange(
                at as int,
                at + i,
            ).push(text@[at + i]));
            assert(needle@.take(i as int + 1) =~= needle@.take(i as int).push(needle@[i as int]));
        }
        i += 1;
    }
    assert(needle@.take(needle.len() as int) =~= needle@);
    true
}

/// Tells whether `needle` occurs in `text`.
pub fn contains(text: &str, needle: &str) -> (r: bool)
    ensures
        r == contains_text(text@, needle@),
{
    let t = chars_of(text);
    let n = chars_of(needle);
    let mut at: usize = 0;
    while at < t.len()
        invariant
            at <= t.len(),
            t@ == text@,
            n@ == needle@,
            forall|k: int| 0 <= k < at ==> !occurs_at(t@, n@, k),
        decreases t.len() - at,
    {
        if matches_at(&t, &n, at) {
            return true;
        }
        at += 1;
    }
    let found = matches_at(&t, &n, at);
    proof {
        if !found {
            assert forall|k: int| !occurs_at(text@, needle@, k) by {}
        }
    }
    found
}

/// Whether `text` begins with `prefix`.
pub open spec fn has_prefix(text: Seq<char>, prefix: Seq<char>) -> bool {
    occurs_at(text, prefix, 0)
}

/// Tells whether `text` begins with `prefix`.
pub fn starts_with(text: &str, prefix: &str) -> (r: bool)
    ensures
        r == has_prefix(text@, prefix@),
{
    let t = chars_of(text);
    let p = chars_of(prefix);
    matches_at(&t, &p, 0)
}

/// Removes `prefix` from the front of `text`, or returns `None` where it is not there.
pub fn strip_prefix(text: &str, prefix: &str) -> (r: Option<String>)
    ensures
        r is Some <==> has_prefix(text@, prefix@),
        r matches Some(rest) ==> rest@ == text@.skip(prefix@.len() as int),
{
    let t = chars_of(text);
    let p = chars_of(prefix);
    if !matches_at(&t, &p, 0) {
        return None;
    }
    let mut rest: String = String::new();
    let mut i: usize = p.len();
    while i < t.len()
        invariant
            p.len() <= i <= t.len(),
            t@ == text@,
            rest@ == t@.subrange(p.len() as int, i as int),
        decreases t.len() - i,
    {
        rest.push(t[i]);
        assert(t@.subrange(p.len() as int, i + 1) =~= t@.subrange(p.len() as int, i as int).push(
            t@[i as int],
        ));
        i += 1;
    }
    assert(rest@ =~= text@.skip(prefix@.len() as int));
    Some(rest)
}

/// The lower-case form of an ASCII capital; every other character is itself.
pub open spec fn lower_char(c: char) -> char {
    if 'A' <= c && c <= 'Z' {
        ((c as u8) + 32) as u8 as char
    } else {
        c
    }
}

/// The text with every ASCII capital in lower case.
pub open spec fn lower_text(text: Seq<char>) -> Seq<char> {
    text.map_values(|c: char| lower_char(c))
}

/// Puts every ASCII capital of `text` in lower case.
pub fn ascii_lowercase(text: &str) -> (r: String)
    ensures
        r@ == lower_text(text@),
{
    let t = chars_of(text);
    let mut out: String = String::new();
    let mut i: usize = 0;
    while i < t.len()
        invariant
            i <= t.len(),
            t@ == text@,
            out@ == lower_text(t@.take(i as int)),
        decreases t.len() - i,
    {
        let c = t[i];
        if 'A' <= c && c <= 'Z' {
            let code: u8 = c as u8;
            out.push((code + 32) as char);
        } else {
            out.push(c);
        }
        assert(lower_text(t@.take(i as int + 1)) =~= lower_text(t@.take(i as int)).push(
            lower_char(t@[i as int]),
        ));
        i += 1;
    }
    assert(t@.take(i as int) =~= t@);
    out
}

/// Whether two texts are the same apart from the case of ASCII letters.
pub open spec fn same_ignoring_case(a: Seq<char>, b: Seq<char>) -> bool {
    lower_text(a) == lower_text(b)
}

/// Tells whether two strings are the same apart from the case of ASCII letters.
pub fn same_text_ignoring_case(a: &str, b: &str) -> (r: bool)
    ensures
        r == same_ignoring_case(a@, b@),
{
    let left = ascii_lowercase(a);
    let right = ascii_lowercase(b);
    same_text(left.as_str(), right.as_str())
}

/// Whether `text` ends with `suffix`.
pub open spec fn has_suffix(text: Seq<char>, suffix: Seq<char>) -> bool {
    occurs_at(text, suffix, text.len() - suffix.len())
}

/// Tells whether `text` ends with `suffix`.
pub fn ends_with(text: &str, suffix: &str) -> (r: bool)
    ensures
        r == has_suffix(text@, suffix@),
{
    let t = chars_of(text);
    let s = chars_of(suffix);
    if s.len() > t.len() {
        return false;
    }
    matches_at(&t, &s, t.len() - s.len())
}

/// The pieces between separators in the first `i` characters, and the piece that is still open.
pub open spec fn pieces_upto(text: Seq<char>, separator: char, i: int) -> (
    Seq<Seq<char>>,
    Seq<char>,
)
    decreases i,
{
    if i <= 0 {
        (Seq::empty(), Seq::empty())
    } else {
        let (done, open) = pieces_upto(text, separator, i - 1);
        if text[i - 1] == separator {
            (done.push(open), Seq::empty())
        } else {
            (done, open.push(text[i - 1]))
        }
    }
}

/// The pieces of a text between separators, the empty ones too.
pub open spec fn pieces(text: Seq<char>, separator: char) -> Seq<Seq<char>> {
    let (done, open) = pieces_upto(text, separator, text.len() as int);
    done.push(open)
}

/// The characters of each string.
pub open spec fn texts(strings: Seq<String>) -> Seq<Seq<char>> {
    Seq::new(strings.len(), |i: int| strings[i]@)
}

/// Splits a text at every separator; empty pieces count.
pub fn split(text: &str, separator: char) -> (r: Vec<String>)
    ensures
        texts(r@) == pieces(text@, separator),
{
    let t = chars_of(text);
    let mut done: Vec<String> = Vec::new();
    let mut open: String = String::new();
    let mut i: usize = 0;
    proof {
        assert(texts(done@) =~= Seq::<Seq<char>>::empty());
    }
    while i < t.len()
        invariant
            i <= t.len(),
            t@ == text@,
            (texts(done@), open@) == pieces_upto(text@, separator, i as int),
        decreases t.len() - i,
    {
        if t[i] == separator {
            let ghost before = done@;
            let ghost piece = open@;
            done.push(open);
            open = String::new();
            proof {
                assert(texts(done@) =~= texts(before).push(piece));
            }
        } else {
            open.push(t[i]);
        }
        i += 1;
    }
    let ghost before = done@;
    let ghost piece = open@;
    done.push(open);
    proof {
        assert(texts(done@) =~= texts(before).push(piece));
    }
    done
}

/// Whether a character is ASCII white space.
pub open spec fn is_space(c: char) -> bool {
    c == ' ' || c == '\t' || c == '\n' || c == '\r' || c == '\x0c'
}

/// The words in the first `i` characters, and the word that is still open.
pub open spec fn words_upto(text: Seq<char>, i: int) -> (Seq<Seq<char>>, Seq<char>)
    decreases i,
{
    if i <= 0 {
        (Seq::empty(), Seq::empty())
    } else {
        let (done, open) = words_upto(text, i - 1);
        if !is_space(text[i - 1]) {
            (done, open.push(text[i - 1]))
        } else if open.len() > 0 {
            (done.push(open), Seq::empty())
        } else {
            (done, open)
        }
    }
}

/// The words of a text, which stand between white space.
pub open spec fn words(text: Seq<char>) -> Seq<Seq<char>> {
    let (done, open) = words_upto(text, text.len() as int);
    if open.len() > 0 {
        done.push(open)
    } else {
        done
    }
}

/// Splits a text into the words between white space.
pub fn split_words(text: &str) -> (r: Vec<String>)
    ensures
        texts(r@) == words(text@),
{
    let t = chars_of(text);
    let mut done: Vec<String> = Vec::new();
    let mut open: String = String::new();
    let mut i: usize = 0;
    proof {
        assert(texts(done@) =~= Seq::<Seq<char>>::empty());
    }
    while i < t.len()
        invariant
            i <= t.len(),
            t@ == text@,
            (texts(done@), open@) == words_upto(text@, i as int),
        decreases t.len() - i,
    {
        let c = t[i];
        if !(c == ' ' || c == '\t' || c == '\n' || c == '\r' || c == '\x0c') {
            open.push(c);
        } else if !open.as_str().is_empty() {
            let ghost before = done@;
            let ghost piece = open@;
            done.push(open);
            open = String::new();
            proof {
                assert(texts(done@) =~= texts(before).push(piece));
            }
        }
        i += 1;
    }
    if !open.as_str().is_empty() {
        let ghost before = done@;
        let ghost piece = open@;
        done.push(open);
        proof {
            assert(texts(done@) =~= texts(before).push(piece));
        }
    }
    done
}

/// The texts that are not empty, in order.
pub open spec fn non_empty(all: Seq<Seq<char>>) -> Seq<Seq<char>>
    decreases all.len(),
{
    if all.len() == 0 {
        Seq::empty()
    } else if all.last().len() > 0 {
        non_empty(all.drop_last()).push(all.last())
    } else {
        non_empty(all.drop_last())
    }
}

/// Splits a text at every separator, leaving out empty pieces.
pub fn split_non_empty(text: &str, separator: char) -> (r: Vec<String>)
    ensures
        texts(r@) == non_empty(pieces(text@, separator)),
{
    let all = split(text, separator);
    let mut out: Vec<String> = Vec::new();
    let mut i: usize = 0;
    proof {
        assert(texts(all@).take(0) =~= Seq::<Seq<char>>::empty());
        assert(texts(out@) =~= Seq::<Seq<char>>::empty());
    }
    while i < all.len()
        invariant
            i <= all.len(),
            texts(all@) == pieces(text@, separator),
            texts(out@) == non_empty(texts(all@).take(i as int)),
        decreases all.len() - i,
    {
        proof {
            let next = texts(all@).take(i + 1);
            assert(next.drop_last() =~= texts(all@).take(i as int));
            assert(next.last() == all@[i as int]@);
        }
        if !all[i].as_str().is_empty() {
            let ghost before = out@;
            out.push(all[i].clone());
            proof {
                assert(texts(out@) =~= texts(before).push(all@[i as int]@));
            }
        }
        i += 1;
    }
    proof {
        assert(texts(all@).take(i as int) =~= texts(all@));
    }
    out
}

/// Whether a character is a decimal digit.
pub open spec fn is_digit(c: char) -> bool {
    '0' <= c && c <= '9'
}

/// Whether a text is one or more decimal digits.
pub open spec fn all_digits(text: Seq<char>) -> bool {
    text.len() > 0 && forall|i: int| 0 <= i < text.len() ==> is_digit(#[trigger] text[i])
}

/// The number that a text of decimal digits stands for.
pub open spec fn decimal_value(text: Seq<char>) -> nat
    decreases text.len(),
{
    if text.len() == 0 {
        0
    } else {
        decimal_value(text.drop_last()) * 10 + (text.last() as u32 - '0' as u32) as nat
    }
}

/// The digits of a number that may start with a plus sign.
pub open spec fn unsigned_part(text: Seq<char>) -> Seq<char> {
    if text.len() > 0 && text[0] == '+' {
        text.skip(1)
    } else {
        text
    }
}

/// The unsigned number written in decimal, with an optional plus sign, if it is no more than
/// `limit`.
pub open spec fn unsigned_value(text: Seq<char>, limit: nat) -> Option<nat> {
    let digits = unsigned_part(text);
    if all_digits(digits) && decimal_value(digits) <= limit {
        Some(decimal_value(digits))
    } else {
        None
    }
}

proof fn decimal_value_grows(text: Seq<char>, k: int)
    requires
        0 <= k <= text.len(),
        all_digits(text),
    ensures
        decimal_value(text.take(k)) <= decimal_value(text),
    decreases text.len() - k,
{
    if k < text.len() {
        decimal_value_grows(text, k + 1);
        assert(text.take(k + 1).drop_last() =~= text.take(k));
    } else {
        assert(text.take(k) =~= text);
    }
}

/// Reads an unsigned decimal number, with an optional plus sign, that is no more than `limit`.
pub fn parse_unsigned(text: &str, limit: u64) -> (r: Option<u64>)
    ensures
        r is Some <==> unsigned_value(text@, limit as nat) is Some,
        r matches Some(v) ==> v == unsigned_value(text@, limit as nat)->0,
{
    let t = chars_of(text);
    let start: usize = if t.len() > 0 && t[0] == '+' {
        1
    } else {
        0
    };
    let ghost digits = unsigned_part(text@);
    proof {
        assert(digits =~= t@.skip(start as int));
    }
    if start == t.len() {
        return None;
    }
    let mut value: u64 = 0;
    let mut i: usize = start;
    proof {
        assert(digits.take(0) =~= Seq::<char>::empty());
    }
    while i < t.len()
        invariant
            start <= i <= t.len(),
            start < t.len(),
            digits == t@.skip(start as int),
            value == decimal_value(digits.take(i - start)),
            value <= limit,
            forall|k: int| 0 <= k < i - start ==> is_digit(#[trigger] digits[k]),
            digits == unsigned_part(text@),
        decreases t.len() - i,
    {
        let c = t[i];
        proof {
            assert(digits[i - start] == c);
            assert(digits.take(i - start + 1).drop_last() =~= digits.take(i - start));
        }
        if !('0' <= c && c <= '9') {
            return None;
        }
        let digit: u64 = (c as u32 - '0' as u32) as u64;
        let next: Option<u64> = match value.checked_mul(10) {
            Some(scaled) => scaled.checked_add(digit),
            None => None,
        };
        match next {
            Some(v) if v <= limit => {
                value = v;
            },
            _ => {
                proof {
                    assert(decimal_value(digits.take(i - start + 1)) > limit);
                    if all_digits(digits) {
                        decimal_value_grows(digits, i - start + 1);
                    }
                }
                return None;
            },
        }
        i += 1;
    }
    proof {
        assert(digits.take(digits.len() as int) =~= digits);
    }
    Some(value)
}

/// Whether a character is white space in Unicode.
pub open spec fn is_white_space(c: char) -> bool {
    let n = c as u32;
    (0x9 <= n <= 0xd) || n == 0x20 || n == 0x85 || n == 0xa0 || n == 0x1680 || (0x2000 <= n
        <= 0x200a) || n == 0x2028 || n == 0x2029 || n == 0x202f || n == 0x205f || n == 0x3000
}

/// Whether a text holds nothing but white space.
pub open spec fn is_blank(text: Seq<char>) -> bool {
    forall|i: int| 0 <= i < text.len() ==> is_white_space(#[trigger] text[i])
}

/// Tells whether a text holds nothing but white space.
pub fn blank(text: &str) -> (r: bool)
    ensures
        r == is_blank(text@),
{
    let chars = chars_of(text);
    let mut i: usize = 0;
    while i < chars.len()
        invariant
            chars@ == text@,
            i <= chars.len(),
            forall|k: int| 0 <= k < i ==> is_white_space(#[trigger] text@[k]),
        decreases chars.len() - i,
    {
        let n: u32 = chars[i] as u32;
        if !((0x9 <= n && n <= 0xd) || n == 0x20 || n == 0x85 || n == 0xa0 || n == 0x1680 || (0x2000
            <= n && n <= 0x200a) || n == 0x2028 || n == 0x2029 || n == 0x202f || n == 0x205f || n
            == 0x3000) {
            assert(!is_white_space(text@[i as int]));
            return false;
        }
        i += 1;
    }
    true
}

/// The part of a text before a suffix, where it has the suffix.
pub fn strip_suffix(text: &str, suffix: &str) -> (r: Option<String>)
    ensures
        has_suffix(text@, suffix@) ==> r is Some && r->0@ == text@.take(
            text@.len() - suffix@.len(),
        ),
        !has_suffix(text@, suffix@) ==> r is None,
{
    if !ends_with(text, suffix) {
        return None;
    }
    let chars = chars_of(text);
    let cut = chars_of(suffix);
    let keep: usize = chars.len() - cut.len();
    let mut out: String = String::new();
    let mut i: usize = 0;
    while i < keep
        invariant
            chars@ == text@,
            i <= keep <= chars.len(),
            out@ == chars@.take(i as int),
        decreases keep - i,
    {
        out.push(chars[i]);
        assert(chars@.take(i + 1) =~= chars@.take(i as int).push(chars@[i as int]));
        i += 1;
    }
    Some(out)
}

/// The character of a decimal digit.
pub open spec fn digit_char(d: nat) -> char {
    if d == 0 {
        '0'
    } else if d == 1 {
        '1'
    } else if d == 2 {
        '2'
    } else if d == 3 {
        '3'
    } else if d == 4 {
        '4'
    } else if d == 5 {
        '5'
    } else if d == 6 {
        '6'
    } else if d == 7 {
        '7'
    } else if d == 8 {
        '8'
    } else {
        '9'
    }
}

/// A number in decimal digits.
pub open spec fn decimal_text(n: nat) -> Seq<char>
    decreases n,
{
    if n < 10 {
        seq![digit_char(n)]
    } else {
        decimal_text(n / 10).push(digit_char(n % 10))
    }
}

fn digit_of(d: u64) -> (r: char)
    requires
        d < 10,
    ensures
        r == digit_char(d as nat),
{
    match d {
        0 => '0',
        1 => '1',
        2 => '2',
        3 => '3',
        4 => '4',
        5 => '5',
        6 => '6',
        7 => '7',
        8 => '8',
        _ => '9',
    }
}

/// Writes a number in decimal digits.
pub fn decimal(n: u64) -> (r: String)
    ensures
        r@ == decimal_text(n as nat),
    decreases n,
{
    let mut out: String = if n < 10 {
        String::new()
    } else {
        decimal(n / 10)
    };
    out.push(digit_of(n % 10));
    assert(out@ =~= decimal_text(n as nat));
    out
}

/// A number in decimal digits, with zeros in front of one of fewer than three.
pub open spec fn three_digits(n: nat) -> Seq<char> {
    if n < 10 {
        seq!['0', '0'] + decimal_text(n)
    } else if n < 100 {
        seq!['0'] + decimal_text(n)
    } else {
        decimal_text(n)
    }
}

/// Writes a number in decimal digits, with zeros in front of one of fewer than three.
pub fn padded_decimal(n: u64) -> (r: String)
    ensures
        r@ == three_digits(n as nat),
{
    let mut out: String = String::new();
    if n < 10 {
        out.push('0');
        out.push('0');
    } else if n < 100 {
        out.push('0');
    }
    let r = out.concat(decimal(n).as_str());
    assert(r@ =~= three_digits(n as nat));
    r
}

/// A number that was written is read back.
pub proof fn written_numbers_read_back(n: nat)
    ensures
        all_digits(decimal_text(n)),
        decimal_value(decimal_text(n)) == n,
    decreases n,
{
    let t = decimal_text(n);
    if n < 10 {
        assert(t.drop_last() =~= Seq::<char>::empty());
        assert(decimal_value(Seq::<char>::empty()) == 0);
    } else {
        written_numbers_read_back(n / 10);
        assert(t.drop_last() =~= decimal_text(n / 10));
    }
}

/// Whether no text comes after a later one.
pub open spec fn in_order(texts: Seq<Seq<char>>) -> bool {
    forall|i: int, j: int|
        0 <= i < j < texts.len() ==> !text_lt(#[trigger] texts[j], #[trigger] texts[i])
}

/// Puts a text among others in their order.
pub fn insert_sorted(sorted: &mut Vec<String>, name: String)
    requires
        in_order(texts(old(sorted)@)),
    ensures
        in_order(texts(final(sorted)@)),
        texts(final(sorted)@).to_multiset() == texts(old(sorted)@).to_multiset().insert(
            name@,
        ),
{
    let ghost before = texts(sorted@);
    let mut i: usize = 0;
    while i < sorted.len() && !is_before(name.as_str(), sorted[i].as_str())
        invariant
            sorted@ == old(sorted)@,
            before == texts(sorted@),
            i <= sorted.len(),
            forall|k: int| 0 <= k < i ==> !text_lt(name@, #[trigger] before[k]),
        decreases sorted.len() - i,
    {
        i += 1;
    }
    proof {
        let after = before.insert(i as int, name@);
        assert forall|a: int, b: int| 0 <= a < b < after.len() implies !text_lt(
            #[trigger] after[b],
            #[trigger] after[a],
        ) by {
            if a < i && b == i {
                assert(after[a] == before[a]);
            } else if a == i && b > i {
                assert(after[b] == before[b - 1]);
                let at = before[i as int];
                if text_lt(before[b - 1], name@) {
                    text_lt_transitive(before[b - 1], name@, at);
                    if b - 1 > i {
                        assert(!text_lt(before[b - 1], before[i as int]));
                    } else {
                        text_lt_irreflexive(at);
                    }
                }
            } else {
                let a2 = if a < i {
                    a
                } else {
                    a - 1
                };
                let b2 = if b < i {
                    b
                } else {
                    b - 1
                };
                assert(after[a] == before[a2] && after[b] == before[b2]);
            }
        }
        vstd::seq_lib::to_multiset_insert(before, i as int, name@);
    }
    let ghost inserted = name@;
    sorted.insert(i, name);
    assert(texts(sorted@) =~= before.insert(i as int, inserted));
}

/// Tells whether a text comes before another.
pub fn is_before(a: &str, b: &str) -> (r: bool)
    ensures
        r == text_lt(a@, b@),
{
    precedence(a, b) == Precedence::Before
}

/// Pieces with the separator behind each.
pub open spec fn rejoined(done: Seq<Seq<char>>, separator: char) -> Seq<char>
    decreases done.len(),
{
    if done.len() == 0 {
        Seq::empty()
    } else {
        rejoined(done.drop_last(), separator) + done.last().push(separator)
    }
}

/// The pieces of a text, put together again with the separator between them, are the text, and none
/// of them holds the separator.
pub proof fn pieces_make_up_the_text(text: Seq<char>, separator: char, k: int)
    requires
        0 <= k < pieces(text, separator).len(),
    ensures
        rejoined(pieces(text, separator).drop_last(), separator) + pieces(text, separator).last()
            == text,
        !pieces(text, separator)[k].contains(separator),
{
    let n = text.len() as int;
    pieces_rejoin(text, separator, n);
    let (done, open) = pieces_upto(text, separator, n);
    assert(pieces(text, separator).drop_last() =~= done);
    assert(text.take(n) =~= text);
    if k < done.len() {
        assert(pieces(text, separator)[k] == done[k]);
    }
}

proof fn pieces_rejoin(text: Seq<char>, separator: char, i: int)
    requires
        0 <= i <= text.len(),
    ensures
        ({
            let (done, open) = pieces_upto(text, separator, i);
            &&& rejoined(done, separator) + open == text.take(i)
            &&& !open.contains(separator)
            &&& forall|k: int| 0 <= k < done.len() ==> !(#[trigger] done[k]).contains(separator)
        }),
    decreases i,
{
    let (done, open) = pieces_upto(text, separator, i);
    if i == 0 {
        assert(rejoined(done, separator) + open =~= text.take(0));
    } else {
        pieces_rejoin(text, separator, i - 1);
        let (before, left) = pieces_upto(text, separator, i - 1);
        assert(text.take(i) =~= text.take(i - 1).push(text[i - 1]));
        if text[i - 1] == separator {
            assert(done.drop_last() =~= before);
            assert(rejoined(done, separator) + open =~= (rejoined(before, separator) + left).push(
                separator,
            ));
        } else {
            assert(rejoined(done, separator) + open =~= (rejoined(before, separator) + left).push(
                text[i - 1],
            ));
            assert forall|k: int| 0 <= k < open.len() implies open[k] != separator by {
                if k < left.len() {
                    assert(open[k] == left[k]);
                    assert(left.contains(left[k]));
                }
            }
        }
    }
}

/// The words of a text are never empty and hold no white space.
pub proof fn words_hold_no_space(text: Seq<char>, k: int, j: int)
    requires
        0 <= k < words(text).len(),
        0 <= j < words(text)[k].len(),
    ensures
        words(text)[k].len() > 0,
        !is_space(words(text)[k][j]),
{
    words_are_spaceless(text, text.len() as int);
    let (done, open) = words_upto(text, text.len() as int);
    if k < done.len() {
        assert(words(text)[k] == done[k]);
    }
}

proof fn words_are_spaceless(text: Seq<char>, i: int)
    requires
        0 <= i <= text.len(),
    ensures
        ({
            let (done, open) = words_upto(text, i);
            &&& forall|j: int| 0 <= j < open.len() ==> !is_space(#[trigger] open[j])
            &&& forall|k: int, j: int|
                0 <= k < done.len() && 0 <= j < done[k].len() ==> !is_space(#[trigger] done[k][j])
            &&& forall|k: int| 0 <= k < done.len() ==> (#[trigger] done[k]).len() > 0
        }),
    decreases i,
{
    if i > 0 {
        words_are_spaceless(text, i - 1);
        let (before, left) = words_upto(text, i - 1);
        let (done, open) = words_upto(text, i);
        assert forall|k: int, j: int| 0 <= k < done.len() && 0 <= j < done[k].len() implies !is_space(
            #[trigger] done[k][j],
        ) by {
            if k < before.len() {
                assert(done[k] == before[k]);
                assert(!is_space(before[k][j]));
            } else {
                assert(done[k] == left);
                assert(!is_space(left[j]));
            }
        }
    }
}

/// A text begins or ends with another where its first or last characters are those, and contains it
/// where they stand anywhere in it.
pub proof fn parts_are_found_where_they_stand(before: Seq<char>, part: Seq<char>, after: Seq<char>)
    ensures
        has_prefix(part + after, part),
        has_suffix(before + part, part),
        contains_text(before + part + after, part),
{
    assert((part + after).subrange(0, part.len() as int) =~= part);
    let tail = before + part;
    assert(tail.subrange(tail.len() - part.len(), tail.len() as int) =~= part);
    let whole = before + part + after;
    assert(whole.subrange(before.len() as int, (before.len() + part.len()) as int) =~= part);
    assert(occurs_at(whole, part, before.len() as int));
}

/// A part that is found makes up the text with what is before and after it.
pub proof fn found_parts_are_there(text: Seq<char>, part: Seq<char>)
    ensures
        has_prefix(text, part) ==> text == part + text.skip(part.len() as int),
        has_suffix(text, part) ==> text == text.take(text.len() - part.len()) + part,
        contains_text(text, part) ==> exists|at: int|
            0 <= at <= text.len() - part.len() && #[trigger] text.take(at) + part + text.skip(
                at + part.len(),
            ) == text,
{
    if has_prefix(text, part) {
        assert(text.subrange(0, part.len() as int) =~= part);
        assert(text =~= text.subrange(0, part.len() as int) + text.skip(part.len() as int));
    }
    if has_suffix(text, part) {
        let at = text.len() - part.len();
        assert(text =~= text.take(at) + text.subrange(at, text.len() as int));
    }
    if contains_text(text, part) {
        let at = choose|at: int| occurs_at(text, part, at);
        assert(text.take(at) + text.subrange(at, at + part.len()) + text.skip(at + part.len())
            =~= text);
    }
}

/// Lower case changes the capital letters of ASCII, and nothing else.
pub proof fn capitals_are_lowered(text: Seq<char>, i: int)
    requires
        0 <= i < text.len(),
    ensures
        lower_text(text).len() == text.len(),
        'A' <= text[i] && text[i] <= 'Z' ==> lower_text(text)[i] as u32 == text[i] as u32 + 32,
        !('A' <= text[i] && text[i] <= 'Z') ==> lower_text(text)[i] == text[i],
{
}

/// A written number reads as itself, with or without a plus, and not at all beyond its limit.
pub proof fn numbers_read_as_written(n: nat, limit: nat)
    ensures
        n <= limit ==> unsigned_value(decimal_text(n), limit) == Some(n),
        n > limit ==> unsigned_value(decimal_text(n), limit) is None,
        n <= limit ==> unsigned_value(seq!['+'] + decimal_text(n), limit) == Some(n),
        unsigned_value(Seq::empty(), limit) is None,
{
    written_numbers_read_back(n);
    let written = decimal_text(n);
    assert(is_digit(written[0]));
    assert((seq!['+'] + written).skip(1) =~= written);
}

} // verus!
