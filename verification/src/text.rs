//! Words, numbers and addresses in text.

use crate::addr::Ipv4Addr;
use vstd::prelude::*;

verus! {

/// `String::push`: the text is extended by the character.
pub assume_specification[ String::push ](s: &mut String, c: char)
    ensures
        final(s)@ == old(s)@.push(c),
;

/// Whether a character is white space: it has the Unicode property `White_Space`.
pub open spec fn is_space(c: char) -> bool {
    let n = c as u32;
    ||| 0x09 <= n <= 0x0d
    ||| n == 0x20
    ||| n == 0x85
    ||| n == 0xa0
    ||| n == 0x1680
    ||| 0x2000 <= n <= 0x200a
    ||| n == 0x2028
    ||| n == 0x2029
    ||| n == 0x202f
    ||| n == 0x205f
    ||| n == 0x3000
}

/// The pieces of `s` between the characters that satisfy `cut`.
pub open spec fn pieces(s: Seq<char>, cut: spec_fn(char) -> bool) -> Seq<Seq<char>>
    decreases s.len(),
{
    if s.len() == 0 {
        seq![Seq::empty()]
    } else {
        let before = pieces(s.drop_last(), cut);
        if cut(s.last()) {
            before.push(Seq::empty())
        } else {
            before.drop_last().push(before.last().push(s.last()))
        }
    }
}

/// The words of `s`: what stands between white space and is not empty.
pub open spec fn words(s: Seq<char>) -> Seq<Seq<char>> {
    pieces(s, |c: char| is_space(c)).filter(|w: Seq<char>| w.len() > 0)
}

/// What a list of strings says.
pub open spec fn texts(v: Seq<String>) -> Seq<Seq<char>> {
    v.map_values(|s: String| s@)
}

/// Text has at least one piece.
pub proof fn lemma_pieces_nonempty(s: Seq<char>, cut: spec_fn(char) -> bool)
    ensures
        pieces(s, cut).len() >= 1,
    decreases s.len(),
{
    if s.len() > 0 {
        lemma_pieces_nonempty(s.drop_last(), cut);
    }
}

/// The characters of a text.
pub fn chars_of(s: &str) -> (r: Vec<char>)
    ensures
        r@ == s@,
{
    let mut r: Vec<char> = Vec::new();
    for c in it: s.chars()
        invariant
            it.seq() == s@,
            r@ == s@.take(it.index()),
    {
        r.push(c);
        assert(r@ =~= s@.take(it.index() + 1));
    }
    assert(s@.take(s@.len() as int) =~= s@);
    r
}

/// The text with the given characters.
pub fn string_of(chars: &[char]) -> (r: String)
    ensures
        r@ == chars@,
{
    let mut r = String::new();
    let mut i: usize = 0;
    while i < chars.len()
        invariant
            i <= chars@.len(),
            r@ == chars@.take(i as int),
        decreases chars@.len() - i,
    {
        r.push(chars[i]);
        i = i + 1;
        assert(r@ =~= chars@.take(i as int));
    }
    assert(chars@.take(chars@.len() as int) =~= chars@);
    r
}

/// Whether a character is white space.
pub fn is_whitespace(c: char) -> (r: bool)
    ensures
        r == is_space(c),
{
    let n: u32 = c as u32;
    (0x09 <= n && n <= 0x0d) || n == 0x20 || n == 0x85 || n == 0xa0 || n == 0x1680 || (0x2000 <= n
        && n <= 0x200a) || n == 0x2028 || n == 0x2029 || n == 0x202f || n == 0x205f || n == 0x3000
}

/// Whether two texts are the same.
pub fn same_text(a: &str, b: &str) -> (r: bool)
    ensures
        r == (a@ == b@),
{
    let x = chars_of(a);
    let y = chars_of(b);
    if x.len() != y.len() {
        return false;
    }
    let mut i: usize = 0;
    while i < x.len()
        invariant
            i <= x@.len(),
            x@.len() == y@.len(),
            x@ == a@,
            y@ == b@,
            forall|j: int| 0 <= j < i ==> x@[j] == y@[j],
        decreases x@.len() - i,
    {
        if x[i] != y[i] {
            return false;
        }
        i = i + 1;
    }
    assert(a@ =~= b@);
    true
}

/// Filtering a longer sequence.
proof fn lemma_filter_push(v: Seq<Seq<char>>, w: Seq<char>)
    ensures
        v.push(w).filter(|w: Seq<char>| w.len() > 0) == (if w.len() > 0 {
            v.filter(|w: Seq<char>| w.len() > 0).push(w)
        } else {
            v.filter(|w: Seq<char>| w.len() > 0)
        }),
{
    reveal(Seq::filter);
    assert(v.push(w).drop_last() =~= v);
}

/// Splits a line into its words.
pub fn split_whitespace(line: &str) -> (r: Vec<String>)
    ensures
        texts(r@) == words(line@),
{
    let chars = chars_of(line);
    let mut r: Vec<String> = Vec::new();
    let mut word: Vec<char> = Vec::new();
    let ghost cut = |c: char| is_space(c);
    let ghost mut done: Seq<Seq<char>> = Seq::empty();
    let mut i: usize = 0;
    proof {
        reveal(Seq::filter);
        assert(chars@.take(0) =~= Seq::empty());
        assert(pieces(chars@.take(0), cut) =~= done.push(word@));
        assert(texts(r@) =~= done.filter(|w: Seq<char>| w.len() > 0));
    }
    while i < chars.len()
        invariant
            i <= chars@.len(),
            cut == (|c: char| is_space(c)),
            pieces(chars@.take(i as int), cut) == done.push(word@),
            texts(r@) == done.filter(|w: Seq<char>| w.len() > 0),
        decreases chars@.len() - i,
    {
        let c: char = chars[i];
        let ghost word0 = word@;
        let ghost done0 = done;
        let ghost before = pieces(chars@.take(i as int), cut);
        proof {
            assert(chars@.take(i + 1).drop_last() =~= chars@.take(i as int));
            assert(chars@.take(i + 1).last() == c);
            assert(before.drop_last() =~= done);
            assert(before.last() == word@);
        }
        if is_whitespace(c) {
            let ghost r0 = r@;
            if word.len() > 0 {
                let s = string_of(word.as_slice());
                r.push(s);
                assert(texts(r@) =~= texts(r0).push(word0));
            }
            word = Vec::new();
            proof {
                done = done.push(word0);
                lemma_filter_push(done0, word0);
                assert(word@ =~= Seq::empty());
            }
        } else {
            word.push(c);
        }
        i = i + 1;
        assert(pieces(chars@.take(i as int), cut) =~= done.push(word@));
    }
    let ghost r0 = r@;
    if word.len() > 0 {
        let s = string_of(word.as_slice());
        r.push(s);
        assert(texts(r@) =~= texts(r0).push(word@));
    }
    proof {
        lemma_filter_push(done, word@);
        assert(chars@.take(chars@.len() as int) =~= line@);
    }
    r
}

/// Whether a character is a decimal digit.
pub open spec fn is_digit(c: char) -> bool {
    '0' <= c <= '9'
}

/// Whether `s` consists of decimal digits.
pub open spec fn all_digits(s: Seq<char>) -> bool {
    forall|i: int| 0 <= i < s.len() ==> is_digit(#[trigger] s[i])
}

/// The number that the digits of `s` write in base ten.
pub open spec fn decimal_value(s: Seq<char>) -> nat
    decreases s.len(),
{
    if s.len() == 0 {
        0
    } else {
        decimal_value(s.drop_last()) * 10 + (s.last() as u32 - '0' as u32) as nat
    }
}

/// The number that `s` writes: one or more digits, after an optional plus sign.
pub open spec fn number(s: Seq<char>) -> Option<nat> {
    let digits = if s.len() > 0 && s[0] == '+' {
        s.skip(1)
    } else {
        s
    };
    if digits.len() > 0 && all_digits(digits) {
        Some(decimal_value(digits))
    } else {
        None
    }
}

/// The number that `s` writes, where it is no more than `max`.
pub open spec fn bounded_number(s: Seq<char>, max: nat) -> Option<nat> {
    match number(s) {
        Some(n) => if n <= max {
            Some(n)
        } else {
            None
        },
        None => None,
    }
}

/// More digits never make a smaller number.
proof fn lemma_value_grows(s: Seq<char>, i: int)
    requires
        0 <= i <= s.len(),
    ensures
        decimal_value(s.take(i)) <= decimal_value(s),
    decreases s.len(),
{
    if i < s.len() {
        lemma_value_grows(s.drop_last(), i);
        assert(s.drop_last().take(i) =~= s.take(i));
    } else {
        assert(s.take(i) =~= s);
    }
}

/// The number that the characters write in base ten, where all are digits and it is no
/// more than `max`.
fn parse_digits(chars: &[char], max: u64) -> (r: Option<u64>)
    ensures
        match r {
            Some(n) => all_digits(chars@) && n == decimal_value(chars@) && n <= max,
            None => !all_digits(chars@) || decimal_value(chars@) > max,
        },
{
    let mut n: u64 = 0;
    let mut i: usize = 0;
    assert(chars@.take(0) =~= Seq::empty());
    while i < chars.len()
        invariant
            i <= chars@.len(),
            n == decimal_value(chars@.take(i as int)),
            n <= max,
            forall|j: int| 0 <= j < i ==> is_digit(#[trigger] chars@[j]),
        decreases chars@.len() - i,
    {
        let c: char = chars[i];
        if !(c >= '0' && c <= '9') {
            assert(!is_digit(chars@[i as int]));
            return None;
        }
        let digit: u64 = (c as u32 - '0' as u32) as u64;
        proof {
            assert(chars@.take(i + 1).drop_last() =~= chars@.take(i as int));
            assert(chars@.take(i + 1).last() == c);
            assert(decimal_value(chars@.take(i + 1)) == n * 10 + digit);
            lemma_value_grows(chars@, i + 1);
        }
        if digit > max {
            return None;
        }
        if n > (max - digit) / 10 {
            assert(n * 10 + digit > max);
            return None;
        }
        n = n * 10 + digit;
        i = i + 1;
    }
    assert(chars@.take(chars@.len() as int) =~= chars@);
    Some(n)
}

/// Reads a number that is no more than `max`.
pub fn parse_number(s: &str, max: u64) -> (r: Option<u64>)
    ensures
        match r {
            Some(n) => bounded_number(s@, max as nat) == Some(n as nat),
            None => bounded_number(s@, max as nat) is None,
        },
{
    let chars = chars_of(s);
    let start: usize = if chars.len() > 0 && chars[0] == '+' {
        1
    } else {
        0
    };
    if start == chars.len() {
        return None;
    }
    let digits = &chars.as_slice()[start..chars.len()];
    assert(digits@ =~= (if s@.len() > 0 && s@[0] == '+' {
        s@.skip(1)
    } else {
        s@
    }));
    parse_digits(digits, max)
}

/// Reads a `u8`.
pub fn parse_u8(s: &str) -> (r: Option<u8>)
    ensures
        match r {
            Some(n) => bounded_number(s@, u8::MAX as nat) == Some(n as nat),
            None => bounded_number(s@, u8::MAX as nat) is None,
        },
{
    match parse_number(s, u8::MAX as u64) {
        Some(n) => Some(n as u8),
        None => None,
    }
}

/// Reads a `u16`.
pub fn parse_u16(s: &str) -> (r: Option<u16>)
    ensures
        match r {
            Some(n) => bounded_number(s@, u16::MAX as nat) == Some(n as nat),
            None => bounded_number(s@, u16::MAX as nat) is None,
        },
{
    match parse_number(s, u16::MAX as u64) {
        Some(n) => Some(n as u16),
        None => None,
    }
}

/// Reads a `usize`.
pub fn parse_usize(s: &str) -> (r: Option<usize>)
    ensures
        match r {
            Some(n) => bounded_number(s@, usize::MAX as nat) == Some(n as nat),
            None => bounded_number(s@, usize::MAX as nat) is None,
        },
{
    match parse_number(s, usize::MAX as u64) {
        Some(n) => Some(n as usize),
        None => None,
    }
}

/// The octet that `s` writes: one to three digits, without a leading zero
/// unless it is zero itself, and no more than 255.
pub open spec fn octet(s: Seq<char>) -> Option<u8> {
    if 1 <= s.len() <= 3 && all_digits(s) && (s[0] == '0' ==> s.len() == 1) && decimal_value(s)
        <= 255 {
        Some(decimal_value(s) as u8)
    } else {
        None
    }
}

/// The address that `s` writes: four octets between dots.
pub open spec fn ipv4(s: Seq<char>) -> Option<Ipv4Addr> {
    let parts = pieces(s, |c: char| c == '.');
    if parts.len() == 4 && octet(parts[0]) is Some && octet(parts[1]) is Some && octet(parts[2])
        is Some && octet(parts[3]) is Some {
        Some(
            Ipv4Addr {
                a: octet(parts[0])->0,
                b: octet(parts[1])->0,
                c: octet(parts[2])->0,
                d: octet(parts[3])->0,
            },
        )
    } else {
        None
    }
}

fn parse_octet(chars: &[char]) -> (r: Option<u8>)
    ensures
        r == octet(chars@),
{
    if chars.len() == 0 || chars.len() > 3 {
        return None;
    }
    if chars[0] == '0' && chars.len() > 1 {
        return None;
    }
    match parse_digits(chars, 255) {
        Some(n) => Some(n as u8),
        None => None,
    }
}

/// Splits text at the dots.
fn split_dots(chars: &[char]) -> (r: Vec<Vec<char>>)
    ensures
        r@.len() == pieces(chars@, |c: char| c == '.').len(),
        forall|i: int|
            0 <= i < r@.len() ==> (#[trigger] r@[i])@ == pieces(chars@, |c: char| c == '.')[i],
{
    let ghost cut = |c: char| c == '.';
    let mut done: Vec<Vec<char>> = Vec::new();
    let mut part: Vec<char> = Vec::new();
    let mut i: usize = 0;
    assert(chars@.take(0) =~= Seq::empty());
    while i < chars.len()
        invariant
            i <= chars@.len(),
            cut == (|c: char| c == '.'),
            pieces(chars@.take(i as int), cut).len() == done@.len() + 1,
            pieces(chars@.take(i as int), cut).last() == part@,
            forall|k: int|
                0 <= k < done@.len() ==> (#[trigger] done@[k])@ == pieces(
                    chars@.take(i as int),
                    cut,
                )[k],
        decreases chars@.len() - i,
    {
        let c: char = chars[i];
        proof {
            assert(chars@.take(i + 1).drop_last() =~= chars@.take(i as int));
            assert(chars@.take(i + 1).last() == c);
        }
        if c == '.' {
            done.push(part);
            part = Vec::new();
            assert(part@ =~= Seq::empty());
        } else {
            part.push(c);
        }
        i = i + 1;
    }
    assert(chars@.take(chars@.len() as int) =~= chars@);
    done.push(part);
    done
}

/// Reads an address in dotted decimal notation.
pub fn parse_ipv4(s: &str) -> (r: Option<Ipv4Addr>)
    ensures
        r == ipv4(s@),
{
    let chars = chars_of(s);
    let parts = split_dots(chars.as_slice());
    if parts.len() != 4 {
        return None;
    }
    match (
        parse_octet(parts[0].as_slice()),
        parse_octet(parts[1].as_slice()),
        parse_octet(parts[2].as_slice()),
        parse_octet(parts[3].as_slice()),
    ) {
        (Some(a), Some(b), Some(c), Some(d)) => Some(Ipv4Addr::new(a, b, c, d)),
        _ => None,
    }
}

/// The character of a decimal digit.
pub open spec fn digit_char(d: nat) -> char {
    ('0' as u32 + d) as char
}

/// How a number is written in base ten.
pub open spec fn decimal(n: nat) -> Seq<char>
    decreases n,
{
    if n < 10 {
        seq![digit_char(n)]
    } else {
        decimal(n / 10).push(digit_char(n % 10))
    }
}

fn digit_of(d: u64) -> (r: char)
    requires
        d < 10,
    ensures
        r == digit_char(d as nat),
{
    if d == 0 {
        '0'
    } else if d == 1 {
        '1'
    } else if d == 2 {
        '2'
    } else if d == 3 {
        '3'
    } else if d == 4 {
        '4'
    } else if d == 5 {
        '5'
    } else if d == 6 {
        '6'
    } else if d == 7 {
        '7'
    } else if d == 8 {
        '8'
    } else {
        '9'
    }
}

/// Writes a number in base ten.
pub fn show_number(n: u64) -> (r: String)
    ensures
        r@ == decimal(n as nat),
    decreases n,
{
    let mut r = if n < 10 {
        String::new()
    } else {
        show_number(n / 10)
    };
    r.push(digit_of(n % 10));
    assert(r@ =~= decimal(n as nat));
    r
}

/// How an address is written.
pub open spec fn dotted(addr: Ipv4Addr) -> Seq<char> {
    decimal(addr.a as nat) + seq!['.'] + decimal(addr.b as nat) + seq!['.'] + decimal(
        addr.c as nat,
    ) + seq!['.'] + decimal(addr.d as nat)
}

/// Writes an address in dotted decimal notation.
pub fn show_ipv4(addr: Ipv4Addr) -> (r: String)
    ensures
        r@ == dotted(addr),
{
    let mut r = show_number(addr.a as u64);
    r.push('.');
    r.append(show_number(addr.b as u64).as_str());
    r.push('.');
    r.append(show_number(addr.c as u64).as_str());
    r.push('.');
    r.append(show_number(addr.d as u64).as_str());
    assert(r@ =~= dotted(addr));
    r
}

/// Reading a number back gives what was written.
pub proof fn law_number_round_trip(n: nat)
    ensures
        number(decimal(n)) == Some(n),
{
    lemma_decimal(n);
}

/// What a number in base ten looks like.
proof fn lemma_decimal(n: nat)
    ensures
        decimal(n).len() >= 1,
        all_digits(decimal(n)),
        decimal_value(decimal(n)) == n,
        n > 0 ==> decimal(n)[0] != '0',
        n == 0 ==> decimal(n).len() == 1,
        n < 10 ==> decimal(n).len() == 1,
        10 <= n < 100 ==> decimal(n).len() == 2,
        100 <= n < 1000 ==> decimal(n).len() == 3,
    decreases n,
{
    let s = decimal(n);
    if n < 10 {
        assert(s.drop_last() =~= Seq::empty());
        assert(decimal_value(s.drop_last()) == 0);
    } else {
        lemma_decimal(n / 10);
        assert(s.drop_last() =~= decimal(n / 10));
        assert(s.last() == digit_char(n % 10));
        assert(is_digit(digit_char(n % 10)));
        assert forall|i: int| 0 <= i < s.len() implies is_digit(#[trigger] s[i]) by {
            if i < s.len() - 1 {
                assert(is_digit(decimal(n / 10)[i]));
            }
        }
    }
}

/// Text without a cut extends the last piece.
proof fn lemma_pieces_extend(s: Seq<char>, t: Seq<char>, cut: spec_fn(char) -> bool)
    requires
        forall|i: int| 0 <= i < t.len() ==> !cut(#[trigger] t[i]),
    ensures
        pieces(s + t, cut) == pieces(s, cut).drop_last().push(pieces(s, cut).last() + t),
    decreases t.len(),
{
    lemma_pieces_nonempty(s, cut);
    let before = pieces(s, cut);
    if t.len() == 0 {
        assert(s + t =~= s);
        assert(before.last() + t =~= before.last());
        assert(before =~= before.drop_last().push(before.last()));
    } else {
        lemma_pieces_extend(s, t.drop_last(), cut);
        assert((s + t).drop_last() =~= s + t.drop_last());
        let mid = pieces(s + t.drop_last(), cut);
        assert(mid.drop_last() =~= before.drop_last());
        assert((before.last() + t.drop_last()).push(t.last()) =~= before.last() + t);
        assert(pieces(s + t, cut) =~= before.drop_last().push(before.last() + t));
    }
}

/// A cut, and text without a cut behind it, make one more piece.
proof fn lemma_pieces_next(s: Seq<char>, c: char, t: Seq<char>, cut: spec_fn(char) -> bool)
    requires
        cut(c),
        forall|i: int| 0 <= i < t.len() ==> !cut(#[trigger] t[i]),
    ensures
        pieces(s + seq![c] + t, cut) == pieces(s, cut).push(t),
{
    assert((s + seq![c]).drop_last() =~= s);
    lemma_pieces_extend(s + seq![c], t, cut);
    let after = pieces(s, cut).push(Seq::empty());
    assert(pieces(s + seq![c], cut) =~= after);
    assert(after.drop_last() =~= pieces(s, cut));
    assert(after.last() + t =~= t);
}

/// Reading an address back gives what was written.
pub proof fn law_address_round_trip(addr: Ipv4Addr)
    ensures
        ipv4(dotted(addr)) == Some(addr),
{
    let cut = |c: char| c == '.';
    let (a, b, c, d) = (
        decimal(addr.a as nat),
        decimal(addr.b as nat),
        decimal(addr.c as nat),
        decimal(addr.d as nat),
    );
    lemma_decimal(addr.a as nat);
    lemma_decimal(addr.b as nat);
    lemma_decimal(addr.c as nat);
    lemma_decimal(addr.d as nat);
    assert forall|i: int| 0 <= i < a.len() implies !cut(#[trigger] a[i]) by {
        assert(is_digit(a[i]));
    }
    assert forall|i: int| 0 <= i < b.len() implies !cut(#[trigger] b[i]) by {
        assert(is_digit(b[i]));
    }
    assert forall|i: int| 0 <= i < c.len() implies !cut(#[trigger] c[i]) by {
        assert(is_digit(c[i]));
    }
    assert forall|i: int| 0 <= i < d.len() implies !cut(#[trigger] d[i]) by {
        assert(is_digit(d[i]));
    }
    let none = Seq::<char>::empty();
    lemma_pieces_extend(none, a, cut);
    assert(none + a =~= a);
    assert(pieces(a, cut) =~= seq![a]);
    lemma_pieces_next(a, '.', b, cut);
    let ab = a + seq!['.'] + b;
    assert(pieces(ab, cut) =~= seq![a, b]);
    lemma_pieces_next(ab, '.', c, cut);
    let abc = ab + seq!['.'] + c;
    assert(pieces(abc, cut) =~= seq![a, b, c]);
    lemma_pieces_next(abc, '.', d, cut);
    assert(pieces(dotted(addr), cut) =~= seq![a, b, c, d]);
}

/// Parts with a separator between each two of them.
pub open spec fn separated(parts: Seq<Seq<char>>, separator: char) -> Seq<char>
    decreases parts.len(),
{
    if parts.len() == 0 {
        Seq::empty()
    } else if parts.len() == 1 {
        parts[0]
    } else {
        separated(parts.drop_last(), separator) + seq![separator] + parts.last()
    }
}

/// Whether text can stand as a word: it is not empty and has no white space in it.
pub open spec fn is_word(s: Seq<char>) -> bool {
    &&& s.len() > 0
    &&& forall|i: int| 0 <= i < s.len() ==> !is_space(#[trigger] s[i])
}

/// Of the characters of ASCII, the space is white space, and so are the tab and the four that follow
/// it. The line separators and spaces of Unicode are white space as well, and no character
/// behind the last of those is.
pub proof fn law_white_space(c: char)
    ensures
        (c as u32) < 0x80 ==> (is_space(c) <==> c == ' ' || '\t' <= c <= '\r'),
        c == '\u{85}' || c == '\u{a0}' || c == '\u{1680}' || c == '\u{2028}' || c == '\u{2029}' || c
            == '\u{202f}' || c == '\u{205f}' || c == '\u{3000}' ==> is_space(c),
        '\u{2000}' <= c <= '\u{200a}' ==> is_space(c),
        c > '\u{3000}' ==> !is_space(c),
{
}

/// White space parts the words in front of it from those behind it.
pub proof fn law_white_space_parts_words(s: Seq<char>, c: char, t: Seq<char>)
    requires
        is_space(c),
    ensures
        words(s + seq![c] + t) == words(s) + words(t),
        words(s + seq![c]) == words(s),
        words(seq![c] + t) == words(t),
        words(Seq::empty()).len() == 0,
{
    let cut = |c: char| is_space(c);
    let some = |w: Seq<char>| w.len() > 0;
    let none = Seq::<char>::empty();
    lemma_pieces_parted(s, c, t, cut);
    lemma_pieces_parted(s, c, none, cut);
    lemma_pieces_parted(none, c, t, cut);
    assert(s + seq![c] + none =~= s + seq![c]);
    assert(none + seq![c] + t =~= seq![c] + t);
    Seq::filter_distributes_over_add(pieces(s, cut), pieces(t, cut), some);
    Seq::filter_distributes_over_add(pieces(s, cut), pieces(none, cut), some);
    Seq::filter_distributes_over_add(pieces(none, cut), pieces(t, cut), some);
    assert(pieces(none, cut).filter(some) =~= Seq::empty()) by {
        reveal_with_fuel(Seq::filter, 2);
        assert(pieces(none, cut) =~= seq![none]);
        assert(seq![none].drop_last() =~= Seq::<Seq<char>>::empty());
    }
}

/// What stands in front of a cut and what stands behind it are cut up each for itself.
proof fn lemma_pieces_parted(s: Seq<char>, c: char, t: Seq<char>, cut: spec_fn(char) -> bool)
    requires
        cut(c),
    ensures
        pieces(s + seq![c] + t, cut) == pieces(s, cut) + pieces(t, cut),
    decreases t.len(),
{
    lemma_pieces_nonempty(t, cut);
    let all = s + seq![c] + t;
    if t.len() == 0 {
        assert(all.drop_last() =~= s);
        assert(all.last() == c);
        assert(pieces(t, cut) =~= seq![Seq::<char>::empty()]);
        assert(pieces(all, cut) =~= pieces(s, cut) + pieces(t, cut));
    } else {
        lemma_pieces_parted(s, c, t.drop_last(), cut);
        lemma_pieces_nonempty(t.drop_last(), cut);
        assert(all.drop_last() =~= s + seq![c] + t.drop_last());
        assert(all.last() == t.last());
        assert(pieces(all, cut) =~= pieces(s, cut) + pieces(t, cut));
    }
}

/// A word by itself is the one word of its text.
pub proof fn law_word_is_its_own_text(w: Seq<char>)
    requires
        is_word(w),
    ensures
        words(w) == seq![w],
{
    let cut = |c: char| is_space(c);
    let none = Seq::<char>::empty();
    lemma_pieces_extend(none, w, cut);
    assert(none + w =~= w);
    assert(pieces(w, cut) =~= seq![w]);
    reveal(Seq::filter);
    assert(seq![w].drop_last() =~= Seq::<Seq<char>>::empty());
    assert(words(w) =~= seq![w]);
}

/// Words that are written with white space between them are read back, in their order.
pub proof fn law_words_round_trip(parts: Seq<Seq<char>>, separator: char)
    requires
        is_space(separator),
        forall|i: int| 0 <= i < parts.len() ==> is_word(#[trigger] parts[i]),
    ensures
        words(separated(parts, separator)) == parts,
    decreases parts.len(),
{
    if parts.len() == 0 {
        law_white_space_parts_words(Seq::empty(), separator, Seq::empty());
        assert(words(Seq::empty()) =~= parts);
    } else {
        law_word_is_its_own_text(parts.last());
        if parts.len() == 1 {
            assert(parts =~= seq![parts[0]]);
        } else {
            law_words_round_trip(parts.drop_last(), separator);
            law_white_space_parts_words(
                separated(parts.drop_last(), separator),
                separator,
                parts.last(),
            );
            assert(parts =~= parts.drop_last() + seq![parts.last()]);
        }
    }
}

/// Numbers and addresses that are written can stand as words.
pub proof fn law_written_values_are_words(n: nat, addr: Ipv4Addr)
    ensures
        is_word(decimal(n)),
        is_word(dotted(addr)),
{
    lemma_decimal(n);
    lemma_decimal(addr.a as nat);
    lemma_decimal(addr.b as nat);
    lemma_decimal(addr.c as nat);
    lemma_decimal(addr.d as nat);
    assert forall|i: int| 0 <= i < decimal(n).len() implies !is_space(#[trigger] decimal(n)[i]) by {
        assert(is_digit(decimal(n)[i]));
    }
    let s = dotted(addr);
    let (a, b, c, d) = (
        decimal(addr.a as nat),
        decimal(addr.b as nat),
        decimal(addr.c as nat),
        decimal(addr.d as nat),
    );
    assert forall|i: int| 0 <= i < s.len() implies !is_space(#[trigger] s[i]) by {
        let (p, q, r) = (a.len() + 1, a.len() + b.len() + 2, a.len() + b.len() + c.len() + 3);
        if i < a.len() {
            assert(is_digit(a[i]));
        } else if p <= i < q - 1 {
            assert(is_digit(b[i - p]));
        } else if q <= i < r - 1 {
            assert(is_digit(c[i - q]));
        } else if r <= i {
            assert(is_digit(d[i - r]));
        }
    }
}

/// A digit behind a number multiplies it by ten and adds the digit, a plus sign in front of one that
/// has none changes nothing, and no other character can stand in a number.
pub proof fn law_numbers_are_decimal(s: Seq<char>, c: char)
    ensures
        number(s) is Some && '0' <= c <= '9' ==> number(s.push(c)) == Some(
            (number(s)->0 * 10 + (c as int - 48)) as nat,
        ),
        '0' <= c <= '9' ==> number(seq![c]) == Some((c as int - 48) as nat),
        number(s) is Some && s[0] != '+' ==> number(seq!['+'] + s) == number(s),
        s.len() > 0 && !('0' <= c <= '9') ==> number(s.push(c)) is None,
        !('0' <= c <= '9') && c != '+' ==> number(seq![c] + s) is None,
        number(Seq::empty()) is None,
        number(seq!['+']) is None,
{
    let t = s.push(c);
    if s.len() > 0 {
        if s[0] == '+' {
            assert(t.skip(1) =~= s.skip(1).push(c));
            assert(t.skip(1).drop_last() =~= s.skip(1));
            if !is_digit(c) {
                assert(t.skip(1)[s.len() - 1] == c);
            } else if number(s) is Some {
                assert forall|i: int| 0 <= i < t.skip(1).len() implies is_digit(
                    #[trigger] t.skip(1)[i],
                ) by {
                    if i < s.len() - 1 {
                        assert(t.skip(1)[i] == s.skip(1)[i]);
                    }
                }
            }
        } else {
            assert(t.drop_last() =~= s);
            if !is_digit(c) {
                assert(t[s.len() as int] == c);
            }
        }
    }
    assert(seq![c].drop_last() =~= Seq::<char>::empty());
    assert(decimal_value(Seq::empty()) == 0);
    let plus = seq!['+'] + s;
    assert(plus[0] == '+');
    assert(plus.skip(1) =~= s);
    let front = seq![c] + s;
    assert(front[0] == c);
    assert(seq!['+'].skip(1) =~= Seq::<char>::empty());
}

/// A number is read where it is no more than the limit, and nowhere else.
pub proof fn law_numbers_are_bounded(n: nat, max: nat, s: Seq<char>)
    ensures
        n <= max ==> bounded_number(decimal(n), max) == Some(n),
        n > max ==> bounded_number(decimal(n), max) is None,
        bounded_number(s, max) is Some ==> number(s) == bounded_number(s, max)
            && bounded_number(s, max)->0 <= max,
{
    law_number_round_trip(n);
}

/// Digits that do not start with a needless zero are how their number is written.
proof fn lemma_decimal_is_unique(s: Seq<char>)
    requires
        s.len() > 0,
        all_digits(s),
        s[0] == '0' ==> s.len() == 1,
    ensures
        decimal(decimal_value(s)) == s,
        s[0] != '0' ==> decimal_value(s) > 0,
    decreases s.len(),
{
    let rest = s.drop_last();
    let c = s.last();
    assert(is_digit(c));
    let d = (c as u32 - '0' as u32) as nat;
    assert(digit_char(d) == c);
    if s.len() == 1 {
        assert(rest =~= Seq::<char>::empty());
        assert(decimal_value(rest) == 0);
        assert(s =~= seq![c]);
    } else {
        assert(rest[0] == s[0]);
        assert forall|i: int| 0 <= i < rest.len() implies is_digit(#[trigger] rest[i]) by {
            assert(rest[i] == s[i]);
        }
        lemma_decimal_is_unique(rest);
        let n = decimal_value(s);
        assert(n == decimal_value(rest) * 10 + d);
        assert(n / 10 == decimal_value(rest));
        assert(n % 10 == d);
        assert(n >= 10);
        assert(s =~= rest.push(c));
    }
}

/// The pieces of text make up the text again.
proof fn lemma_pieces_separated(s: Seq<char>, separator: char)
    ensures
        separated(pieces(s, |c: char| c == separator), separator) == s,
    decreases s.len(),
{
    let cut = |c: char| c == separator;
    let parts = pieces(s, cut);
    if s.len() == 0 {
        assert(parts[0] =~= s);
    } else {
        let before = pieces(s.drop_last(), cut);
        lemma_pieces_nonempty(s.drop_last(), cut);
        lemma_pieces_separated(s.drop_last(), separator);
        assert(s =~= s.drop_last() + seq![s.last()]);
        if cut(s.last()) {
            assert(parts.drop_last() =~= before);
            assert(separated(parts, separator) =~= s);
        } else {
            assert(parts.drop_last() =~= before.drop_last());
            assert(parts.last() =~= before.last() + seq![s.last()]);
            assert(separated(parts, separator) =~= separated(before, separator) + seq![s.last()]);
        }
    }
}

/// There is one way to write an address: text that is read as an address is how the address is
/// written.
pub proof fn law_addresses_are_written_one_way(s: Seq<char>, addr: Ipv4Addr)
    ensures
        ipv4(s) == Some(addr) <==> s == dotted(addr),
{
    law_address_round_trip(addr);
    if ipv4(s) == Some(addr) {
        let cut = |c: char| c == '.';
        let parts = pieces(s, cut);
        lemma_pieces_separated(s, '.');
        lemma_decimal_is_unique(parts[0]);
        lemma_decimal_is_unique(parts[1]);
        lemma_decimal_is_unique(parts[2]);
        lemma_decimal_is_unique(parts[3]);
        assert(separated(parts, '.') == dotted(addr)) by {
            let three = parts.drop_last();
            let two = three.drop_last();
            let one = two.drop_last();
            assert(separated(one, '.') == parts[0]);
            assert(separated(two, '.') == parts[0] + seq!['.'] + parts[1]);
            assert(separated(three, '.') == parts[0] + seq!['.'] + parts[1] + seq!['.']
                + parts[2]);
        }
    }
}

} // verus!
