//! Verified building blocks for rendering JSON text: string escaping and
//! decimal number formatting, each specified at the level of character
//! sequences and implemented by functions proved against those specifications.
//!
//! The escaping scheme is the common JSON one: `"` and `\` get a backslash
//! escape, the named control characters use their short forms (`\b`, `\t`,
//! `\n`, `\f`, `\r`), every other control character below `U+0020` is written
//! as `\u00` followed by two lowercase hex digits, and all remaining
//! characters pass through unchanged.

use vstd::prelude::*;

verus! {

/// The character for digit value `d` in `0..16`: `0`-`9` then lowercase
/// `a`-`f`. Used for decimal digits (values below ten) and for the two hex
/// digits of a `\u00xx` control-character escape.
pub open spec fn digit_char(d: nat) -> char {
    if d == 0 {
        '0'
    } else if d == 1 {
        '1'
    } else if d == 2 {
        '2'
    } else if d == 3 {
        '3'
    } else if d == 4 {
        '4'
    } else if d == 5 {
        '5'
    } else if d == 6 {
        '6'
    } else if d == 7 {
        '7'
    } else if d == 8 {
        '8'
    } else if d == 9 {
        '9'
    } else if d == 10 {
        'a'
    } else if d == 11 {
        'b'
    } else if d == 12 {
        'c'
    } else if d == 13 {
        'd'
    } else if d == 14 {
        'e'
    } else {
        'f'
    }
}

/// Decimal digit characters of `n`, most significant first, with no sign and
/// no leading zeros (zero renders as `"0"`).
pub open spec fn digits_of(n: nat) -> Seq<char>
    decreases n,
{
    if n < 10 {
        seq![digit_char(n)]
    } else {
        digits_of(n / 10).push(digit_char(n % 10))
    }
}

/// What a single character becomes inside a JSON string literal.
pub open spec fn escape_char(c: char) -> Seq<char> {
    if c == '"' {
        seq!['\\', '"']
    } else if c == '\\' {
        seq!['\\', '\\']
    } else if c == '\u{8}' {
        seq!['\\', 'b']
    } else if c == '\t' {
        seq!['\\', 't']
    } else if c == '\n' {
        seq!['\\', 'n']
    } else if c == '\u{c}' {
        seq!['\\', 'f']
    } else if c == '\r' {
        seq!['\\', 'r']
    } else if (c as u32) < 0x20 {
        seq!['\\', 'u', '0', '0', digit_char(((c as u32) / 16) as nat), digit_char(
            ((c as u32) % 16) as nat,
        )]
    } else {
        seq![c]
    }
}

/// The body of a JSON string literal holding exactly the characters of `s`.
pub open spec fn escape_of(s: Seq<char>) -> Seq<char>
    decreases s.len(),
{
    if s.len() == 0 {
        Seq::<char>::empty()
    } else {
        escape_char(s[0]) + escape_of(s.drop_first())
    }
}

/// A complete JSON string literal for `s`: the escaped body between quotes.
pub open spec fn quoted(s: Seq<char>) -> Seq<char> {
    seq!['"'] + escape_of(s) + seq!['"']
}

/// An atomic JSON value as it appears inside the objects this crate renders:
/// a string or an unsigned number.
pub enum JsonAtom {
    Text(Seq<char>),
    Num(nat),
}

/// Compact rendering of an atom: a quoted, escaped string literal or the
/// decimal digits of a number.
pub open spec fn atom_compact(a: JsonAtom) -> Seq<char> {
    match a {
        JsonAtom::Text(s) => quoted(s),
        JsonAtom::Num(n) => digits_of(n),
    }
}

/// Compact rendering of one object member: the key (written as given, keys
/// here never need escaping), a colon, then the value.
pub open spec fn member_compact(name: Seq<char>, a: JsonAtom) -> Seq<char> {
    seq!['"'] + name + seq!['"', ':'] + atom_compact(a)
}

/// Compact rendering of an object's members, comma-separated, in order.
pub open spec fn members_compact(ms: Seq<(Seq<char>, JsonAtom)>) -> Seq<char>
    decreases ms.len(),
{
    if ms.len() == 0 {
        Seq::<char>::empty()
    } else if ms.len() == 1 {
        member_compact(ms[0].0, ms[0].1)
    } else {
        member_compact(ms[0].0, ms[0].1) + seq![','] + members_compact(ms.drop_first())
    }
}

/// The compact rendering of the document shape this crate emits: a top-level
/// object with the single key `key`, whose value is the object with members
/// `ms`.
pub open spec fn wrapped_compact(key: Seq<char>, ms: Seq<(Seq<char>, JsonAtom)>) -> Seq<char> {
    seq!['{', '"'] + key + seq!['"', ':', '{'] + members_compact(ms) + seq!['}', '}']
}

/// Pretty rendering of one object member: as [`member_compact`] but with a
/// space after the colon.
pub open spec fn member_pretty(name: Seq<char>, a: JsonAtom) -> Seq<char> {
    seq!['"'] + name + seq!['"', ':', ' '] + atom_compact(a)
}

/// Pretty rendering of an object's members: each on its own line prefixed by
/// `indent`, separated by a comma and a newline.
pub open spec fn members_pretty(ms: Seq<(Seq<char>, JsonAtom)>, indent: Seq<char>) -> Seq<char>
    decreases ms.len(),
{
    if ms.len() == 0 {
        Seq::<char>::empty()
    } else if ms.len() == 1 {
        indent + member_pretty(ms[0].0, ms[0].1)
    } else {
        indent + member_pretty(ms[0].0, ms[0].1) + seq![',', '\n'] + members_pretty(
            ms.drop_first(),
            indent,
        )
    }
}

/// The pretty rendering of the same document shape as [`wrapped_compact`],
/// indented by two spaces per nesting level.
pub open spec fn wrapped_pretty(key: Seq<char>, ms: Seq<(Seq<char>, JsonAtom)>) -> Seq<char> {
    seq!['{', '\n', ' ', ' ', '"'] + key + seq!['"', ':', ' '] + (if ms.len() == 0 {
        seq!['{', '}']
    } else {
        seq!['{', '\n'] + members_pretty(ms, seq![' ', ' ', ' ', ' ']) + seq!['\n', ' ', ' ', '}']
    }) + seq!['\n', '}']
}

/// Unfolds [`members_compact`] by one member when at least two remain.
pub proof fn lemma_members_compact_unfold(ms: Seq<(Seq<char>, JsonAtom)>)
    requires
        ms.len() >= 2,
    ensures
        members_compact(ms) == member_compact(ms[0].0, ms[0].1) + seq![','] + members_compact(
            ms.drop_first(),
        ),
{
}

/// Unfolds [`members_pretty`] by one member when at least two remain.
pub proof fn lemma_members_pretty_unfold(ms: Seq<(Seq<char>, JsonAtom)>, indent: Seq<char>)
    requires
        ms.len() >= 2,
    ensures
        members_pretty(ms, indent) == indent + member_pretty(ms[0].0, ms[0].1) + seq![',', '\n']
            + members_pretty(ms.drop_first(), indent),
{
}

/// Escaping a sequence extended by one character appends that character's
/// escape to the escaped sequence.
pub proof fn lemma_escape_of_push(s: Seq<char>, c: char)
    ensures
        escape_of(s.push(c)) == escape_of(s) + escape_char(c),
    decreases s.len(),
{
    if s.len() == 0 {
        assert(escape_of(s) =~= Seq::<char>::empty());
        assert(s.push(c).drop_first() =~= Seq::<char>::empty());
        assert(escape_of(s.push(c).drop_first()) =~= Seq::<char>::empty());
        assert(escape_of(s.push(c)) =~= escape_of(s) + escape_char(c));
    } else {
        assert(s.push(c).drop_first() =~= s.drop_first().push(c));
        lemma_escape_of_push(s.drop_first(), c);
        assert(escape_of(s.push(c)) =~= escape_of(s) + escape_char(c));
    }
}

/// The digit value of a lowercase hex digit character, zero for anything
/// else.
pub open spec fn hex_val(c: char) -> nat {
    if c == '1' {
        1
    } else if c == '2' {
        2
    } else if c == '3' {
        3
    } else if c == '4' {
        4
    } else if c == '5' {
        5
    } else if c == '6' {
        6
    } else if c == '7' {
        7
    } else if c == '8' {
        8
    } else if c == '9' {
        9
    } else if c == 'a' {
        10
    } else if c == 'b' {
        11
    } else if c == 'c' {
        12
    } else if c == 'd' {
        13
    } else if c == 'e' {
        14
    } else if c == 'f' {
        15
    } else {
        0
    }
}

/// The character named by a short backslash escape; characters that name no
/// short escape stand for themselves.
pub open spec fn unescape_control(c: char) -> char {
    if c == 'b' {
        '\u{8}'
    } else if c == 't' {
        '\t'
    } else if c == 'n' {
        '\n'
    } else if c == 'f' {
        '\u{c}'
    } else if c == 'r' {
        '\r'
    } else {
        c
    }
}

/// Reads a JSON string literal body back into the characters it stands for:
/// a backslash starts a `\uXXXX` or short escape, everything else stands for
/// itself. A truncated trailing escape is dropped.
pub open spec fn unescape_of(s: Seq<char>) -> Seq<char>
    decreases s.len(),
{
    if s.len() == 0 {
        Seq::<char>::empty()
    } else if s[0] != '\\' {
        seq![s[0]] + unescape_of(s.drop_first())
    } else if s.len() >= 2 && s[1] == 'u' {
        if s.len() >= 6 {
            let v = ((hex_val(s[2]) * 16 + hex_val(s[3])) * 16 + hex_val(s[4])) * 16 + hex_val(
                s[5],
            );
            seq![(v as u32) as char] + unescape_of(s.skip(6))
        } else {
            Seq::<char>::empty()
        }
    } else if s.len() >= 2 {
        seq![unescape_control(s[1])] + unescape_of(s.skip(2))
    } else {
        Seq::<char>::empty()
    }
}

/// Unescaping undoes the escape of a single character, whatever follows it.
pub proof fn lemma_unescape_one(c: char, t: Seq<char>)
    ensures
        unescape_of(escape_char(c) + t) == seq![c] + unescape_of(t),
{
    let e = escape_char(c) + t;
    if c == '"' || c == '\\' || c == '\u{8}' || c == '\t' || c == '\n' || c == '\u{c}' || c == '\r' {
        assert(e[0] == '\\' && e[1] != 'u');
        assert(e.skip(2) =~= t);
        assert(unescape_of(e) =~= seq![c] + unescape_of(t));
    } else if (c as u32) < 0x20 {
        assert(e[0] == '\\' && e[1] == 'u');
        assert(e[2] == '0' && e[3] == '0');
        assert(e[4] == digit_char(((c as u32) / 16) as nat));
        assert(e[5] == digit_char(((c as u32) % 16) as nat));
        assert(hex_val(e[4]) == ((c as u32) / 16) as nat);
        assert(hex_val(e[5]) == ((c as u32) % 16) as nat);
        let v = ((hex_val(e[2]) * 16 + hex_val(e[3])) * 16 + hex_val(e[4])) * 16 + hex_val(e[5]);
        assert(v == c as u32);
        vstd::utf8::char_u32_cast(c, v as u32);
        assert(e.skip(6) =~= t);
        assert(unescape_of(e) =~= seq![c] + unescape_of(t));
    } else {
        assert(e[0] == c && c != '\\');
        assert(e.drop_first() =~= t);
        assert(unescape_of(e) =~= seq![c] + unescape_of(t));
    }
}

/// Escaping loses nothing: the escaped body of a JSON string literal
/// unescapes back to exactly the characters it was made from, so the
/// rendered text determines each string field's value.
pub proof fn lemma_unescape_escape(s: Seq<char>)
    ensures
        unescape_of(escape_of(s)) == s,
    decreases s.len(),
{
    if s.len() == 0 {
        assert(escape_of(s) =~= Seq::<char>::empty());
        assert(unescape_of(escape_of(s)) =~= s);
    } else {
        lemma_unescape_one(s[0], escape_of(s.drop_first()));
        lemma_unescape_escape(s.drop_first());
        assert(unescape_of(escape_of(s)) =~= s);
    }
}

/// Whether `c` is a decimal digit character.
pub open spec fn is_digit(c: char) -> bool {
    c == '0' || c == '1' || c == '2' || c == '3' || c == '4' || c == '5' || c == '6' || c == '7'
        || c == '8' || c == '9'
}

/// How many characters a scanner reading a JSON string literal body consumes
/// before the closing quote: escapes are consumed whole, everything else one
/// character at a time, stopping at the first unescaped `"`.
pub open spec fn body_len(s: Seq<char>) -> nat
    decreases s.len(),
{
    if s.len() == 0 {
        0
    } else if s[0] == '"' {
        0
    } else if s[0] != '\\' {
        1 + body_len(s.drop_first())
    } else if s.len() >= 2 && s[1] == 'u' {
        if s.len() >= 6 {
            6 + body_len(s.skip(6))
        } else {
            s.len()
        }
    } else if s.len() >= 2 {
        2 + body_len(s.skip(2))
    } else {
        s.len()
    }
}

/// How many leading decimal digit characters `s` has.
pub open spec fn num_len(s: Seq<char>) -> nat
    decreases s.len(),
{
    if s.len() > 0 && is_digit(s[0]) {
        1 + num_len(s.drop_first())
    } else {
        0
    }
}

/// Equal sequences with a common prefix have equal remainders.
pub proof fn lemma_cancel_prefix(p: Seq<char>, x: Seq<char>, y: Seq<char>)
    requires
        p + x == p + y,
    ensures
        x == y,
{
    assert(x =~= (p + x).skip(p.len() as int));
    assert(y =~= (p + y).skip(p.len() as int));
}

/// A body scan consumes a single character's escape whole, whatever follows.
proof fn lemma_body_len_step(c: char, u: Seq<char>)
    ensures
        body_len(escape_char(c) + u) == escape_char(c).len() + body_len(u),
{
    let e = escape_char(c) + u;
    if c == '"' || c == '\\' || c == '\u{8}' || c == '\t' || c == '\n' || c == '\u{c}' || c == '\r' {
        assert(e[0] == '\\' && e[1] != 'u');
        assert(e.skip(2) =~= u);
        assert(body_len(e) == escape_char(c).len() + body_len(u));
    } else if (c as u32) < 0x20 {
        assert(e[0] == '\\' && e[1] == 'u');
        assert(e.skip(6) =~= u);
        assert(body_len(e) == escape_char(c).len() + body_len(u));
    } else {
        assert(e[0] == c && c != '"' && c != '\\');
        assert(e.drop_first() =~= u);
        assert(body_len(e) == escape_char(c).len() + body_len(u));
    }
}

/// A body scan over an escaped body followed by the closing quote consumes
/// exactly the escaped body.
proof fn lemma_body_len_escape(s: Seq<char>, r: Seq<char>)
    ensures
        body_len(escape_of(s) + (seq!['"'] + r)) == escape_of(s).len(),
    decreases s.len(),
{
    if s.len() == 0 {
        assert(escape_of(s) + (seq!['"'] + r) =~= seq!['"'] + r);
        assert((seq!['"'] + r)[0] == '"');
        assert(body_len(escape_of(s) + (seq!['"'] + r)) == 0);
    } else {
        lemma_body_len_step(s[0], escape_of(s.drop_first()) + (seq!['"'] + r));
        lemma_body_len_escape(s.drop_first(), r);
        assert(escape_of(s) + (seq!['"'] + r) =~= escape_char(s[0]) + (escape_of(s.drop_first())
            + (seq!['"'] + r)));
    }
}

/// A quoted string literal is a prefix code: wherever two texts start with
/// quoted literals and agree, the literals hold the same characters and the
/// remainders agree too.
pub proof fn lemma_quoted_prefix(s1: Seq<char>, s2: Seq<char>, r1: Seq<char>, r2: Seq<char>)
    requires
        quoted(s1) + r1 == quoted(s2) + r2,
    ensures
        s1 == s2,
        r1 == r2,
{
    let e1 = escape_of(s1);
    let e2 = escape_of(s2);
    let w1 = e1 + (seq!['"'] + r1);
    let w2 = e2 + (seq!['"'] + r2);
    assert(quoted(s1) + r1 =~= seq!['"'] + w1);
    assert(quoted(s2) + r2 =~= seq!['"'] + w2);
    lemma_cancel_prefix(seq!['"'], w1, w2);
    lemma_body_len_escape(s1, r1);
    lemma_body_len_escape(s2, r2);
    assert(e1.len() == e2.len());
    assert(e1 =~= w1.take(e1.len() as int));
    assert(e2 =~= w2.take(e2.len() as int));
    lemma_unescape_escape(s1);
    lemma_unescape_escape(s2);
    assert(s1 == s2);
    assert(r1 =~= w1.skip(e1.len() as int + 1));
    assert(r2 =~= w2.skip(e2.len() as int + 1));
}

/// Every character of a decimal rendering is a digit.
proof fn lemma_digits_of_digits(n: nat)
    ensures
        forall|i: int| 0 <= i < digits_of(n).len() ==> is_digit(#[trigger] digits_of(n)[i]),
    decreases n,
{
    if n >= 10 {
        lemma_digits_of_digits(n / 10);
        assert forall|i: int| 0 <= i < digits_of(n).len() implies is_digit(
            #[trigger] digits_of(n)[i],
        ) by {
            if i < digits_of(n).len() - 1 {
                assert(digits_of(n)[i] == digits_of(n / 10)[i]);
            } else {
                assert(digits_of(n)[i] == digit_char(n % 10));
            }
        }
    }
}

/// A number scan over an all-digit prefix stops exactly where the prefix
/// ends, provided what follows starts with a non-digit (or nothing).
proof fn lemma_num_len_all_digits(s: Seq<char>, r: Seq<char>)
    requires
        forall|i: int| 0 <= i < s.len() ==> is_digit(#[trigger] s[i]),
        r.len() == 0 || !is_digit(r[0]),
    ensures
        num_len(s + r) == s.len(),
    decreases s.len(),
{
    if s.len() == 0 {
        assert(s + r =~= r);
        assert(num_len(r) == 0);
    } else {
        assert forall|i: int| 0 <= i < s.drop_first().len() implies is_digit(
            #[trigger] s.drop_first()[i],
        ) by {
            assert(s.drop_first()[i] == s[i + 1]);
        }
        lemma_num_len_all_digits(s.drop_first(), r);
        assert((s + r).drop_first() =~= s.drop_first() + r);
        assert((s + r)[0] == s[0]);
    }
}

/// A decimal rendering has at least one character.
proof fn lemma_digits_of_len(n: nat)
    ensures
        digits_of(n).len() >= 1,
    decreases n,
{
    if n >= 10 {
        lemma_digits_of_len(n / 10);
    }
}

/// Decimal renderings are injective: equal digit strings mean equal numbers.
proof fn lemma_digits_of_injective(n1: nat, n2: nat)
    requires
        digits_of(n1) == digits_of(n2),
    ensures
        n1 == n2,
    decreases n1,
{
    lemma_digits_of_len(n1);
    lemma_digits_of_len(n2);
    if n1 >= 10 {
        lemma_digits_of_len(n1 / 10);
    }
    if n2 >= 10 {
        lemma_digits_of_len(n2 / 10);
    }
    if n1 < 10 && n2 < 10 {
        assert(digits_of(n1)[0] == digit_char(n1));
        assert(digits_of(n2)[0] == digit_char(n2));
    } else if n1 >= 10 && n2 >= 10 {
        let k = digits_of(n1).len() - 1;
        assert(digits_of(n1)[k] == digit_char(n1 % 10));
        assert(digits_of(n2)[k] == digit_char(n2 % 10));
        assert(n1 % 10 == n2 % 10);
        assert(digits_of(n1 / 10) =~= digits_of(n1).take(k));
        assert(digits_of(n2 / 10) =~= digits_of(n2).take(k));
        lemma_digits_of_injective(n1 / 10, n2 / 10);
    }
}

/// A digit run followed by a non-digit is a prefix code: wherever two texts
/// start with decimal renderings and agree, the numbers are equal and the
/// remainders agree too.
pub proof fn lemma_digits_prefix(n1: nat, n2: nat, r1: Seq<char>, r2: Seq<char>)
    requires
        digits_of(n1) + r1 == digits_of(n2) + r2,
        r1.len() > 0,
        !is_digit(r1[0]),
        r2.len() > 0,
        !is_digit(r2[0]),
    ensures
        n1 == n2,
        r1 == r2,
{
    lemma_digits_of_digits(n1);
    lemma_digits_of_digits(n2);
    lemma_num_len_all_digits(digits_of(n1), r1);
    lemma_num_len_all_digits(digits_of(n2), r2);
    assert(digits_of(n1).len() == digits_of(n2).len());
    let k = digits_of(n1).len() as int;
    assert(digits_of(n1) =~= (digits_of(n1) + r1).take(k));
    assert(digits_of(n2) =~= (digits_of(n2) + r2).take(k));
    lemma_digits_of_injective(n1, n2);
    assert(r1 =~= (digits_of(n1) + r1).skip(k));
    assert(r2 =~= (digits_of(n2) + r2).skip(k));
}

/// The executable form of [`digit_char`].
pub fn digit(d: u8) -> (c: char)
    requires
        d < 16,
    ensures
        c == digit_char(d as nat),
{
    if d == 0 {
        '0'
    } else if d == 1 {
        '1'
    } else if d == 2 {
        '2'
    } else if d == 3 {
        '3'
    } else if d == 4 {
        '4'
    } else if d == 5 {
        '5'
    } else if d == 6 {
        '6'
    } else if d == 7 {
        '7'
    } else if d == 8 {
        '8'
    } else if d == 9 {
        '9'
    } else if d == 10 {
        'a'
    } else if d == 11 {
        'b'
    } else if d == 12 {
        'c'
    } else if d == 13 {
        'd'
    } else if d == 14 {
        'e'
    } else {
        'f'
    }
}

/// Appends every character of `s` to `out`, unchanged.
pub fn push_chars(out: &mut Vec<char>, s: &str)
    ensures
        final(out)@ == old(out)@ + s@,
{
    let n: usize = s.unicode_len();
    let mut i: usize = 0;
    proof {
        assert(out@ =~= old(out)@ + s@.take(0));
    }
    while i < n
        invariant
            i <= n,
            n == s@.len(),
            out@ == old(out)@ + s@.take(i as int),
        decreases n - i,
    {
        let c = s.get_char(i);
        out.push(c);
        proof {
            assert(out@ =~= old(out)@ + s@.take(i + 1));
        }
        i = i + 1;
    }
    proof {
        assert(s@.take(n as int) =~= s@);
    }
}

/// Appends the escape of the single character `c` to `out`.
pub fn push_escaped_char(out: &mut Vec<char>, c: char)
    ensures
        final(out)@ == old(out)@ + escape_char(c),
{
    if c == '"' {
        out.push('\\');
        out.push('"');
    } else if c == '\\' {
        out.push('\\');
        out.push('\\');
    } else if c == '\u{8}' {
        out.push('\\');
        out.push('b');
    } else if c == '\t' {
        out.push('\\');
        out.push('t');
    } else if c == '\n' {
        out.push('\\');
        out.push('n');
    } else if c == '\u{c}' {
        out.push('\\');
        out.push('f');
    } else if c == '\r' {
        out.push('\\');
        out.push('r');
    } else if (c as u32) < 0x20 {
        let cu: u32 = c as u32;
        out.push('\\');
        out.push('u');
        out.push('0');
        out.push('0');
        out.push(digit((cu / 16) as u8));
        out.push(digit((cu % 16) as u8));
    } else {
        out.push(c);
    }
    proof {
        assert(out@ =~= old(out)@ + escape_char(c));
    }
}

/// Appends the escaped body of a JSON string literal for `s` to `out`.
pub fn push_escaped(out: &mut Vec<char>, s: &str)
    ensures
        final(out)@ == old(out)@ + escape_of(s@),
{
    let n: usize = s.unicode_len();
    let mut i: usize = 0;
    proof {
        assert(out@ =~= old(out)@ + escape_of(s@.take(0)));
    }
    while i < n
        invariant
            i <= n,
            n == s@.len(),
            out@ == old(out)@ + escape_of(s@.take(i as int)),
        decreases n - i,
    {
        let c = s.get_char(i);
        push_escaped_char(out, c);
        proof {
            assert(s@.take(i as int).push(s@[i as int]) =~= s@.take(i + 1));
            lemma_escape_of_push(s@.take(i as int), s@[i as int]);
            assert(out@ =~= old(out)@ + escape_of(s@.take(i + 1)));
        }
        i = i + 1;
    }
    proof {
        assert(s@.take(n as int) =~= s@);
    }
}

/// Appends a complete JSON string literal for `s` to `out`.
pub fn push_quoted(out: &mut Vec<char>, s: &str)
    ensures
        final(out)@ == old(out)@ + quoted(s@),
{
    out.push('"');
    push_escaped(out, s);
    out.push('"');
    proof {
        assert(out@ =~= old(out)@ + quoted(s@));
    }
}

/// Relies on `String`'s `FromIterator<char>` implementation from std:
/// collecting characters yields the string of exactly those characters, in
/// order.
#[verifier::external_body]
pub(crate) fn chars_to_string(chars: &Vec<char>) -> (r: String)
    ensures
        r@ == chars@,
{
    chars.iter().collect()
}

/// Appends the decimal rendering of `n` to `out`.
pub fn push_u16(out: &mut Vec<char>, n: u16)
    ensures
        final(out)@ == old(out)@ + digits_of(n as nat),
    decreases n,
{
    if n < 10 {
        out.push(digit(n as u8));
        proof {
            assert(out@ =~= old(out)@ + digits_of(n as nat));
        }
    } else {
        push_u16(out, n / 10);
        out.push(digit((n % 10) as u8));
        proof {
            assert(out@ =~= old(out)@ + digits_of(n as nat));
        }
    }
}

} // verus!
