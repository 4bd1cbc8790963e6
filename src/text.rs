//! Text primitives of the source writer: decimal numbers,
//! string escaping, lowerCamelCase and comparisons, each with its meaning
//! over `Seq<char>`.

use vstd::prelude::*;
use vstd::string::*;

verus! {

/// Relies on `String::push`: appends one character.
#[verifier::external_body]
pub(crate) fn push_char(s: &mut String, c: char)
    ensures
        final(s)@ == old(s)@.push(c),
{
    s.push(c)
}

/// The decimal digit `d`.
pub open spec fn digit_char(d: nat) -> char {
    (('0' as nat) + d) as char
}

/// Decimal digits of `n`, most significant first.
pub open spec fn nat_text(n: nat) -> Seq<char>
    decreases n,
{
    if n < 10 {
        seq![digit_char(n)]
    } else {
        nat_text(n / 10).push(digit_char(n % 10))
    }
}

/// Decimal text of `n`, with a leading `-` when negative.
pub open spec fn int_text(n: int) -> Seq<char> {
    if n < 0 {
        seq!['-'] + nat_text((-n) as nat)
    } else {
        nat_text(n as nat)
    }
}

/// `true` or `false`.
pub open spec fn bool_text(b: bool) -> Seq<char> {
    if b {
        "true"@
    } else {
        "false"@
    }
}

/// Appends the decimal digits of `n`.
pub(crate) fn push_nat(out: &mut String, n: u64)
    ensures
        final(out)@ == old(out)@ + nat_text(n as nat),
    decreases n,
{
    if n >= 10 {
        push_nat(out, n / 10);
    }
    let d: u8 = (n % 10) as u8;
    let c: char = (('0' as u8) + d) as char;
    assert(c == digit_char((n % 10) as nat));
    push_char(out, c);
    assert(old(out)@ + nat_text(n as nat) =~= final(out)@) by {
        if n >= 10 {
            assert(nat_text(n as nat) == nat_text((n / 10) as nat).push(digit_char((n % 10) as nat)));
        }
    }
}

/// Appends the decimal text of `n`.
pub(crate) fn push_int(out: &mut String, n: i64)
    ensures
        final(out)@ == old(out)@ + int_text(n as int),
{
    if n < 0 {
        out.append("-");
        let m: u64 = if n == i64::MIN {
            9223372036854775808u64
        } else {
            (-n) as u64
        };
        push_nat(out, m);
        proof {
            reveal_strlit("-");
            assert(old(out)@ + int_text(n as int) =~= final(out)@);
        }
    } else {
        push_nat(out, n as u64);
    }
}

/// Appends `true` or `false`.
pub(crate) fn push_bool(out: &mut String, b: bool)
    ensures
        final(out)@ == old(out)@ + bool_text(b),
{
    if b {
        out.append("true");
    } else {
        out.append("false");
    }
}

/// Lowercase hexadecimal digit of `d < 16`.
pub open spec fn hex_char(d: nat) -> char {
    if d < 10 {
        digit_char(d)
    } else {
        (('a' as nat) + (d - 10)) as char
    }
}

/// Whether `c` is an ASCII control character (U+0000 to U+001F, U+007F).
pub open spec fn is_control(c: char) -> bool {
    (c as u32) < 0x20 || (c as u32) == 0x7f
}

/// How one character is written inside a quoted proto string.
pub open spec fn escape_char(c: char) -> Seq<char> {
    if c == '\\' {
        seq!['\\', '\\']
    } else if c == '"' {
        seq!['\\', '"']
    } else if c == '\n' {
        seq!['\\', 'n']
    } else if c == '\r' {
        seq!['\\', 'r']
    } else if c == '\t' {
        seq!['\\', 't']
    } else if is_control(c) {
        seq!['\\', 'x', hex_char((c as nat) / 16), hex_char((c as nat) % 16)]
    } else {
        seq![c]
    }
}

/// `s` with each character escaped.
pub open spec fn escaped(s: Seq<char>) -> Seq<char>
    decreases s.len(),
{
    if s.len() == 0 {
        Seq::empty()
    } else {
        escaped(s.drop_last()) + escape_char(s.last())
    }
}

proof fn lemma_escaped_step(s: Seq<char>, i: int)
    requires
        0 <= i < s.len(),
    ensures
        escaped(s.subrange(0, i + 1)) == escaped(s.subrange(0, i)) + escape_char(s[i]),
{
    assert(s.subrange(0, i + 1).drop_last() =~= s.subrange(0, i));
}

/// Lowercase hexadecimal digit of `d < 16`.
fn hex_digit(d: u8) -> (c: char)
    requires
        d < 16,
    ensures
        c == hex_char(d as nat),
{
    if d < 10 {
        (('0' as u8) + d) as char
    } else {
        (('a' as u8) + (d - 10)) as char
    }
}

/// Escapes `s` for a quoted proto string: backslash, double quote, newline,
/// carriage return and tab take their backslash forms, any other ASCII
/// control character becomes `\xHH` in lowercase hex, and every other
/// character stays as it is.
pub fn escape_string(s: &str) -> (r: String)
    ensures
        r@ == escaped(s@),
{
    let n: usize = s.unicode_len();
    let mut out = String::new();
    let mut i: usize = 0;
    assert(s@.subrange(0, 0) =~= Seq::<char>::empty());
    while i < n
        invariant
            n == s@.len(),
            i <= n,
            out@ == escaped(s@.subrange(0, i as int)),
        decreases n - i,
    {
        let c = s.get_char(i);
        proof {
            lemma_escaped_step(s@, i as int);
        }
        let ghost before = out@;
        if c == '\\' {
            out.append("\\\\");
            proof { reveal_strlit("\\\\"); }
        } else if c == '"' {
            out.append("\\\"");
            proof { reveal_strlit("\\\""); }
        } else if c == '\n' {
            out.append("\\n");
            proof { reveal_strlit("\\n"); }
        } else if c == '\r' {
            out.append("\\r");
            proof { reveal_strlit("\\r"); }
        } else if c == '\t' {
            out.append("\\t");
            proof { reveal_strlit("\\t"); }
        } else if (c as u32) < 0x20 || (c as u32) == 0x7f {
            let b: u8 = c as u8;
            out.append("\\x");
            proof { reveal_strlit("\\x"); }
            push_char(&mut out, hex_digit(b / 16));
            push_char(&mut out, hex_digit(b % 16));
        } else {
            push_char(&mut out, c);
        }
        assert(out@ =~= before + escape_char(c));
        i = i + 1;
    }
    assert(s@.subrange(0, n as int) =~= s@);
    out
}

/// ASCII uppercase of `c`; other characters are unchanged.
pub open spec fn upper_char(c: char) -> char {
    if 'a' <= c && c <= 'z' {
        ((c as nat) - 32) as char
    } else {
        c
    }
}

/// lowerCamelCase of `s` from position `i` on, where `cap` says whether the
/// previous character was an underscore: underscores are dropped and the
/// character after one is uppercased.
pub open spec fn camel_from(s: Seq<char>, i: nat, cap: bool) -> Seq<char>
    decreases s.len() - i,
{
    if i >= s.len() {
        Seq::empty()
    } else if s[i as int] == '_' {
        camel_from(s, i + 1, true)
    } else if cap {
        seq![upper_char(s[i as int])] + camel_from(s, i + 1, false)
    } else {
        seq![s[i as int]] + camel_from(s, i + 1, false)
    }
}

/// lowerCamelCase of `s`.
pub open spec fn camel(s: Seq<char>) -> Seq<char> {
    camel_from(s, 0, false)
}

/// Converts a snake_case name to lowerCamelCase: underscores are dropped
/// and the character after each is uppercased.
pub fn to_lower_camel_case(s: &str) -> (r: String)
    ensures
        r@ == camel(s@),
{
    let n: usize = s.unicode_len();
    let mut out = String::new();
    let mut cap: bool = false;
    let mut i: usize = 0;
    while i < n
        invariant
            n == s@.len(),
            i <= n,
            out@ + camel_from(s@, i as nat, cap) == camel(s@),
        decreases n - i,
    {
        let c = s.get_char(i);
        let ghost before = out@;
        if c == '_' {
            cap = true;
        } else if cap {
            let u: char = if 'a' <= c && c <= 'z' {
                ((c as u8) - 32) as char
            } else {
                c
            };
            push_char(&mut out, u);
            cap = false;
            assert(before + camel_from(s@, i as nat, true) =~= out@ + camel_from(s@, (i + 1) as nat, false));
        } else {
            push_char(&mut out, c);
            assert(before + camel_from(s@, i as nat, false) =~= out@ + camel_from(s@, (i + 1) as nat, false));
        }
        i = i + 1;
    }
    assert(out@ + Seq::<char>::empty() =~= out@);
    out
}

/// Whether `a` and `b` hold the same characters.
pub(crate) fn str_eq(a: &str, b: &str) -> (r: bool)
    ensures
        r == (a@ == b@),
{
    let n: usize = a.unicode_len();
    let m: usize = b.unicode_len();
    if n != m {
        return false;
    }
    let mut i: usize = 0;
    while i < n
        invariant
            n == a@.len(),
            n == b@.len(),
            i <= n,
            forall|j: int| 0 <= j < i ==> a@[j] == b@[j],
        decreases n - i,
    {
        if a.get_char(i) != b.get_char(i) {
            return false;
        }
        i = i + 1;
    }
    assert(a@ =~= b@);
    true
}

/// Whether `s` ends with `suffix`.
pub open spec fn ends_with(s: Seq<char>, suffix: Seq<char>) -> bool {
    suffix.len() <= s.len() && s.subrange(s.len() - suffix.len(), s.len() as int) == suffix
}

/// Whether `s` ends with a dot followed by `name`.
pub(crate) fn ends_with_dot_name(s: &str, name: &str) -> (r: bool)
    ensures
        r == ends_with(s@, seq!['.'] + name@),
{
    let n: usize = s.unicode_len();
    let m: usize = name.unicode_len();
    if m >= n {
        return false;
    }
    let base: usize = n - m;
    if s.get_char(base - 1) != '.' {
        assert(s@.subrange(s@.len() - (m + 1), s@.len() as int)[0] != (seq!['.'] + name@)[0]);
        return false;
    }
    let mut i: usize = 0;
    while i < m
        invariant
            n == s@.len(),
            m == name@.len(),
            base == n - m,
            m < n,
            s@[base - 1] == '.',
            i <= m,
            forall|j: int| 0 <= j < i ==> s@[base + j] == name@[j],
        decreases m - i,
    {
        if s.get_char(base + i) != name.get_char(i) {
            assert(s@.subrange(s@.len() - (m + 1), s@.len() as int)[i + 1] != (seq!['.'] + name@)[i + 1]);
            return false;
        }
        i = i + 1;
    }
    assert(s@.subrange(s@.len() - (m + 1), s@.len() as int) =~= seq!['.'] + name@);
    true
}

/// Whether `s` begins with an underscore.
pub(crate) fn starts_with_underscore(s: &str) -> (r: bool)
    ensures
        r == (s@.len() > 0 && s@[0] == '_'),
{
    s.unicode_len() > 0 && s.get_char(0) == '_'
}

} // verus!
