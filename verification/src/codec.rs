//! Textual encoding of a close payload: a body of the shape
//! `{"reason":"...","code":N}` with JSON string escaping for the reason and
//! a decimal code. The encoder and the parser are both specified
//! mathematically, and parsing is proved to invert encoding.

use vstd::prelude::*;
use vstd::std_specs::iter::IteratorSpec;
use vstd::string::StringExecFns;

verus! {

/// Decimal digit character for `n` (`0 <= n < 10`).
pub open spec fn digit_char(n: int) -> char
    recommends
        0 <= n < 10,
{
    (48 + n) as char
}

/// Lowercase hexadecimal digit character for `n` (`0 <= n < 16`).
pub open spec fn hex_char(n: int) -> char
    recommends
        0 <= n < 16,
{
    if n < 10 {
        (48 + n) as char
    } else {
        (87 + n) as char
    }
}

/// Value of a hexadecimal digit character, accepting both cases.
pub open spec fn hex_val(c: char) -> Option<int> {
    if 48 <= c as int <= 57 {
        Some(c as int - 48)
    } else if 97 <= c as int <= 102 {
        Some(c as int - 87)
    } else if 65 <= c as int <= 70 {
        Some(c as int - 55)
    } else {
        None
    }
}

/// Value of four hexadecimal digit characters read as one number.
pub open spec fn hex_val4(a: char, b: char, c: char, d: char) -> Option<int> {
    match (hex_val(a), hex_val(b), hex_val(c), hex_val(d)) {
        (Some(va), Some(vb), Some(vc), Some(vd)) => Some(va * 4096 + vb * 256 + vc * 16 + vd),
        _ => None,
    }
}

/// True for a decimal digit character.
pub open spec fn is_digit(c: char) -> bool {
    48 <= c as int <= 57
}

/// Number denoted by a sequence of decimal digit characters.
pub open spec fn digits_val(s: Seq<char>) -> int
    decreases s.len(),
{
    if s.len() == 0 {
        0
    } else {
        digits_val(s.drop_last()) * 10 + (s.last() as int - 48)
    }
}

/// True when every character of `s` is a decimal digit.
pub open spec fn all_digits(s: Seq<char>) -> bool {
    forall|i: int| 0 <= i < s.len() ==> is_digit(s[i])
}

/// Decimal digit characters of `n`, most significant first.
pub open spec fn dec_digits(n: int) -> Seq<char>
    recommends
        n >= 0,
    decreases n,
{
    if n < 10 {
        seq![digit_char(n)]
    } else {
        dec_digits(n / 10) + seq![digit_char(n % 10)]
    }
}

/// JSON escaping of one character: quote, backslash and the named control
/// characters get two-character escapes, the other control characters get a
/// `\u00XX` escape, and everything else stands for itself.
pub open spec fn escape_char(c: char) -> Seq<char> {
    if c == '"' {
        seq!['\\', '"']
    } else if c == '\\' {
        seq!['\\', '\\']
    } else if c == '\u{8}' {
        seq!['\\', 'b']
    } else if c == '\t' {
        seq!['\\', 't']
    } else if c == '\n' {
        seq!['\\', 'n']
    } else if c == '\u{c}' {
        seq!['\\', 'f']
    } else if c == '\r' {
        seq!['\\', 'r']
    } else if (c as int) < 0x20 {
        seq!['\\', 'u', '0', '0', hex_char((c as int) / 16), hex_char((c as int) % 16)]
    } else {
        seq![c]
    }
}

/// JSON escaping of a whole character sequence.
pub open spec fn escape_string(s: Seq<char>) -> Seq<char>
    decreases s.len(),
{
    if s.len() == 0 {
        Seq::empty()
    } else {
        escape_char(s[0]) + escape_string(s.skip(1))
    }
}

/// Characters that open the encoding, up to and including the quote that
/// opens the reason string.
pub open spec fn close_prefix() -> Seq<char> {
    seq!['{', '"', 'r', 'e', 'a', 's', 'o', 'n', '"', ':', '"']
}

/// Characters between the quote that closes the reason string and the first
/// digit of the code.
pub open spec fn close_code_label() -> Seq<char> {
    seq![',', '"', 'c', 'o', 'd', 'e', '"', ':']
}

/// The full encoding of a close payload with the given reason and code.
pub open spec fn encode_close_spec(reason: Seq<char>, code: u16) -> Seq<char> {
    close_prefix() + escape_string(reason) + seq!['"'] + close_code_label() + dec_digits(
        code as int,
    ) + seq!['}']
}

/// Inverse of a simple two-character escape: the character denoted by `e` in
/// an escape `\e`, when `\e` is one of the recognised short escapes.
pub open spec fn unescape_simple(e: char) -> Option<char> {
    if e == '"' {
        Some('"')
    } else if e == '\\' {
        Some('\\')
    } else if e == '/' {
        Some('/')
    } else if e == 'b' {
        Some('\u{8}')
    } else if e == 'f' {
        Some('\u{c}')
    } else if e == 'n' {
        Some('\n')
    } else if e == 'r' {
        Some('\r')
    } else if e == 't' {
        Some('\t')
    } else {
        None
    }
}

/// Parses a JSON string body starting right after its opening quote.
/// Returns the decoded characters and the input that follows the closing
/// quote, or `None` when the input is exhausted, holds a raw control
/// character, or holds an invalid escape.
pub open spec fn parse_jstring(s: Seq<char>) -> Option<(Seq<char>, Seq<char>)>
    decreases s.len(),
{
    if s.len() == 0 {
        None
    } else if s[0] == '"' {
        Some((Seq::empty(), s.skip(1)))
    } else if s[0] == '\\' {
        if s.len() < 2 {
            None
        } else if s[1] == 'u' {
            if s.len() < 6 {
                None
            } else {
                match hex_val4(s[2], s[3], s[4], s[5]) {
                    Some(v) => if 0xD800 <= v < 0xE000 {
                        None
                    } else {
                        match parse_jstring(s.skip(6)) {
                            Some(p) => Some((seq![v as char] + p.0, p.1)),
                            None => None,
                        }
                    },
                    None => None,
                }
            }
        } else {
            match unescape_simple(s[1]) {
                Some(c) => match parse_jstring(s.skip(2)) {
                    Some(p) => Some((seq![c] + p.0, p.1)),
                    None => None,
                },
                None => None,
            }
        }
    } else if (s[0] as int) < 0x20 {
        None
    } else {
        match parse_jstring(s.skip(1)) {
            Some(p) => Some((seq![s[0]] + p.0, p.1)),
            None => None,
        }
    }
}

/// Parses the tail of the encoding after the code label: decimal digits for
/// a value of at most 65535, closed by `}` as the final character.
pub open spec fn parse_code(s: Seq<char>) -> Option<u16> {
    if s.len() < 2 {
        None
    } else if s.last() != '}' {
        None
    } else {
        let ds = s.drop_last();
        if all_digits(ds) && digits_val(ds) <= 65535 {
            Some(digits_val(ds) as u16)
        } else {
            None
        }
    }
}

/// Parses a whole close-payload body: reason string, code label, code.
pub open spec fn parse_close_spec(s: Seq<char>) -> Option<(Seq<char>, u16)> {
    if s.len() < 11 || s.take(11) != close_prefix() {
        None
    } else {
        match parse_jstring(s.skip(11)) {
            Some(p) => if p.1.len() < 8 || p.1.take(8) != close_code_label() {
                None
            } else {
                match parse_code(p.1.skip(8)) {
                    Some(code) => Some((p.0, code)),
                    None => None,
                }
            },
            None => None,
        }
    }
}

/// Escaping distributes over appending one character at the end.
pub proof fn lemma_escape_append(s: Seq<char>, c: char)
    ensures
        escape_string(s.push(c)) == escape_string(s) + escape_char(c),
    decreases s.len(),
{
    if s.len() == 0 {
        assert(s.push(c)[0] == c);
        assert(s.push(c).skip(1) =~= Seq::<char>::empty());
        assert(escape_string(Seq::<char>::empty()) =~= Seq::<char>::empty());
        assert(escape_string(s.push(c)) =~= escape_char(c));
        assert(escape_string(s) + escape_char(c) =~= escape_char(c));
    } else {
        assert(s.push(c)[0] == s[0]);
        assert(s.push(c).skip(1) =~= s.skip(1).push(c));
        lemma_escape_append(s.skip(1), c);
        assert(escape_string(s.push(c)) =~= escape_string(s) + escape_char(c));
    }
}

/// The digit characters of a non-negative number: at least one character,
/// all of them digits, and they denote the number itself.
pub proof fn lemma_dec_digits(n: int)
    requires
        n >= 0,
    ensures
        dec_digits(n).len() >= 1,
        all_digits(dec_digits(n)),
        digits_val(dec_digits(n)) == n,
    decreases n,
{
    if n < 10 {
        let ds = dec_digits(n);
        assert(ds.drop_last() =~= Seq::<char>::empty());
        assert(digits_val(Seq::<char>::empty()) == 0);
        assert(digit_char(n) as int == 48 + n);
        assert(digits_val(ds) == n);
    } else {
        lemma_dec_digits(n / 10);
        let ds = dec_digits(n);
        assert(ds.drop_last() =~= dec_digits(n / 10));
        assert(ds.last() == digit_char(n % 10));
        assert(digit_char(n % 10) as int == 48 + n % 10);
        assert(digits_val(ds) == (n / 10) * 10 + n % 10);
        assert((n / 10) * 10 + n % 10 == n) by (nonlinear_arith);
    }
}

/// A digit sequence denotes a non-negative number.
pub proof fn lemma_digits_val_nonneg(s: Seq<char>)
    requires
        all_digits(s),
    ensures
        digits_val(s) >= 0,
    decreases s.len(),
{
    if s.len() > 0 {
        assert(all_digits(s.drop_last()));
        lemma_digits_val_nonneg(s.drop_last());
    }
}

/// A digit sequence denotes at least as much as any of its prefixes.
pub proof fn lemma_digits_val_monotone(s: Seq<char>, m: int)
    requires
        all_digits(s),
        0 <= m <= s.len(),
    ensures
        digits_val(s) >= digits_val(s.take(m)),
    decreases s.len(),
{
    if m < s.len() {
        assert(all_digits(s.drop_last()));
        assert(s.drop_last().take(m) =~= s.take(m));
        lemma_digits_val_monotone(s.drop_last(), m);
        lemma_digits_val_nonneg(s.drop_last());
    } else {
        assert(s.take(m) =~= s);
    }
}

/// A character's codepoint is the same whether read as `int` or as `u32`.
pub proof fn lemma_char_int_u32(c: char)
    ensures
        c as int == c as u32,
{
}

/// A hexadecimal digit character denotes the value it was built from.
pub proof fn lemma_hex_char_val(k: int)
    requires
        0 <= k < 16,
    ensures
        hex_val(hex_char(k)) == Some(k),
{
    if k < 10 {
        assert(((48 + k) as char) as int == 48 + k);
    } else {
        assert(((87 + k) as char) as int == 87 + k);
    }
}

/// Parsing undoes the `\u00XX` escape of a control character.
proof fn lemma_parse_control_escape(c: char, rest: Seq<char>, r2: Seq<char>, tail: Seq<char>)
    requires
        (c as int) < 0x20,
        c != '\u{8}' && c != '\t' && c != '\n' && c != '\u{c}' && c != '\r',
        parse_jstring(rest) == Some((r2, tail)),
    ensures
        parse_jstring(escape_char(c) + rest) == Some((seq![c] + r2, tail)),
{
    let ci = c as int;
    assert(c as int == c as u32);
    assert(ci >= 0);
    let e = escape_char(c) + rest;
    assert(e[0] == '\\' && e[1] == 'u' && e[2] == '0' && e[3] == '0');
    assert(e[4] == hex_char(ci / 16) && e[5] == hex_char(ci % 16));
    assert(e.len() >= 6);
    assert(e.skip(6) =~= rest);
    assert(('0' as int) == 48);
    assert(hex_val('0') == Some(0int));
    lemma_hex_char_val(ci / 16);
    lemma_hex_char_val(ci % 16);
    assert((ci / 16) * 16 + ci % 16 == ci) by (nonlinear_arith);
    assert(hex_val4(e[2], e[3], e[4], e[5]) == Some(ci));
    assert((ci as char) == c);
    assert(parse_jstring(e) == Some((seq![c] + r2, tail)));
}

/// Parsing a JSON string inverts escaping: the escaped reason followed by
/// its closing quote and any tail parses back to the reason and the tail.
#[verifier::rlimit(50)]
pub proof fn lemma_parse_escape(r: Seq<char>, tail: Seq<char>)
    ensures
        parse_jstring(escape_string(r) + seq!['"'] + tail) == Some((r, tail)),
    decreases r.len(),
{
    let e = escape_string(r) + seq!['"'] + tail;
    if r.len() == 0 {
        assert(escape_string(r) =~= Seq::<char>::empty());
        assert(e[0] == '"');
        assert(e.skip(1) =~= tail);
        assert(Seq::<char>::empty() =~= r);
        assert(parse_jstring(e) == Some((r, tail)));
    } else {
        let c = r[0];
        let rest = escape_string(r.skip(1)) + seq!['"'] + tail;
        lemma_parse_escape(r.skip(1), tail);
        assert(escape_string(r) == escape_char(c) + escape_string(r.skip(1)));
        assert(e =~= escape_char(c) + rest);
        assert(seq![c] + r.skip(1) =~= r);
        if c == '"' {
            assert(e.skip(2) =~= rest);
            assert(parse_jstring(e) == Some((r, tail)));
        } else if c == '\\' {
            assert(e.skip(2) =~= rest);
            assert(parse_jstring(e) == Some((r, tail)));
        } else if c == '\u{8}' {
            assert(e.skip(2) =~= rest);
            assert(parse_jstring(e) == Some((r, tail)));
        } else if c == '\t' {
            assert(e.skip(2) =~= rest);
            assert(parse_jstring(e) == Some((r, tail)));
        } else if c == '\n' {
            assert(e.skip(2) =~= rest);
            assert(parse_jstring(e) == Some((r, tail)));
        } else if c == '\u{c}' {
            assert(e.skip(2) =~= rest);
            assert(parse_jstring(e) == Some((r, tail)));
        } else if c == '\r' {
            assert(e.skip(2) =~= rest);
            assert(parse_jstring(e) == Some((r, tail)));
        } else if (c as int) < 0x20 {
            lemma_parse_control_escape(c, rest, r.skip(1), tail);
            assert(parse_jstring(e) == Some((r, tail)));
        } else {
            assert(e[0] == c);
            assert(e.skip(1) =~= rest);
            assert(parse_jstring(e) == Some((r, tail)));
        }
    }
}

/// Parsing inverts encoding: the encoded body of any reason and code parses
/// back to exactly that reason and code.
#[verifier::rlimit(100)]
pub proof fn lemma_close_round_trip(reason: Seq<char>, code: u16)
    ensures
        parse_close_spec(encode_close_spec(reason, code)) == Some((reason, code)),
{
    let digits = dec_digits(code as int);
    lemma_dec_digits(code as int);
    let s = encode_close_spec(reason, code);
    let tail = close_code_label() + digits + seq!['}'];
    assert(s.take(11) =~= close_prefix());
    assert(s.skip(11) =~= escape_string(reason) + seq!['"'] + tail);
    lemma_parse_escape(reason, tail);
    assert(parse_jstring(s.skip(11)) == Some((reason, tail)));
    assert(tail.take(8) =~= close_code_label());
    let code_part = tail.skip(8);
    assert(code_part =~= digits + seq!['}']);
    assert(code_part.len() >= 2);
    assert(code_part.last() == '}');
    assert(code_part.drop_last() =~= digits);
    assert(parse_code(code_part) == Some(code));
    assert(parse_close_spec(s) == Some((reason, code)));
}

/// Relies on `String::push`: appends exactly the given character.
#[verifier::external_body]
fn push_char(s: &mut String, c: char)
    ensures
        final(s)@ == old(s)@ + seq![c],
{
    s.push(c);
}

/// Relies on `char::from_u32`: every value below the surrogate range or
/// between the surrogates and 0x10FFFF is a Unicode scalar value.
#[verifier::external_body]
fn char_from_u32(v: u32) -> (c: char)
    requires
        v < 0xD800 || (0xE000 <= v && v <= 0x10FFFF),
    ensures
        c as u32 == v,
{
    char::from_u32(v).unwrap_or(' ')
}

/// Collects the characters of a string slice.
fn str_chars(s: &str) -> (v: Vec<char>)
    ensures
        v@ == s@,
{
    let mut it = s.chars();
    let mut v: Vec<char> = Vec::new();
    loop
        invariant
            v@ + it.remaining() == s@,
            it.obeys_prophetic_iter_laws(),
            it.decrease() is Some,
        ensures
            v@ == s@,
        decreases it.decrease()->0,
    {
        match it.next() {
            Some(c) => {
                v.push(c);
            },
            None => {
                proof {
                    assert(v@ + it.remaining() =~= v@);
                }
                break;
            },
        }
    }
    v
}

/// Decimal digit character of `d` (`d < 10`).
fn digit_exec(d: u8) -> (c: char)
    requires
        d < 10,
    ensures
        c == digit_char(d as int),
{
    (48 + d) as char
}

/// Lowercase hexadecimal digit character of `d` (`d < 16`).
fn hex_exec(d: u8) -> (c: char)
    requires
        d < 16,
    ensures
        c == hex_char(d as int),
{
    if d < 10 {
        (48 + d) as char
    } else {
        (87 + d) as char
    }
}

/// Appends the decimal digits of `n` to `out`.
fn push_dec(out: &mut String, n: u16)
    ensures
        final(out)@ == old(out)@ + dec_digits(n as int),
    decreases n,
{
    if n < 10 {
        push_char(out, digit_exec(n as u8));
    } else {
        push_dec(out, n / 10);
        push_char(out, digit_exec((n % 10) as u8));
        proof {
            assert(old(out)@ + dec_digits((n / 10) as int) + seq![digit_char((n % 10) as int)]
                =~= old(out)@ + dec_digits(n as int));
        }
    }
}

/// Appends the escape of one character to `out`.
fn append_escaped(out: &mut String, c: char)
    ensures
        final(out)@ == old(out)@ + escape_char(c),
{
    if c == '"' {
        out.append("\\\"");
        proof {
            reveal_strlit("\\\"");
            assert(old(out)@ + "\\\""@ =~= old(out)@ + escape_char(c));
        }
    } else if c == '\\' {
        out.append("\\\\");
        proof {
            reveal_strlit("\\\\");
            assert(old(out)@ + "\\\\"@ =~= old(out)@ + escape_char(c));
        }
    } else if c == '\u{8}' {
        out.append("\\b");
        proof {
            reveal_strlit("\\b");
            assert(old(out)@ + "\\b"@ =~= old(out)@ + escape_char(c));
        }
    } else if c == '\t' {
        out.append("\\t");
        proof {
            reveal_strlit("\\t");
            assert(old(out)@ + "\\t"@ =~= old(out)@ + escape_char(c));
        }
    } else if c == '\n' {
        out.append("\\n");
        proof {
            reveal_strlit("\\n");
            assert(old(out)@ + "\\n"@ =~= old(out)@ + escape_char(c));
        }
    } else if c == '\u{c}' {
        out.append("\\f");
        proof {
            reveal_strlit("\\f");
            assert(old(out)@ + "\\f"@ =~= old(out)@ + escape_char(c));
        }
    } else if c == '\r' {
        out.append("\\r");
        proof {
            reveal_strlit("\\r");
            assert(old(out)@ + "\\r"@ =~= old(out)@ + escape_char(c));
        }
    } else {
        let n = c as u32;
        proof {
            assert(c as int == c as u32);
        }
        if n < 0x20 {
            out.append("\\u00");
            push_char(out, hex_exec((n / 16) as u8));
            push_char(out, hex_exec((n % 16) as u8));
            proof {
                reveal_strlit("\\u00");
                assert(old(out)@ + "\\u00"@ + seq![hex_char((c as int) / 16)] + seq![
                    hex_char((c as int) % 16),
                ] =~= old(out)@ + escape_char(c));
            }
        } else {
            push_char(out, c);
            proof {
                assert(old(out)@ + seq![c] =~= old(out)@ + escape_char(c));
            }
        }
    }
}

/// Encodes a close payload with the given reason and code.
pub fn encode_close(reason: &str, code: u16) -> (r: String)
    ensures
        r@ == encode_close_spec(reason@, code),
{
    let cs = str_chars(reason);
    let mut out = String::from_str("{\"reason\":\"");
    proof {
        reveal_strlit("{\"reason\":\"");
        assert(out@ =~= close_prefix());
        assert(cs@.take(0) =~= Seq::<char>::empty());
    }
    let mut i: usize = 0;
    while i < cs.len()
        invariant
            i <= cs.len(),
            cs@ == reason@,
            out@ == close_prefix() + escape_string(cs@.take(i as int)),
        decreases cs.len() - i,
    {
        let c = cs[i];
        append_escaped(&mut out, c);
        proof {
            lemma_escape_append(cs@.take(i as int), cs@[i as int]);
            assert(cs@.take(i as int).push(cs@[i as int]) =~= cs@.take(i as int + 1));
            assert(close_prefix() + escape_string(cs@.take(i as int)) + escape_char(cs@[i as int])
                =~= close_prefix() + escape_string(cs@.take(i as int + 1)));
        }
        i += 1;
    }
    proof {
        assert(cs@.take(cs@.len() as int) =~= reason@);
    }
    out.append("\",\"code\":");
    proof {
        reveal_strlit("\",\"code\":");
        assert("\",\"code\":"@ =~= seq!['"'] + close_code_label());
    }
    push_dec(&mut out, code);
    push_char(&mut out, '}');
    proof {
        assert(out@ =~= encode_close_spec(reason@, code));
    }
    out
}

/// Value of one hexadecimal digit character.
fn hex_digit_exec(c: char) -> (r: Option<u32>)
    ensures
        r is Some <==> hex_val(c) is Some,
        r matches Some(v) ==> hex_val(c) == Some(v as int) && v < 16,
{
    let n = c as u32;
    proof {
        assert(c as int == c as u32);
    }
    if 48 <= n && n <= 57 {
        Some(n - 48)
    } else if 97 <= n && n <= 102 {
        Some(n - 87)
    } else if 65 <= n && n <= 70 {
        Some(n - 55)
    } else {
        None
    }
}

/// Value of four hexadecimal digit characters read as one number.
fn hex4_exec(a: char, b: char, c: char, d: char) -> (r: Option<u32>)
    ensures
        r is Some <==> hex_val4(a, b, c, d) is Some,
        r matches Some(v) ==> hex_val4(a, b, c, d) == Some(v as int) && v <= 0xFFFF,
{
    let va = match hex_digit_exec(a) {
        Some(v) => v,
        None => {
            return None;
        },
    };
    let vb = match hex_digit_exec(b) {
        Some(v) => v,
        None => {
            return None;
        },
    };
    let vc = match hex_digit_exec(c) {
        Some(v) => v,
        None => {
            return None;
        },
    };
    let vd = match hex_digit_exec(d) {
        Some(v) => v,
        None => {
            return None;
        },
    };
    Some(va * 4096 + vb * 256 + vc * 16 + vd)
}

/// Character denoted by a simple two-character escape, if any.
fn unescape_exec(e: char) -> (r: Option<char>)
    ensures
        r == unescape_simple(e),
{
    if e == '"' {
        Some('"')
    } else if e == '\\' {
        Some('\\')
    } else if e == '/' {
        Some('/')
    } else if e == 'b' {
        Some('\u{8}')
    } else if e == 'f' {
        Some('\u{c}')
    } else if e == 'n' {
        Some('\n')
    } else if e == 'r' {
        Some('\r')
    } else if e == 't' {
        Some('\t')
    } else {
        None
    }
}

/// Parses a JSON string body inside `cs` starting at `start` (just after the
/// opening quote). On success returns the decoded string and the index just
/// after the closing quote.
fn parse_jstring_exec(cs: &Vec<char>, start: usize) -> (r: Option<(String, usize)>)
    requires
        start <= cs@.len(),
    ensures
        r is Some <==> parse_jstring(cs@.skip(start as int)) is Some,
        r matches Some(p) ==> start <= p.1 <= cs@.len() && parse_jstring(cs@.skip(start as int))
            == Some((p.0@, cs@.skip(p.1 as int))),
{
    let ghost whole = parse_jstring(cs@.skip(start as int));
    let mut acc = String::new();
    let mut i = start;
    loop
        invariant
            start <= i <= cs@.len(),
            whole == parse_jstring(cs@.skip(start as int)),
            whole == (match parse_jstring(cs@.skip(i as int)) {
                Some(p) => Some((acc@ + p.0, p.1)),
                None => None::<(Seq<char>, Seq<char>)>,
            }),
        decreases cs@.len() - i,
    {
        let ghost s_i = cs@.skip(i as int);
        let ghost acc0 = acc@;
        if i == cs.len() {
            proof {
                assert(s_i.len() == 0);
            }
            return None;
        }
        proof {
            assert(s_i[0] == cs@[i as int]);
            assert(s_i.len() == cs@.len() - i);
        }
        let c = cs[i];
        if c == '"' {
            proof {
                assert(s_i.skip(1) =~= cs@.skip(i as int + 1));
                assert(acc0 + Seq::<char>::empty() =~= acc0);
            }
            return Some((acc, i + 1));
        }
        if c == '\\' {
            if i + 1 == cs.len() {
                proof {
                    assert(s_i.len() < 2);
                }
                return None;
            }
            proof {
                assert(s_i[1] == cs@[i as int + 1]);
            }
            let e = cs[i + 1];
            if e == 'u' {
                if cs.len() - i < 6 {
                    proof {
                        assert(s_i.len() < 6);
                    }
                    return None;
                }
                proof {
                    assert(s_i[2] == cs@[i as int + 2]);
                    assert(s_i[3] == cs@[i as int + 3]);
                    assert(s_i[4] == cs@[i as int + 4]);
                    assert(s_i[5] == cs@[i as int + 5]);
                }
                match hex4_exec(cs[i + 2], cs[i + 3], cs[i + 4], cs[i + 5]) {
                    None => {
                        return None;
                    },
                    Some(v) => {
                        if 0xD800 <= v && v < 0xE000 {
                            return None;
                        }
                        let c2 = char_from_u32(v);
                        push_char(&mut acc, c2);
                        proof {
                            assert((c2 as u32) as char == c2);
                            assert((v as int) as char == c2);
                            assert(s_i.skip(6) =~= cs@.skip(i as int + 6));
                            assert(acc@ == acc0 + seq![c2]);
                            if parse_jstring(cs@.skip(i as int + 6)) is Some {
                                let q = parse_jstring(cs@.skip(i as int + 6))->Some_0;
                                assert(parse_jstring(s_i) == Some((seq![c2] + q.0, q.1)));
                                assert(acc0 + (seq![c2] + q.0) =~= acc@ + q.0);
                            }
                        }
                        i += 6;
                    },
                }
            } else {
                match unescape_exec(e) {
                    None => {
                        return None;
                    },
                    Some(c2) => {
                        push_char(&mut acc, c2);
                        proof {
                            assert(s_i.skip(2) =~= cs@.skip(i as int + 2));
                            assert(acc@ == acc0 + seq![c2]);
                            if parse_jstring(cs@.skip(i as int + 2)) is Some {
                                let q = parse_jstring(cs@.skip(i as int + 2))->Some_0;
                                assert(parse_jstring(s_i) == Some((seq![c2] + q.0, q.1)));
                                assert(acc0 + (seq![c2] + q.0) =~= acc@ + q.0);
                            }
                        }
                        i += 2;
                    },
                }
            }
        } else {
            let n = c as u32;
            proof {
                lemma_char_int_u32(c);
            }
            if n < 0x20 {
                return None;
            }
            push_char(&mut acc, c);
            proof {
                assert(s_i.skip(1) =~= cs@.skip(i as int + 1));
                assert(acc@ == acc0 + seq![c]);
                if parse_jstring(cs@.skip(i as int + 1)) is Some {
                    let q = parse_jstring(cs@.skip(i as int + 1))->Some_0;
                    assert(parse_jstring(s_i) == Some((seq![c] + q.0, q.1)));
                    assert(acc0 + (seq![c] + q.0) =~= acc@ + q.0);
                }
            }
            i += 1;
        }
    }
}

/// Parses a whole close-payload body. On success the result is exactly what
/// [`parse_close_spec`] gives on the input.
#[verifier::loop_isolation(false)]
pub fn parse_close(s: &str) -> (r: Option<(String, u16)>)
    ensures
        r is Some <==> parse_close_spec(s@) is Some,
        r matches Some(p) ==> parse_close_spec(s@) == Some((p.0@, p.1)),
{
    let cs = str_chars(s);
    if cs.len() < 11 {
        return None;
    }
    if !(cs[0] == '{' && cs[1] == '"' && cs[2] == 'r' && cs[3] == 'e' && cs[4] == 'a' && cs[5]
        == 's' && cs[6] == 'o' && cs[7] == 'n' && cs[8] == '"' && cs[9] == ':' && cs[10] == '"') {
        proof {
            assert(cs@.take(11) != close_prefix());
        }
        return None;
    }
    proof {
        assert(cs@.take(11) =~= close_prefix());
    }
    let parsed = parse_jstring_exec(&cs, 11);
    match parsed {
        None => {
            return None;
        },
        Some((reason, j)) => {
            let ghost rest = cs@.skip(j as int);
            if cs.len() - j < 8 {
                proof {
                    assert(rest.len() < 8);
                }
                return None;
            }
            proof {
                assert(rest[0] == cs@[j as int]);
                assert(rest[1] == cs@[j as int + 1]);
                assert(rest[2] == cs@[j as int + 2]);
                assert(rest[3] == cs@[j as int + 3]);
                assert(rest[4] == cs@[j as int + 4]);
                assert(rest[5] == cs@[j as int + 5]);
                assert(rest[6] == cs@[j as int + 6]);
                assert(rest[7] == cs@[j as int + 7]);
            }
            if !(cs[j] == ',' && cs[j + 1] == '"' && cs[j + 2] == 'c' && cs[j + 3] == 'o' && cs[j
                + 4] == 'd' && cs[j + 5] == 'e' && cs[j + 6] == '"' && cs[j + 7] == ':') {
                proof {
                    assert(rest.take(8) != close_code_label());
                }
                return None;
            }
            proof {
                assert(rest.take(8) =~= close_code_label());
            }
            let k0 = j + 8;
            let ghost code_part = cs@.skip(k0 as int);
            proof {
                assert(rest.skip(8) =~= code_part);
            }
            if cs.len() - k0 < 2 {
                proof {
                    assert(code_part.len() < 2);
                }
                return None;
            }
            let end = cs.len() - 1;
            proof {
                assert(code_part.last() == cs@[end as int]);
            }
            if !(cs[end] == '}') {
                return None;
            }
            let ghost ds = code_part.drop_last();
            proof {
                assert(ds =~= cs@.subrange(k0 as int, end as int));
            }
            let mut acc: u32 = 0;
            let mut k = k0;
            proof {
                assert(cs@.subrange(k0 as int, k0 as int) =~= Seq::<char>::empty());
            }
            while k < end
                invariant
                    k0 <= k <= end,
                    end == cs@.len() - 1,
                    k0 <= cs@.len(),
                    ds == cs@.subrange(k0 as int, end as int),
                    all_digits(cs@.subrange(k0 as int, k as int)),
                    acc == digits_val(cs@.subrange(k0 as int, k as int)),
                    acc <= 65535,
                    all_digits(ds) && digits_val(ds) <= 65535 ==> parse_code(code_part) == Some(
                        digits_val(ds) as u16),
                decreases end - k,
            {
                let ghost pre = cs@.subrange(k0 as int, k as int);
                let c = cs[k];
                let cv = c as u32;
                proof {
                    lemma_char_int_u32(c);
                }
                if !(48 <= cv && cv <= 57) {
                    proof {
                        assert(ds[k - k0] == cs@[k as int]);
                        assert(!is_digit(ds[k - k0]));
                        assert(!all_digits(ds));
                        assert(parse_code(code_part) is None);
                        assert(parse_close_spec(cs@) is None);
                    }
                    return None;
                }
                let d = cv - 48;
                let acc2 = acc * 10 + d;
                proof {
                    let cur = cs@.subrange(k0 as int, k as int + 1);
                    assert(cur.drop_last() =~= pre);
                    assert(cur.last() == cs@[k as int]);
                    assert(digits_val(cur) == acc * 10 + d);
                }
                if acc2 > 65535 {
                    proof {
                        if all_digits(ds) {
                            lemma_digits_val_monotone(ds, k + 1 - k0);
                            assert(ds.take(k + 1 - k0) =~= cs@.subrange(k0 as int, k as int + 1));
                            assert(digits_val(ds) > 65535);
                        }
                        assert(parse_code(code_part) is None);
                        assert(parse_close_spec(cs@) is None);
                    }
                    return None;
                }
                acc = acc2;
                k += 1;
            }
            proof {
                assert(cs@.subrange(k0 as int, k as int) =~= ds);
                assert(parse_code(code_part) == Some(acc as u16));
                assert(parse_close_spec(cs@) == Some((reason@, acc as u16)));
            }
            Some((reason, acc as u16))
        },
    }
}

} // verus!

