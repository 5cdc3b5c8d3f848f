//! JSON string literals: the escaped form used on the bridge wire.
//!
//! Both directions are specified here: `spec_escape` / `json_string_lit`
//! give the exact escaped form of a string (the form the JSON serializer
//! produces), and `spec_parse_string_body` / `spec_parse_string` give the
//! meaning of a quoted literal in an inbound message. The executable
//! functions are proved equal to these specifications.

use vstd::prelude::*;

verus! {

/// Value of a hexadecimal digit character, upper or lower case.
pub open spec fn hex_val(c: char) -> Option<u32> {
    if '0' <= c && c <= '9' {
        Some(((c as int) - 48) as u32)
    } else if 'a' <= c && c <= 'f' {
        Some(((c as int) - 87) as u32)
    } else if 'A' <= c && c <= 'F' {
        Some(((c as int) - 55) as u32)
    } else {
        None
    }
}

/// The lower-case hexadecimal digit for a value below 16.
pub open spec fn hex_digit(v: int) -> char {
    if v == 0 { '0' }
    else if v == 1 { '1' }
    else if v == 2 { '2' }
    else if v == 3 { '3' }
    else if v == 4 { '4' }
    else if v == 5 { '5' }
    else if v == 6 { '6' }
    else if v == 7 { '7' }
    else if v == 8 { '8' }
    else if v == 9 { '9' }
    else if v == 10 { 'a' }
    else if v == 11 { 'b' }
    else if v == 12 { 'c' }
    else if v == 13 { 'd' }
    else if v == 14 { 'e' }
    else { 'f' }
}

/// The character named by a single-character escape, if any.
pub open spec fn spec_unescape_char(e: char) -> Option<char> {
    if e == '"' { Some('"') }
    else if e == '\\' { Some('\\') }
    else if e == '/' { Some('/') }
    else if e == 'b' { Some('\u{8}') }
    else if e == 'f' { Some('\u{c}') }
    else if e == 'n' { Some('\n') }
    else if e == 'r' { Some('\r') }
    else if e == 't' { Some('\t') }
    else { None }
}

/// The escaped form of one character: quote and backslash get a named
/// escape, the named control characters get theirs, any other control
/// character becomes a `\u00xx` escape, and everything else stands as is.
pub open spec fn spec_escape_char(c: char) -> Seq<char> {
    if c == '"' { seq!['\\', '"'] }
    else if c == '\\' { seq!['\\', '\\'] }
    else if c == '\u{8}' { seq!['\\', 'b'] }
    else if c == '\t' { seq!['\\', 't'] }
    else if c == '\n' { seq!['\\', 'n'] }
    else if c == '\u{c}' { seq!['\\', 'f'] }
    else if c == '\r' { seq!['\\', 'r'] }
    else if (c as u32) < 0x20 {
        seq!['\\', 'u', '0', '0', hex_digit((c as int) / 16), hex_digit((c as int) % 16)]
    } else {
        seq![c]
    }
}

/// The escaped form of a whole string (without the surrounding quotes).
pub open spec fn spec_escape(s: Seq<char>) -> Seq<char>
    decreases s.len(),
{
    if s.len() == 0 {
        Seq::empty()
    } else {
        spec_escape_char(s[0]) + spec_escape(s.skip(1))
    }
}

/// The JSON string literal that encodes `s`: quotes around the escaped form.
pub open spec fn json_string_lit(s: Seq<char>) -> Seq<char> {
    seq!['"'] + spec_escape(s) + seq!['"']
}

/// Reads the body of a JSON string literal (the opening quote already
/// consumed): on success, the decoded characters and the rest of the input
/// after the closing quote. Escapes `\u` with a surrogate code point, and
/// unescaped control characters, are rejected.
pub open spec fn spec_parse_string_body(s: Seq<char>) -> Option<(Seq<char>, Seq<char>)>
    decreases s.len(),
{
    if s.len() == 0 {
        None
    } else if s[0] == '"' {
        Some((Seq::empty(), s.skip(1)))
    } else if s[0] == '\\' {
        if s.len() < 2 {
            None
        } else if s[1] == 'u' {
            if s.len() < 6 {
                None
            } else {
                match (hex_val(s[2]), hex_val(s[3]), hex_val(s[4]), hex_val(s[5])) {
                    (Some(d0), Some(d1), Some(d2), Some(d3)) => {
                        let v = d0 * 0x1000 + d1 * 0x100 + d2 * 0x10 + d3;
                        if 0xD800 <= v && v <= 0xDFFF {
                            None
                        } else {
                            match spec_parse_string_body(s.skip(6)) {
                                Some(p) => Some((seq![v as char] + p.0, p.1)),
                                None => None,
                            }
                        }
                    }
                    _ => None,
                }
            }
        } else {
            match spec_unescape_char(s[1]) {
                Some(c) => match spec_parse_string_body(s.skip(2)) {
                    Some(p) => Some((seq![c] + p.0, p.1)),
                    None => None,
                },
                None => None,
            }
        }
    } else if (s[0] as u32) >= 0x20 {
        match spec_parse_string_body(s.skip(1)) {
            Some(p) => Some((seq![s[0]] + p.0, p.1)),
            None => None,
        }
    } else {
        None
    }
}

/// Reads a complete JSON string literal, opening quote included.
pub open spec fn spec_parse_string(s: Seq<char>) -> Option<(Seq<char>, Seq<char>)> {
    if s.len() > 0 && s[0] == '"' {
        spec_parse_string_body(s.skip(1))
    } else {
        None
    }
}

/// A character's code point is the same whether read as `u32` or as `int`,
/// and casting it back gives the character again.
proof fn lemma_char_bounds(c: char)
    ensures
        (c as u32) == (c as int),
        ((c as int) as char) == c,
        0 <= (c as int),
        (c as int) < 0x110000,
{
}

/// Escaping a concatenation escapes the parts in place.
proof fn lemma_escape_add(a: Seq<char>, b: Seq<char>)
    ensures
        spec_escape(a + b) == spec_escape(a) + spec_escape(b),
    decreases a.len(),
{
    if a.len() == 0 {
        assert(a + b =~= b);
        assert(spec_escape(a) + spec_escape(b) =~= spec_escape(b));
    } else {
        lemma_escape_add(a.skip(1), b);
        assert((a + b).skip(1) =~= a.skip(1) + b);
        assert(spec_escape(a + b) =~= spec_escape(a) + spec_escape(b));
    }
}

/// Reading an escaped string body back yields the original string: the
/// decoder inverts the encoder at the level of a single string literal.
proof fn lemma_parse_body_escaped(t: Seq<char>, rest: Seq<char>)
    ensures
        spec_parse_string_body(spec_escape(t) + seq!['"'] + rest) == Some((t, rest)),
    decreases t.len(),
{
    let s = spec_escape(t) + seq!['"'] + rest;
    if t.len() == 0 {
        assert(s =~= seq!['"'] + rest);
        assert(s[0] == '"');
        assert(s.skip(1) =~= rest);
        assert(spec_parse_string_body(s) == Some((Seq::<char>::empty(), rest)));
        assert(t =~= Seq::<char>::empty());
    } else {
        let c = t[0];
        let e = spec_escape_char(c);
        let tail = spec_escape(t.skip(1)) + seq!['"'] + rest;
        assert(spec_escape(t) == e + spec_escape(t.skip(1)));
        assert(s =~= e + tail);
        lemma_parse_body_escaped(t.skip(1), rest);
        if c == '"' || c == '\\' || c == '\u{8}' || c == '\t' || c == '\n' || c == '\u{c}'
            || c == '\r' {
            assert(e.len() == 2 && e[0] == '\\');
            assert(s[0] == '\\' && s[1] == e[1]);
            assert(spec_unescape_char(e[1]) == Some(c));
            assert(s.skip(2) =~= tail);
            assert(seq![c] + t.skip(1) =~= t);
        } else if (c as u32) < 0x20 {
            let ci = c as int;
            lemma_char_bounds(c);
            assert(0 <= ci);
            assert(ci < 0x20);
            let hi = ci / 16;
            let lo = ci % 16;
            assert(0 <= hi < 16 && 0 <= lo < 16);
            assert(hi * 16 + lo == ci) by {
                vstd::arithmetic::div_mod::lemma_fundamental_div_mod(ci, 16);
            }
            assert(e =~= seq!['\\', 'u', '0', '0', hex_digit(hi), hex_digit(lo)]);
            assert(s[0] == '\\' && s[1] == 'u' && s[2] == '0' && s[3] == '0' && s[4]
                == hex_digit(hi) && s[5] == hex_digit(lo));
            assert(hex_val('0') == Some(0u32));
            lemma_hex_val_digit(hi);
            lemma_hex_val_digit(lo);
            let v = 0u32 * 0x1000 + 0u32 * 0x100 + (hi as u32) * 0x10 + (lo as u32);
            assert(v == ci);
            assert(v < 0xD800);
            assert((v as char) == c);
            assert(s.skip(6) =~= tail);
            assert(seq![c] + t.skip(1) =~= t);
        } else {
            assert(e =~= seq![c]);
            assert(s[0] == c);
            assert(s.skip(1) =~= tail);
            assert(seq![c] + t.skip(1) =~= t);
        }
    }
}

/// `hex_val` inverts `hex_digit` on digit values.
proof fn lemma_hex_val_digit(v: int)
    requires
        0 <= v < 16,
    ensures
        hex_val(hex_digit(v)) == Some(v as u32),
{
}

/// Reading a whole encoded string literal back yields the original string.
pub(crate) proof fn lemma_parse_string_lit(t: Seq<char>, rest: Seq<char>)
    ensures
        spec_parse_string(json_string_lit(t) + rest) == Some((t, rest)),
{
    let s = json_string_lit(t) + rest;
    assert(s[0] == '"');
    assert(s.skip(1) =~= spec_escape(t) + seq!['"'] + rest);
    lemma_parse_body_escaped(t, rest);
}

/// Hexadecimal digit value, executable form.
fn hex_val_of(c: char) -> (r: Option<u32>)
    ensures
        r == hex_val(c),
{
    if '0' <= c && c <= '9' {
        Some(c as u32 - 48)
    } else if 'a' <= c && c <= 'f' {
        Some(c as u32 - 87)
    } else if 'A' <= c && c <= 'F' {
        Some(c as u32 - 55)
    } else {
        None
    }
}

/// Lower-case hexadecimal digit character, executable form.
fn hex_digit_of(v: u32) -> (r: char)
    requires
        v < 16,
    ensures
        r == hex_digit(v as int),
{
    if v == 0 { '0' }
    else if v == 1 { '1' }
    else if v == 2 { '2' }
    else if v == 3 { '3' }
    else if v == 4 { '4' }
    else if v == 5 { '5' }
    else if v == 6 { '6' }
    else if v == 7 { '7' }
    else if v == 8 { '8' }
    else if v == 9 { '9' }
    else if v == 10 { 'a' }
    else if v == 11 { 'b' }
    else if v == 12 { 'c' }
    else if v == 13 { 'd' }
    else if v == 14 { 'e' }
    else { 'f' }
}

/// Single-character unescape, executable form.
fn unescape_char_of(e: char) -> (r: Option<char>)
    ensures
        r == spec_unescape_char(e),
{
    if e == '"' { Some('"') }
    else if e == '\\' { Some('\\') }
    else if e == '/' { Some('/') }
    else if e == 'b' { Some('\u{8}') }
    else if e == 'f' { Some('\u{c}') }
    else if e == 'n' { Some('\n') }
    else if e == 'r' { Some('\r') }
    else if e == 't' { Some('\t') }
    else { None }
}

/// Escapes a string for inclusion in a JSON string literal.
pub fn escape_json(s: &str) -> (r: String)
    ensures
        r@ == spec_escape(s@),
{
    let n = s.unicode_len();
    let mut out = String::new();
    let mut i: usize = 0;
    while i < n
        invariant
            i <= n,
            n == s@.len(),
            out@ == spec_escape(s@.take(i as int)),
        decreases n - i,
    {
        let c = s.get_char(i);
        if c == '"' {
            out.push('\\');
            out.push('"');
        } else if c == '\\' {
            out.push('\\');
            out.push('\\');
        } else if c == '\u{8}' {
            out.push('\\');
            out.push('b');
        } else if c == '\t' {
            out.push('\\');
            out.push('t');
        } else if c == '\n' {
            out.push('\\');
            out.push('n');
        } else if c == '\u{c}' {
            out.push('\\');
            out.push('f');
        } else if c == '\r' {
            out.push('\\');
            out.push('r');
        } else if (c as u32) < 0x20 {
            out.push('\\');
            out.push('u');
            out.push('0');
            out.push('0');
            out.push(hex_digit_of(c as u32 / 16));
            out.push(hex_digit_of(c as u32 % 16));
        } else {
            out.push(c);
        }
        proof {
            let pre = s@.take(i as int);
            let cc = s@[i as int];
            assert(seq![cc].skip(1) =~= Seq::<char>::empty());
            assert(spec_escape(Seq::<char>::empty()) =~= Seq::<char>::empty());
            assert(spec_escape(seq![cc]) =~= spec_escape_char(cc));
            lemma_escape_add(pre, seq![cc]);
            assert(s@.take(i + 1) =~= pre + seq![cc]);
            if (cc as u32) < 0x20 && cc != '"' && cc != '\\' && cc != '\u{8}' && cc != '\t'
                && cc != '\n' && cc != '\u{c}' && cc != '\r' {
                assert((cc as u32 / 16) as int == (cc as int) / 16);
                assert((cc as u32 % 16) as int == (cc as int) % 16);
            }
            assert(out@ =~= spec_escape(pre) + spec_escape_char(cc));
        }
        i += 1;
    }
    proof {
        assert(s@.take(n as int) =~= s@);
    }
    out
}

/// Reads the body of a JSON string literal starting at character position
/// `i` (the opening quote already consumed), as `spec_parse_string_body`
/// describes; on success returns the decoded string and the position after
/// the closing quote.
fn parse_string_body(s: &str, i: usize, n: usize) -> (r: Option<(String, usize)>)
    requires
        n == s@.len(),
        i <= n,
    ensures
        match r {
            Some(p) => {
                &&& i <= p.1 <= n
                &&& spec_parse_string_body(s@.skip(i as int)) == Some(
                    (p.0@, s@.skip(p.1 as int)),
                )
            },
            None => spec_parse_string_body(s@.skip(i as int)) is None,
        },
    decreases n - i,
{
    let ghost su = s@.skip(i as int);
    proof {
        assert(su.len() == n - i);
    }
    if i == n {
        return None;
    }
    let c = s.get_char(i);
    proof {
        assert(su[0] == s@[i as int]);
    }
    if c == '"' {
        proof {
            assert(su.skip(1) =~= s@.skip(i + 1));
        }
        return Some((String::new(), i + 1));
    }
    if c == '\\' {
        if n - i < 2 {
            return None;
        }
        let e = s.get_char(i + 1);
        proof {
            assert(su[1] == s@[i + 1]);
        }
        if e == 'u' {
            if n - i < 6 {
                return None;
            }
            proof {
                assert(su[2] == s@[i + 2]);
                assert(su[3] == s@[i + 3]);
                assert(su[4] == s@[i + 4]);
                assert(su[5] == s@[i + 5]);
            }
            let h0 = hex_val_of(s.get_char(i + 2));
            let h1 = hex_val_of(s.get_char(i + 3));
            let h2 = hex_val_of(s.get_char(i + 4));
            let h3 = hex_val_of(s.get_char(i + 5));
            match (h0, h1, h2, h3) {
                (Some(d0), Some(d1), Some(d2), Some(d3)) => {
                    proof {
                        lemma_hex_small(su[2]);
                        lemma_hex_small(su[3]);
                        lemma_hex_small(su[4]);
                        lemma_hex_small(su[5]);
                    }
                    let v: u32 = d0 * 0x1000 + d1 * 0x100 + d2 * 0x10 + d3;
                    match char::from_u32(v) {
                        None => {
                            return None;
                        },
                        Some(ch) => {
                            match parse_string_body(s, i + 6, n) {
                                None => {
                                    proof {
                                        assert(su.skip(6) =~= s@.skip(i + 6));
                                    }
                                    return None;
                                },
                                Some(p) => {
                                    let (t, j) = p;
                                    let mut out = String::new();
                                    out.push(ch);
                                    out.append(t.as_str());
                                    proof {
                                        assert(su.skip(6) =~= s@.skip(i + 6));
                                        assert(out@ =~= seq![ch] + t@);
                                    }
                                    return Some((out, j));
                                },
                            }
                        },
                    }
                },
                _ => {
                    return None;
                },
            }
        } else {
            match unescape_char_of(e) {
                None => {
                    return None;
                },
                Some(c2) => {
                    match parse_string_body(s, i + 2, n) {
                        None => {
                            proof {
                                assert(su.skip(2) =~= s@.skip(i + 2));
                            }
                            return None;
                        },
                        Some(p) => {
                            let (t, j) = p;
                            let mut out = String::new();
                            out.push(c2);
                            out.append(t.as_str());
                            proof {
                                assert(su.skip(2) =~= s@.skip(i + 2));
                                assert(out@ =~= seq![c2] + t@);
                            }
                            return Some((out, j));
                        },
                    }
                },
            }
        }
    }
    if (c as u32) < 0x20 {
        return None;
    }
    match parse_string_body(s, i + 1, n) {
        None => {
            proof {
                assert(su.skip(1) =~= s@.skip(i + 1));
            }
            None
        },
        Some(p) => {
            let (t, j) = p;
            let mut out = String::new();
            out.push(c);
            out.append(t.as_str());
            proof {
                assert(su.skip(1) =~= s@.skip(i + 1));
                assert(out@ =~= seq![c] + t@);
            }
            Some((out, j))
        },
    }
}

/// A hexadecimal digit's value is below 16.
proof fn lemma_hex_small(c: char)
    ensures
        hex_val(c) matches Some(d) ==> d < 16,
{
    lemma_char_bounds(c);
}

/// Reads a complete JSON string literal starting at character position `i`,
/// as `spec_parse_string` describes.
pub(crate) fn parse_string(s: &str, i: usize, n: usize) -> (r: Option<(String, usize)>)
    requires
        n == s@.len(),
        i <= n,
    ensures
        match r {
            Some(p) => {
                &&& i <= p.1 <= n
                &&& spec_parse_string(s@.skip(i as int)) == Some((p.0@, s@.skip(p.1 as int)))
            },
            None => spec_parse_string(s@.skip(i as int)) is None,
        },
{
    proof {
        assert(s@.skip(i as int).len() == n - i);
    }
    if i == n {
        return None;
    }
    let c = s.get_char(i);
    proof {
        assert(s@.skip(i as int)[0] == s@[i as int]);
    }
    if c != '"' {
        return None;
    }
    proof {
        assert(s@.skip(i as int).skip(1) =~= s@.skip(i + 1));
    }
    parse_string_body(s, i + 1, n)
}

} // verus!
