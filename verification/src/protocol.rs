//! The bridge wire protocol: inbound messages decoded into commands.
//!
//! An inbound message is UTF-8 text carrying a JSON object with a single
//! key, the command's tag, whose value is an object of string fields:
//! `{"SelectInstallDir":{"callback_name":...}}` or
//! `{"Log":{"msg":...,"kind":...}}` (the two fields in either order).
//! `spec_decode` is the grammar; `decode_command` is proved to return
//! exactly what the grammar gives, and `encode_command` produces the
//! canonical encoding, which `lemma_decode_encode` proves decodes back to
//! the same command.
//!
//! The grammar tolerates JSON whitespace between tokens and the full set
//! of string escapes, with `\u` limited to code points outside the
//! surrogate range (no surrogate pairs). The schema is closed: a field
//! that is not one of the variant's own, a non-string value, or trailing
//! text after the object are all rejected.

use vstd::prelude::*;
use crate::jstring::{
    escape_json, json_string_lit, lemma_parse_string_lit, parse_string, spec_parse_string,
};
use crate::severity::eq_str;

verus! {

/// A decoded inbound command from the web content.
pub enum Command {
    /// Open a directory picker; the result is delivered by calling the
    /// function named `callback_name` in the web content.
    SelectInstallDir { callback_name: String },
    /// Forward a log message with a free-form severity label.
    Log { msg: String, kind: String },
}

/// The mathematical value of a [`Command`].
pub enum CommandView {
    SelectInstallDir { callback_name: Seq<char> },
    Log { msg: Seq<char>, kind: Seq<char> },
}

impl View for Command {
    type V = CommandView;

    open spec fn view(&self) -> CommandView {
        match self {
            Command::SelectInstallDir { callback_name } => CommandView::SelectInstallDir {
                callback_name: callback_name@,
            },
            Command::Log { msg, kind } => CommandView::Log { msg: msg@, kind: kind@ },
        }
    }
}

/// A message that is not a well-formed command. Decoding failure is
/// recoverable: the message is dropped and the session goes on.
#[derive(Clone, Copy, Debug, PartialEq, Eq, Structural)]
pub enum ProtocolError {
    Malformed,
}

/// JSON whitespace.
pub open spec fn is_json_ws(c: char) -> bool {
    c == ' ' || c == '\t' || c == '\n' || c == '\r'
}

/// The input with its leading JSON whitespace removed.
pub open spec fn spec_skip_ws(s: Seq<char>) -> Seq<char>
    decreases s.len(),
{
    if s.len() > 0 && is_json_ws(s[0]) {
        spec_skip_ws(s.skip(1))
    } else {
        s
    }
}

/// Reads one `"key": "value"` member of an object of string fields.
pub open spec fn spec_parse_member(s: Seq<char>) -> Option<((Seq<char>, Seq<char>), Seq<char>)> {
    match spec_parse_string(s) {
        Some(kp) => {
            let r2 = spec_skip_ws(kp.1);
            if r2.len() > 0 && r2[0] == ':' {
                let r3 = spec_skip_ws(r2.skip(1));
                match spec_parse_string(r3) {
                    Some(vp) => Some(((kp.0, vp.0), vp.1)),
                    None => None,
                }
            } else {
                None
            }
        },
        None => None,
    }
}

/// Reads an object of one or two string fields: the field set of a command
/// variant. Returns the members in the order they stand in the input.
pub open spec fn spec_parse_fields(s: Seq<char>) -> Option<
    (Seq<(Seq<char>, Seq<char>)>, Seq<char>),
> {
    if s.len() > 0 && s[0] == '{' {
        let r1 = spec_skip_ws(s.skip(1));
        match spec_parse_member(r1) {
            Some(mp) => {
                let r3 = spec_skip_ws(mp.1);
                if r3.len() > 0 && r3[0] == '}' {
                    Some((seq![mp.0], r3.skip(1)))
                } else if r3.len() > 0 && r3[0] == ',' {
                    let r4 = spec_skip_ws(r3.skip(1));
                    match spec_parse_member(r4) {
                        Some(mp2) => {
                            let r6 = spec_skip_ws(mp2.1);
                            if r6.len() > 0 && r6[0] == '}' {
                                Some((seq![mp.0, mp2.0], r6.skip(1)))
                            } else {
                                None
                            }
                        },
                        None => None,
                    }
                } else {
                    None
                }
            },
            None => None,
        }
    } else {
        None
    }
}

/// The command named by a tag and its decoded field set, if the tag is one
/// of the two known variants and the fields are exactly the variant's own.
pub open spec fn spec_command_of(
    tag: Seq<char>,
    fields: Seq<(Seq<char>, Seq<char>)>,
) -> Option<CommandView> {
    if tag == "SelectInstallDir"@ {
        if fields.len() == 1 && fields[0].0 == "callback_name"@ {
            Some(CommandView::SelectInstallDir { callback_name: fields[0].1 })
        } else {
            None
        }
    } else if tag == "Log"@ {
        if fields.len() == 2 && fields[0].0 == "msg"@ && fields[1].0 == "kind"@ {
            Some(CommandView::Log { msg: fields[0].1, kind: fields[1].1 })
        } else if fields.len() == 2 && fields[0].0 == "kind"@ && fields[1].0 == "msg"@ {
            Some(CommandView::Log { msg: fields[1].1, kind: fields[0].1 })
        } else {
            None
        }
    } else {
        None
    }
}

/// The grammar of a whole inbound message: one object with one tagged
/// member whose value is the variant's field set, and nothing after it.
pub open spec fn spec_decode(s: Seq<char>) -> Option<CommandView> {
    let r0 = spec_skip_ws(s);
    if r0.len() > 0 && r0[0] == '{' {
        let r1 = spec_skip_ws(r0.skip(1));
        match spec_parse_string(r1) {
            Some(tp) => {
                let r3 = spec_skip_ws(tp.1);
                if r3.len() > 0 && r3[0] == ':' {
                    let r4 = spec_skip_ws(r3.skip(1));
                    match spec_parse_fields(r4) {
                        Some(fp) => {
                            let r6 = spec_skip_ws(fp.1);
                            if r6.len() > 0 && r6[0] == '}' {
                                let r7 = spec_skip_ws(r6.skip(1));
                                if r7.len() == 0 {
                                    spec_command_of(tp.0, fp.0)
                                } else {
                                    None
                                }
                            } else {
                                None
                            }
                        },
                        None => None,
                    }
                } else {
                    None
                }
            },
            None => None,
        }
    } else {
        None
    }
}

/// Steps past JSON whitespace from position `i`.
fn skip_ws(s: &str, i: usize, n: usize) -> (j: usize)
    requires
        n == s@.len(),
        i <= n,
    ensures
        i <= j <= n,
        spec_skip_ws(s@.skip(i as int)) == s@.skip(j as int),
{
    let mut j = i;
    while j < n
        invariant
            i <= j <= n,
            n == s@.len(),
            spec_skip_ws(s@.skip(i as int)) == spec_skip_ws(s@.skip(j as int)),
        decreases n - j,
    {
        let c = s.get_char(j);
        proof {
            assert(s@.skip(j as int)[0] == s@[j as int]);
        }
        if !(c == ' ' || c == '\t' || c == '\n' || c == '\r') {
            return j;
        }
        proof {
            assert(s@.skip(j as int).skip(1) =~= s@.skip(j + 1));
        }
        j += 1;
    }
    proof {
        assert(s@.skip(j as int).len() == 0);
    }
    j
}

/// Reads one string-valued member, as `spec_parse_member` describes.
fn parse_member(s: &str, i: usize, n: usize) -> (r: Option<((String, String), usize)>)
    requires
        n == s@.len(),
        i <= n,
    ensures
        match r {
            Some(p) => {
                &&& i <= p.1 <= n
                &&& spec_parse_member(s@.skip(i as int)) == Some(
                    (((p.0).0@, (p.0).1@), s@.skip(p.1 as int)),
                )
            },
            None => spec_parse_member(s@.skip(i as int)) is None,
        },
{
    match parse_string(s, i, n) {
        None => None,
        Some(kp) => {
            let (k, j1) = kp;
            let j2 = skip_ws(s, j1, n);
            if j2 == n {
                return None;
            }
            proof {
                assert(s@.skip(j2 as int)[0] == s@[j2 as int]);
            }
            if s.get_char(j2) != ':' {
                return None;
            }
            proof {
                assert(s@.skip(j2 as int).skip(1) =~= s@.skip(j2 + 1));
            }
            let j3 = skip_ws(s, j2 + 1, n);
            match parse_string(s, j3, n) {
                None => None,
                Some(vp) => {
                    let (v, j4) = vp;
                    Some(((k, v), j4))
                },
            }
        },
    }
}

/// Reads a variant's field set, as `spec_parse_fields` describes: one
/// member, or two separated by a comma.
fn parse_fields(s: &str, i: usize, n: usize) -> (r: Option<
    ((String, String), Option<(String, String)>, usize),
>)
    requires
        n == s@.len(),
        i <= n,
    ensures
        match r {
            Some(p) => ({
                let fs = match p.1 {
                    None => seq![((p.0).0@, (p.0).1@)],
                    Some(m2) => seq![((p.0).0@, (p.0).1@), (m2.0@, m2.1@)],
                };
                &&& i <= p.2 <= n
                &&& spec_parse_fields(s@.skip(i as int)) == Some((fs, s@.skip(p.2 as int)))
            }),
            None => spec_parse_fields(s@.skip(i as int)) is None,
        },
{
    proof {
        assert(s@.skip(i as int).len() == n - i);
    }
    if i == n {
        return None;
    }
    proof {
        assert(s@.skip(i as int)[0] == s@[i as int]);
    }
    if s.get_char(i) != '{' {
        return None;
    }
    proof {
        assert(s@.skip(i as int).skip(1) =~= s@.skip(i + 1));
    }
    let j1 = skip_ws(s, i + 1, n);
    match parse_member(s, j1, n) {
        None => None,
        Some(mp) => {
            let (m1, j2) = mp;
            let j3 = skip_ws(s, j2, n);
            if j3 == n {
                return None;
            }
            proof {
                assert(s@.skip(j3 as int)[0] == s@[j3 as int]);
            }
            let c = s.get_char(j3);
            if c == '}' {
                proof {
                    assert(s@.skip(j3 as int).skip(1) =~= s@.skip(j3 + 1));
                }
                return Some((m1, None, j3 + 1));
            }
            if c != ',' {
                return None;
            }
            proof {
                assert(s@.skip(j3 as int).skip(1) =~= s@.skip(j3 + 1));
            }
            let j4 = skip_ws(s, j3 + 1, n);
            match parse_member(s, j4, n) {
                None => None,
                Some(mp2) => {
                    let (m2, j5) = mp2;
                    let j6 = skip_ws(s, j5, n);
                    if j6 == n {
                        return None;
                    }
                    proof {
                        assert(s@.skip(j6 as int)[0] == s@[j6 as int]);
                    }
                    if s.get_char(j6) != '}' {
                        return None;
                    }
                    proof {
                        assert(s@.skip(j6 as int).skip(1) =~= s@.skip(j6 + 1));
                    }
                    Some((m1, Some(m2), j6 + 1))
                },
            }
        },
    }
}

/// Decodes an inbound message into a [`Command`]. Returns `Ok` exactly on
/// the messages the wire grammar `spec_decode` accepts, and the decoded
/// command is the one the grammar gives; every other message is rejected
/// with a recoverable [`ProtocolError`].
pub fn decode_command(msg: &str) -> (r: Result<Command, ProtocolError>)
    ensures
        match r {
            Ok(c) => spec_decode(msg@) == Some(c@),
            Err(_) => spec_decode(msg@) is None,
        },
{
    let n = msg.unicode_len();
    proof {
        assert(msg@.skip(0) =~= msg@);
    }
    let i0 = skip_ws(msg, 0, n);
    if i0 == n {
        proof {
            assert(msg@.skip(i0 as int).len() == 0);
        }
        return Err(ProtocolError::Malformed);
    }
    proof {
        assert(msg@.skip(i0 as int)[0] == msg@[i0 as int]);
    }
    if msg.get_char(i0) != '{' {
        return Err(ProtocolError::Malformed);
    }
    proof {
        assert(msg@.skip(i0 as int).skip(1) =~= msg@.skip(i0 + 1));
    }
    let i1 = skip_ws(msg, i0 + 1, n);
    let tp = match parse_string(msg, i1, n) {
        None => {
            return Err(ProtocolError::Malformed);
        },
        Some(tp) => tp,
    };
    let (tag, j2) = tp;
    let j3 = skip_ws(msg, j2, n);
    if j3 == n {
        proof {
            assert(msg@.skip(j3 as int).len() == 0);
        }
        return Err(ProtocolError::Malformed);
    }
    proof {
        assert(msg@.skip(j3 as int)[0] == msg@[j3 as int]);
    }
    if msg.get_char(j3) != ':' {
        return Err(ProtocolError::Malformed);
    }
    proof {
        assert(msg@.skip(j3 as int).skip(1) =~= msg@.skip(j3 + 1));
    }
    let j4 = skip_ws(msg, j3 + 1, n);
    let fp = match parse_fields(msg, j4, n) {
        None => {
            return Err(ProtocolError::Malformed);
        },
        Some(fp) => fp,
    };
    let (m1, m2opt, j5) = fp;
    let j6 = skip_ws(msg, j5, n);
    if j6 == n {
        proof {
            assert(msg@.skip(j6 as int).len() == 0);
        }
        return Err(ProtocolError::Malformed);
    }
    proof {
        assert(msg@.skip(j6 as int)[0] == msg@[j6 as int]);
    }
    if msg.get_char(j6) != '}' {
        return Err(ProtocolError::Malformed);
    }
    proof {
        assert(msg@.skip(j6 as int).skip(1) =~= msg@.skip(j6 + 1));
    }
    let j7 = skip_ws(msg, j6 + 1, n);
    if j7 != n {
        proof {
            assert(msg@.skip(j7 as int).len() > 0);
        }
        return Err(ProtocolError::Malformed);
    }
    proof {
        assert(msg@.skip(j7 as int).len() == 0);
    }
    if eq_str(tag.as_str(), "SelectInstallDir") {
        match m2opt {
            None => {
                if eq_str(m1.0.as_str(), "callback_name") {
                    Ok(Command::SelectInstallDir { callback_name: m1.1 })
                } else {
                    Err(ProtocolError::Malformed)
                }
            },
            Some(_) => Err(ProtocolError::Malformed),
        }
    } else if eq_str(tag.as_str(), "Log") {
        match m2opt {
            None => Err(ProtocolError::Malformed),
            Some(m2) => {
                if eq_str(m1.0.as_str(), "msg") && eq_str(m2.0.as_str(), "kind") {
                    Ok(Command::Log { msg: m1.1, kind: m2.1 })
                } else if eq_str(m1.0.as_str(), "kind") && eq_str(m2.0.as_str(), "msg") {
                    Ok(Command::Log { msg: m2.1, kind: m1.1 })
                } else {
                    Err(ProtocolError::Malformed)
                }
            },
        }
    } else {
        Err(ProtocolError::Malformed)
    }
}

/// One `"key":"value"` member in the canonical encoding.
pub open spec fn spec_field(k: Seq<char>, v: Seq<char>) -> Seq<char> {
    json_string_lit(k) + seq![':'] + json_string_lit(v)
}

/// The canonical encoding of a command: the wire form with no whitespace,
/// the variant tag as the single outer key, and a `Log`'s fields in the
/// order `msg`, `kind`.
pub open spec fn spec_encode(c: CommandView) -> Seq<char> {
    match c {
        CommandView::SelectInstallDir { callback_name } => seq!['{'] + json_string_lit(
            "SelectInstallDir"@,
        ) + seq![':'] + seq!['{'] + spec_field("callback_name"@, callback_name) + seq!['}']
            + seq!['}'],
        CommandView::Log { msg, kind } => seq!['{'] + json_string_lit("Log"@) + seq![':']
            + seq!['{'] + spec_field("msg"@, msg) + seq![','] + spec_field("kind"@, kind)
            + seq!['}'] + seq!['}'],
    }
}

/// Builds the JSON string literal for `s`.
pub(crate) fn json_lit_of(s: &str) -> (r: String)
    ensures
        r@ == json_string_lit(s@),
{
    let mut out = String::new();
    out.push('"');
    let body = escape_json(s);
    out.append(body.as_str());
    out.push('"');
    proof {
        assert(out@ =~= json_string_lit(s@));
    }
    out
}

/// Encodes a command in the canonical wire form `spec_encode` gives.
pub fn encode_command(c: &Command) -> (r: String)
    ensures
        r@ == spec_encode(c@),
{
    match c {
        Command::SelectInstallDir { callback_name } => {
            let mut out = String::new();
            out.push('{');
            let tag = json_lit_of("SelectInstallDir");
            out.append(tag.as_str());
            out.push(':');
            out.push('{');
            let key = json_lit_of("callback_name");
            out.append(key.as_str());
            out.push(':');
            let val = json_lit_of(callback_name.as_str());
            out.append(val.as_str());
            out.push('}');
            out.push('}');
            proof {
                assert(out@ =~= spec_encode(c@));
            }
            out
        },
        Command::Log { msg, kind } => {
            let mut out = String::new();
            out.push('{');
            let tag = json_lit_of("Log");
            out.append(tag.as_str());
            out.push(':');
            out.push('{');
            let key1 = json_lit_of("msg");
            out.append(key1.as_str());
            out.push(':');
            let val1 = json_lit_of(msg.as_str());
            out.append(val1.as_str());
            out.push(',');
            let key2 = json_lit_of("kind");
            out.append(key2.as_str());
            out.push(':');
            let val2 = json_lit_of(kind.as_str());
            out.append(val2.as_str());
            out.push('}');
            out.push('}');
            proof {
                assert(out@ =~= spec_encode(c@));
            }
            out
        },
    }
}

/// Whitespace skipping leaves an input alone when it does not start with
/// whitespace.
proof fn lemma_skip_ws_id(s: Seq<char>)
    requires
        s.len() == 0 || !is_json_ws(s[0]),
    ensures
        spec_skip_ws(s) == s,
{
}

/// A member built of a key literal and a value literal reads back as that
/// key and value.
proof fn lemma_parse_member_lits(k: Seq<char>, v: Seq<char>, rest: Seq<char>)
    ensures
        spec_parse_member(json_string_lit(k) + (seq![':'] + json_string_lit(v) + rest)) == Some(
            ((k, v), rest),
        ),
{
    let after_key = seq![':'] + json_string_lit(v) + rest;
    lemma_parse_string_lit(k, after_key);
    assert(after_key[0] == ':');
    lemma_skip_ws_id(json_string_lit(k) + after_key);
    lemma_skip_ws_id(after_key);
    assert(after_key.skip(1) =~= json_string_lit(v) + rest);
    assert((json_string_lit(v) + rest)[0] == '"');
    lemma_skip_ws_id(json_string_lit(v) + rest);
    lemma_parse_string_lit(v, rest);
}

/// Decoding inverts encoding: the canonical form of every command decodes
/// back to that same command, whatever its strings hold.
pub proof fn lemma_decode_encode(c: CommandView)
    ensures
        spec_decode(spec_encode(c)) == Some(c),
{
    match c {
        CommandView::SelectInstallDir { callback_name } => {
            lemma_decode_encode_select(callback_name);
        },
        CommandView::Log { msg, kind } => {
            lemma_decode_encode_log(msg, kind);
        },
    }
}

proof fn lemma_decode_encode_select(cb: Seq<char>)
    ensures
        spec_decode(spec_encode(CommandView::SelectInstallDir { callback_name: cb })) == Some(
            CommandView::SelectInstallDir { callback_name: cb },
        ),
{
    reveal_strlit("SelectInstallDir");
    reveal_strlit("callback_name");
    let c = CommandView::SelectInstallDir { callback_name: cb };
    let msg = spec_encode(c);
    let tagl = json_string_lit("SelectInstallDir"@);
    let vall = json_string_lit(cb);
    let rest3 = seq!['}'] + seq!['}'];
    let rest2 = json_string_lit("callback_name"@) + (seq![':'] + vall + rest3);
    let rest1 = seq![':'] + (seq!['{'] + rest2);
    assert(msg =~= seq!['{'] + (tagl + rest1));
    assert(msg[0] == '{');
    lemma_skip_ws_id(msg);
    assert(msg.skip(1) =~= tagl + rest1);
    assert((tagl + rest1)[0] == '"');
    lemma_skip_ws_id(tagl + rest1);
    lemma_parse_string_lit("SelectInstallDir"@, rest1);
    assert(rest1[0] == ':');
    lemma_skip_ws_id(rest1);
    assert(rest1.skip(1) =~= seq!['{'] + rest2);
    assert((seq!['{'] + rest2)[0] == '{');
    lemma_skip_ws_id(seq!['{'] + rest2);
    // the field set object
    assert((seq!['{'] + rest2).skip(1) =~= rest2);
    assert(rest2[0] == '"');
    lemma_skip_ws_id(rest2);
    lemma_parse_member_lits("callback_name"@, cb, rest3);
    assert(rest3[0] == '}');
    lemma_skip_ws_id(rest3);
    assert(spec_parse_fields(seq!['{'] + rest2) == Some(
        (seq![("callback_name"@, cb)], rest3.skip(1)),
    ));
    // back at the top level
    assert(rest3.skip(1) =~= seq!['}']);
    lemma_skip_ws_id(seq!['}']);
    assert(seq!['}'].skip(1) =~= Seq::<char>::empty());
    lemma_skip_ws_id(Seq::<char>::empty());
    assert(spec_command_of("SelectInstallDir"@, seq![("callback_name"@, cb)]) == Some(c));
}

proof fn lemma_decode_encode_log(m: Seq<char>, k: Seq<char>)
    ensures
        spec_decode(spec_encode(CommandView::Log { msg: m, kind: k })) == Some(
            CommandView::Log { msg: m, kind: k },
        ),
{
    reveal_strlit("SelectInstallDir");
    reveal_strlit("Log");
    reveal_strlit("msg");
    reveal_strlit("kind");
    let c = CommandView::Log { msg: m, kind: k };
    let msg = spec_encode(c);
    let tagl = json_string_lit("Log"@);
    let val1l = json_string_lit(m);
    let val2l = json_string_lit(k);
    let rest5 = seq!['}'] + seq!['}'];
    let rest4 = seq![':'] + val2l + rest5;
    let rest3 = seq![','] + (json_string_lit("kind"@) + rest4);
    let rest2 = json_string_lit("msg"@) + (seq![':'] + val1l + rest3);
    let rest1 = seq![':'] + (seq!['{'] + rest2);
    assert(msg =~= seq!['{'] + (tagl + rest1));
    assert(msg[0] == '{');
    lemma_skip_ws_id(msg);
    assert(msg.skip(1) =~= tagl + rest1);
    assert((tagl + rest1)[0] == '"');
    lemma_skip_ws_id(tagl + rest1);
    lemma_parse_string_lit("Log"@, rest1);
    assert("Log"@ != "SelectInstallDir"@);
    assert(rest1[0] == ':');
    lemma_skip_ws_id(rest1);
    assert(rest1.skip(1) =~= seq!['{'] + rest2);
    assert((seq!['{'] + rest2)[0] == '{');
    lemma_skip_ws_id(seq!['{'] + rest2);
    // first member
    assert((seq!['{'] + rest2).skip(1) =~= rest2);
    assert(rest2[0] == '"');
    lemma_skip_ws_id(rest2);
    lemma_parse_member_lits("msg"@, m, rest3);
    // second member
    assert(rest3[0] == ',');
    lemma_skip_ws_id(rest3);
    assert(rest3.skip(1) =~= json_string_lit("kind"@) + (seq![':'] + val2l + rest5));
    assert((json_string_lit("kind"@) + rest4)[0] == '"');
    lemma_skip_ws_id(json_string_lit("kind"@) + (seq![':'] + val2l + rest5));
    lemma_parse_member_lits("kind"@, k, rest5);
    assert(rest5[0] == '}');
    lemma_skip_ws_id(rest5);
    assert(spec_parse_fields(seq!['{'] + rest2) == Some(
        (seq![("msg"@, m), ("kind"@, k)], rest5.skip(1)),
    ));
    // back at the top level
    assert(rest5.skip(1) =~= seq!['}']);
    lemma_skip_ws_id(seq!['}']);
    assert(seq!['}'].skip(1) =~= Seq::<char>::empty());
    lemma_skip_ws_id(Seq::<char>::empty());
    assert(spec_command_of("Log"@, seq![("msg"@, m), ("kind"@, k)]) == Some(c));
}

} // verus!
