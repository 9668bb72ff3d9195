//! The JSON body of the create request, framed byte for byte: the
//! object `{"name":...,"notes":...}` with standard JSON string
//! escaping and `null` for absent notes.

use vstd::prelude::*;
use vstd::string::*;

verus! {

/// The lower-case hexadecimal digit character for a value between 0
/// and 15.
pub open spec fn hex_digit(d: int) -> char {
    if d == 0 {
        '0'
    } else if d == 1 {
        '1'
    } else if d == 2 {
        '2'
    } else if d == 3 {
        '3'
    } else if d == 4 {
        '4'
    } else if d == 5 {
        '5'
    } else if d == 6 {
        '6'
    } else if d == 7 {
        '7'
    } else if d == 8 {
        '8'
    } else if d == 9 {
        '9'
    } else if d == 10 {
        'a'
    } else if d == 11 {
        'b'
    } else if d == 12 {
        'c'
    } else if d == 13 {
        'd'
    } else if d == 14 {
        'e'
    } else {
        'f'
    }
}

/// How one character appears inside a JSON string literal: quote and
/// backslash are escaped, the named control characters use their short
/// escapes, the remaining control characters use `\u00..`, and every
/// other character stands as itself.
pub open spec fn json_escaped_char(c: char) -> Seq<char> {
    if c == '"' {
        seq!['\\', '"']
    } else if c == '\\' {
        seq!['\\', '\\']
    } else if c == '\u{08}' {
        seq!['\\', 'b']
    } else if c == '\t' {
        seq!['\\', 't']
    } else if c == '\n' {
        seq!['\\', 'n']
    } else if c == '\u{0c}' {
        seq!['\\', 'f']
    } else if c == '\r' {
        seq!['\\', 'r']
    } else if (c as int) < 32 {
        seq!['\\', 'u', '0', '0', hex_digit((c as int) / 16), hex_digit((c as int) % 16)]
    } else {
        seq![c]
    }
}

/// The escaped body of a JSON string literal.
pub open spec fn json_escaped(s: Seq<char>) -> Seq<char>
    decreases s.len(),
{
    if s.len() == 0 {
        Seq::<char>::empty()
    } else {
        json_escaped(s.drop_last()) + json_escaped_char(s.last())
    }
}

/// A complete JSON string literal for `s`.
pub open spec fn json_string(s: Seq<char>) -> Seq<char> {
    seq!['"'] + json_escaped(s) + seq!['"']
}

/// The JSON body sent by the create operation.
pub open spec fn spec_create_payload(name: Seq<char>, notes: Option<Seq<char>>) -> Seq<char> {
    "{\"name\":"@ + json_string(name) + ",\"notes\":"@ + (match notes {
        Some(n) => json_string(n),
        None => "null"@,
    }) + seq!['}']
}

fn hex_digit_str(d: u32) -> (r: &'static str)
    requires
        d < 16,
    ensures
        r@ == seq![hex_digit(d as int)],
{
    let r: &'static str = if d == 0 {
        "0"
    } else if d == 1 {
        "1"
    } else if d == 2 {
        "2"
    } else if d == 3 {
        "3"
    } else if d == 4 {
        "4"
    } else if d == 5 {
        "5"
    } else if d == 6 {
        "6"
    } else if d == 7 {
        "7"
    } else if d == 8 {
        "8"
    } else if d == 9 {
        "9"
    } else if d == 10 {
        "a"
    } else if d == 11 {
        "b"
    } else if d == 12 {
        "c"
    } else if d == 13 {
        "d"
    } else if d == 14 {
        "e"
    } else {
        "f"
    };
    proof {
        reveal_strlit("0");
        reveal_strlit("1");
        reveal_strlit("2");
        reveal_strlit("3");
        reveal_strlit("4");
        reveal_strlit("5");
        reveal_strlit("6");
        reveal_strlit("7");
        reveal_strlit("8");
        reveal_strlit("9");
        reveal_strlit("a");
        reveal_strlit("b");
        reveal_strlit("c");
        reveal_strlit("d");
        reveal_strlit("e");
        reveal_strlit("f");
        assert(r@ =~= seq![hex_digit(d as int)]);
    }
    r
}

/// Appends the escaped form of `s` to `out`.
fn append_escaped(out: &mut String, s: &str)
    ensures
        final(out)@ == old(out)@ + json_escaped(s@),
{
    let len: usize = s.unicode_len();
    let mut i: usize = 0;
    proof {
        assert(old(out)@ + json_escaped(s@.subrange(0, 0)) =~= old(out)@);
    }
    while i < len
        invariant
            0 <= i <= len,
            len == s@.len(),
            out@ == old(out)@ + json_escaped(s@.subrange(0, i as int)),
        decreases len - i,
    {
        let c: char = s.get_char(i);
        let ghost prefix = s@.subrange(0, i as int);
        let ghost prefix1 = s@.subrange(0, i + 1 as int);
        proof {
            assert(prefix1.drop_last() =~= prefix);
            assert(prefix1.last() == c);
        }
        let code: u32 = c as u32;
        if c == '"' {
            out.append("\\\"");
            proof {
                reveal_strlit("\\\"");
                assert(("\\\"")@ =~= json_escaped_char(c));
            }
        } else if c == '\\' {
            out.append("\\\\");
            proof {
                reveal_strlit("\\\\");
                assert(("\\\\")@ =~= json_escaped_char(c));
            }
        } else if code == 8 {
            out.append("\\b");
            proof {
                reveal_strlit("\\b");
                assert(("\\b")@ =~= json_escaped_char(c));
            }
        } else if code == 9 {
            out.append("\\t");
            proof {
                reveal_strlit("\\t");
                assert(("\\t")@ =~= json_escaped_char(c));
            }
        } else if code == 10 {
            out.append("\\n");
            proof {
                reveal_strlit("\\n");
                assert(("\\n")@ =~= json_escaped_char(c));
            }
        } else if code == 12 {
            out.append("\\f");
            proof {
                reveal_strlit("\\f");
                assert(("\\f")@ =~= json_escaped_char(c));
            }
        } else if code == 13 {
            out.append("\\r");
            proof {
                reveal_strlit("\\r");
                assert(("\\r")@ =~= json_escaped_char(c));
            }
        } else if code < 32 {
            out.append("\\u00");
            out.append(hex_digit_str(code / 16));
            out.append(hex_digit_str(code % 16));
            proof {
                reveal_strlit("\\u00");
                assert(("\\u00")@ + seq![hex_digit((code as int) / 16)] + seq![
                    hex_digit((code as int) % 16),
                ] =~= json_escaped_char(c));
            }
        } else {
            let piece = s.substring_char(i, i + 1);
            proof {
                assert(piece@ =~= seq![c]);
                assert(seq![c] =~= json_escaped_char(c));
            }
            out.append(piece);
        }
        proof {
            assert(out@ =~= old(out)@ + json_escaped(prefix1));
        }
        i = i + 1;
    }
    proof {
        assert(s@.subrange(0, len as int) =~= s@);
    }
}

/// Appends the complete JSON string literal for `s` to `out`.
fn append_json_string(out: &mut String, s: &str)
    ensures
        final(out)@ == old(out)@ + json_string(s@),
{
    out.append("\"");
    append_escaped(out, s);
    out.append("\"");
    proof {
        reveal_strlit("\"");
        assert(out@ =~= old(out)@ + json_string(s@));
    }
}

/// Builds the JSON body of the create request.
pub fn create_payload(name: &String, notes: &Option<String>) -> (r: String)
    ensures
        r@ == spec_create_payload(name@, notes.deep_view()),
{
    let mut out = String::from_str("{\"name\":");
    append_json_string(&mut out, name.as_str());
    out.append(",\"notes\":");
    match notes {
        Some(n) => {
            append_json_string(&mut out, n.as_str());
        },
        None => {
            out.append("null");
        },
    }
    out.append("}");
    proof {
        reveal_strlit("}");
        assert(("}")@ =~= seq!['}']);
        assert(out@ =~= spec_create_payload(name@, notes.deep_view()));
    }
    out
}

} // verus!
