//! The audit payloads: the JSON texts recorded alongside privileged
//! mutations, built and proved here character by character. Keys appear
//! in sorted order and strings are escaped the way the JSON serializer
//! in use writes them: quote, backslash and the named control characters
//! as two-character escapes, other control characters in the four-digit
//! form, everything else verbatim.

use vstd::prelude::*;
use vstd::string::{StrSliceExecFns, StringExecFns};

use crate::model::strs_view;

verus! {

/// The hexadecimal digit character for a value below sixteen.
pub open spec fn hex_digit(n: u32) -> char {
    if n == 0 {
        '0'
    } else if n == 1 {
        '1'
    } else if n == 2 {
        '2'
    } else if n == 3 {
        '3'
    } else if n == 4 {
        '4'
    } else if n == 5 {
        '5'
    } else if n == 6 {
        '6'
    } else if n == 7 {
        '7'
    } else if n == 8 {
        '8'
    } else if n == 9 {
        '9'
    } else if n == 10 {
        'a'
    } else if n == 11 {
        'b'
    } else if n == 12 {
        'c'
    } else if n == 13 {
        'd'
    } else if n == 14 {
        'e'
    } else {
        'f'
    }
}

fn hex_char(n: u32) -> (r: char)
    requires
        n < 16,
    ensures
        r == hex_digit(n),
{
    if n == 0 {
        '0'
    } else if n == 1 {
        '1'
    } else if n == 2 {
        '2'
    } else if n == 3 {
        '3'
    } else if n == 4 {
        '4'
    } else if n == 5 {
        '5'
    } else if n == 6 {
        '6'
    } else if n == 7 {
        '7'
    } else if n == 8 {
        '8'
    } else if n == 9 {
        '9'
    } else if n == 10 {
        'a'
    } else if n == 11 {
        'b'
    } else if n == 12 {
        'c'
    } else if n == 13 {
        'd'
    } else if n == 14 {
        'e'
    } else {
        'f'
    }
}

/// One character as it stands inside a JSON string.
pub open spec fn json_escaped_char(c: char) -> Seq<char> {
    if c == '"' {
        seq!['\\', '"']
    } else if c == '\\' {
        seq!['\\', '\\']
    } else if c == '\u{8}' {
        seq!['\\', 'b']
    } else if c == '\u{c}' {
        seq!['\\', 'f']
    } else if c == '\n' {
        seq!['\\', 'n']
    } else if c == '\r' {
        seq!['\\', 'r']
    } else if c == '\t' {
        seq!['\\', 't']
    } else if (c as u32) < 0x20 {
        seq!['\\', 'u', '0', '0', hex_digit((c as u32) / 16), hex_digit((c as u32) % 16)]
    } else {
        seq![c]
    }
}

/// A text as it stands inside a JSON string.
pub open spec fn json_escaped(s: Seq<char>) -> Seq<char>
    decreases s.len(),
{
    if s.len() == 0 {
        Seq::empty()
    } else {
        json_escaped(s.drop_last()) + json_escaped_char(s.last())
    }
}

/// A JSON string value: the escaped text between quotes.
pub open spec fn json_string(s: Seq<char>) -> Seq<char> {
    seq!['"'] + json_escaped(s) + seq!['"']
}

/// A JSON boolean value.
pub open spec fn json_bool(b: bool) -> Seq<char> {
    if b {
        "true"@
    } else {
        "false"@
    }
}

/// A nullable JSON string value.
pub open spec fn json_opt_string(o: Option<Seq<char>>) -> Seq<char> {
    match o {
        Some(s) => json_string(s),
        None => "null"@,
    }
}

/// The comma-separated items of a JSON array of strings.
pub open spec fn json_array_items(xs: Seq<Seq<char>>) -> Seq<char>
    decreases xs.len(),
{
    if xs.len() == 0 {
        Seq::empty()
    } else if xs.len() == 1 {
        json_string(xs[0])
    } else {
        json_array_items(xs.drop_last()) + seq![','] + json_string(xs.last())
    }
}

/// A JSON array of string values.
pub open spec fn json_string_array(xs: Seq<Seq<char>>) -> Seq<char> {
    seq!['['] + json_array_items(xs) + seq![']']
}

/// Relies on char's ToString rendering: the one-character text of the
/// character.
#[verifier::external_body]
fn char_to_string(c: char) -> (r: String)
    ensures
        r@ == seq![c],
{
    c.to_string()
}

/// Appends the escaped form of `s`.
fn append_json_escaped(out: &mut String, s: &str)
    ensures
        final(out)@ == old(out)@ + json_escaped(s@),
{
    let n = s.unicode_len();
    let mut i: usize = 0;
    proof {
        assert(s@.take(0) =~= Seq::<char>::empty());
        assert(out@ =~= old(out)@ + json_escaped(s@.take(0)));
    }
    while i < n
        invariant
            i <= n,
            n == s@.len(),
            out@ == old(out)@ + json_escaped(s@.take(i as int)),
        decreases n - i,
    {
        let c = s.get_char(i);
        proof {
            assert(s@.take(i + 1).drop_last() =~= s@.take(i as int));
            assert(s@.take(i + 1).last() == s@[i as int]);
        }
        if c == '"' {
            out.append("\\\"");
            proof {
                reveal_strlit("\\\"");
                assert("\\\""@ =~= json_escaped_char(c));
            }
        } else if c == '\\' {
            out.append("\\\\");
            proof {
                reveal_strlit("\\\\");
                assert("\\\\"@ =~= json_escaped_char(c));
            }
        } else if c == '\u{8}' {
            out.append("\\b");
            proof {
                reveal_strlit("\\b");
                assert("\\b"@ =~= json_escaped_char(c));
            }
        } else if c == '\u{c}' {
            out.append("\\f");
            proof {
                reveal_strlit("\\f");
                assert("\\f"@ =~= json_escaped_char(c));
            }
        } else if c == '\n' {
            out.append("\\n");
            proof {
                reveal_strlit("\\n");
                assert("\\n"@ =~= json_escaped_char(c));
            }
        } else if c == '\r' {
            out.append("\\r");
            proof {
                reveal_strlit("\\r");
                assert("\\r"@ =~= json_escaped_char(c));
            }
        } else if c == '\t' {
            out.append("\\t");
            proof {
                reveal_strlit("\\t");
                assert("\\t"@ =~= json_escaped_char(c));
            }
        } else if (c as u32) < 0x20 {
            out.append("\\u00");
            let hi = char_to_string(hex_char((c as u32) / 16));
            let lo = char_to_string(hex_char((c as u32) % 16));
            out.append(hi.as_str());
            out.append(lo.as_str());
            proof {
                reveal_strlit("\\u00");
                assert("\\u00"@ + hi@ + lo@ =~= json_escaped_char(c));
            }
        } else {
            let cs = char_to_string(c);
            out.append(cs.as_str());
            proof {
                assert(cs@ =~= json_escaped_char(c));
            }
        }
        proof {
            assert(out@ =~= old(out)@ + json_escaped(s@.take(i + 1)));
        }
        i = i + 1;
    }
    proof {
        assert(s@.take(n as int) =~= s@);
    }
}

/// Appends `s` as a quoted, escaped JSON string value.
fn append_json_string(out: &mut String, s: &str)
    ensures
        final(out)@ == old(out)@ + json_string(s@),
{
    out.append("\"");
    append_json_escaped(out, s);
    out.append("\"");
    proof {
        reveal_strlit("\"");
        assert("\""@ =~= seq!['"']);
        assert(out@ =~= old(out)@ + json_string(s@));
    }
}

/// Appends a JSON array holding the strings, in order.
fn append_json_string_array(out: &mut String, xs: &Vec<String>)
    ensures
        final(out)@ == old(out)@ + json_string_array(strs_view(xs@)),
{
    let ghost texts = strs_view(xs@);
    out.append("[");
    proof {
        reveal_strlit("[");
        assert("["@ =~= seq!['[']);
        assert(texts.take(0) =~= Seq::<Seq<char>>::empty());
        assert(out@ =~= old(out)@ + seq!['['] + json_array_items(texts.take(0)));
    }
    let n = xs.len();
    let mut i: usize = 0;
    while i < n
        invariant
            i <= n,
            n == xs.len(),
            texts == strs_view(xs@),
            texts.len() == n,
            out@ == old(out)@ + seq!['['] + json_array_items(texts.take(i as int)),
        decreases n - i,
    {
        proof {
            assert(texts.take(i + 1).drop_last() =~= texts.take(i as int));
            assert(texts.take(i + 1).last() == texts[i as int]);
            assert(texts[i as int] == xs@[i as int]@);
        }
        if i > 0 {
            out.append(",");
            proof {
                reveal_strlit(",");
                assert(","@ =~= seq![',']);
            }
        }
        append_json_string(out, xs[i].as_str());
        proof {
            assert(out@ =~= old(out)@ + seq!['['] + json_array_items(texts.take(i + 1)));
        }
        i = i + 1;
    }
    out.append("]");
    proof {
        reveal_strlit("]");
        assert("]"@ =~= seq![']']);
        assert(texts.take(n as int) =~= texts);
        assert(out@ =~= old(out)@ + json_string_array(texts));
    }
}

// ---------------------------------------------------------------------
// The payload shapes, keys in sorted order
// ---------------------------------------------------------------------

/// What the audit records of a created or updated account.
pub open spec fn user_payload(
    email: Seq<char>,
    first: Seq<char>,
    last: Seq<char>,
    active: bool,
) -> Seq<char> {
    "{\"email\":"@ + json_string(email) + ",\"first_name\":"@ + json_string(first)
        + ",\"is_active\":"@ + json_bool(active) + ",\"last_name\":"@ + json_string(last) + "}"@
}

/// What the audit records of a deleted account.
pub open spec fn user_delete_payload(
    email: Seq<char>,
    first: Seq<char>,
    last: Seq<char>,
) -> Seq<char> {
    "{\"email\":"@ + json_string(email) + ",\"first_name\":"@ + json_string(first)
        + ",\"last_name\":"@ + json_string(last) + "}"@
}

/// What the audit records of a created or updated role: the form's
/// fields as submitted.
pub open spec fn role_payload(
    name: Seq<char>,
    desc: Seq<char>,
    perms: Seq<Seq<char>>,
    active: bool,
) -> Seq<char> {
    "{\"description\":"@ + json_string(desc) + ",\"is_active\":"@ + json_bool(active)
        + ",\"name\":"@ + json_string(name) + ",\"permissions\":"@ + json_string_array(perms)
        + "}"@
}

/// What the audit records of a deleted role: the stored fields.
pub open spec fn role_delete_payload(
    name: Seq<char>,
    desc: Option<Seq<char>>,
    perms: Seq<Seq<char>>,
) -> Seq<char> {
    "{\"description\":"@ + json_opt_string(desc) + ",\"name\":"@ + json_string(name)
        + ",\"permissions\":"@ + json_string_array(perms) + "}"@
}

/// Builds [`user_payload`] as text.
pub fn user_payload_text(email: &str, first: &str, last: &str, active: bool) -> (r: String)
    ensures
        r@ == user_payload(email@, first@, last@, active),
{
    let mut out = String::new();
    out.append("{\"email\":");
    append_json_string(&mut out, email);
    out.append(",\"first_name\":");
    append_json_string(&mut out, first);
    out.append(",\"is_active\":");
    if active {
        out.append("true");
    } else {
        out.append("false");
    }
    out.append(",\"last_name\":");
    append_json_string(&mut out, last);
    out.append("}");
    proof {
        assert(out@ =~= user_payload(email@, first@, last@, active));
    }
    out
}

/// Builds [`user_delete_payload`] as text.
pub fn user_delete_payload_text(email: &str, first: &str, last: &str) -> (r: String)
    ensures
        r@ == user_delete_payload(email@, first@, last@),
{
    let mut out = String::new();
    out.append("{\"email\":");
    append_json_string(&mut out, email);
    out.append(",\"first_name\":");
    append_json_string(&mut out, first);
    out.append(",\"last_name\":");
    append_json_string(&mut out, last);
    out.append("}");
    proof {
        assert(out@ =~= user_delete_payload(email@, first@, last@));
    }
    out
}

/// Builds [`role_payload`] as text.
pub fn role_payload_text(name: &str, desc: &str, perms: &Vec<String>, active: bool) -> (r: String)
    ensures
        r@ == role_payload(name@, desc@, strs_view(perms@), active),
{
    let mut out = String::new();
    out.append("{\"description\":");
    append_json_string(&mut out, desc);
    out.append(",\"is_active\":");
    if active {
        out.append("true");
    } else {
        out.append("false");
    }
    out.append(",\"name\":");
    append_json_string(&mut out, name);
    out.append(",\"permissions\":");
    append_json_string_array(&mut out, perms);
    out.append("}");
    proof {
        assert(out@ =~= role_payload(name@, desc@, strs_view(perms@), active));
    }
    out
}

/// Builds [`role_delete_payload`] as text.
pub fn role_delete_payload_text(name: &str, desc: &Option<String>, perms: &Vec<String>) -> (r:
    String)
    ensures
        r@ == role_delete_payload(name@, crate::model::opt_str_view(*desc), strs_view(perms@)),
{
    let mut out = String::new();
    out.append("{\"description\":");
    match desc {
        Some(d) => {
            append_json_string(&mut out, d.as_str());
        },
        None => {
            out.append("null");
        },
    }
    out.append(",\"name\":");
    append_json_string(&mut out, name);
    out.append(",\"permissions\":");
    append_json_string_array(&mut out, perms);
    out.append("}");
    proof {
        assert(out@ =~= role_delete_payload(
            name@,
            crate::model::opt_str_view(*desc),
            strs_view(perms@),
        ));
    }
    out
}

} // verus!
