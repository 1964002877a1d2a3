//! JSON marshalling of entries.
//!
//! The wire shapes are fixed: an entry serialises as
//! `{"id":<int>,"date":<int>,"title":<string>}` with the fields in that
//! order, and a listing serialises as a JSON array of entries. The spec
//! functions below define those character sequences exactly, and the
//! executable encoders are proved to produce them.

use vstd::prelude::*;
use vstd::string::StrSliceExecFns;
use vstd::string::StringExecFns;

use crate::models::Entry;
use crate::models::EntryView;
use crate::models::views_of;

verus! {

/// The character for one decimal digit.
pub open spec fn digit_char(d: int) -> char {
    ((48 + d) as u8) as char
}

/// The character for one lowercase hexadecimal digit.
pub open spec fn hex_char(d: int) -> char {
    if d < 10 {
        ((48 + d) as u8) as char
    } else {
        ((87 + d) as u8) as char
    }
}

/// Decimal digits of a non-negative integer, most significant first.
pub open spec fn dec_rep(n: nat) -> Seq<char>
    decreases n,
{
    if n < 10 {
        seq![digit_char(n as int)]
    } else {
        dec_rep(n / 10).push(digit_char((n % 10) as int))
    }
}

/// JSON text of an integer: decimal digits, with a leading minus sign for
/// negative values.
pub open spec fn json_int(n: int) -> Seq<char> {
    if n < 0 {
        seq!['-'] + dec_rep((-n) as nat)
    } else {
        dec_rep(n as nat)
    }
}

/// JSON escape of one character: quote and backslash get a backslash, the
/// common control characters get their short forms, the remaining control
/// characters get the `\u00XX` form, and everything else stands for itself.
pub open spec fn esc_char(c: char) -> Seq<char> {
    if c == '"' {
        seq!['\\', '"']
    } else if c == '\\' {
        seq!['\\', '\\']
    } else if c == '\n' {
        seq!['\\', 'n']
    } else if c == '\r' {
        seq!['\\', 'r']
    } else if c == '\t' {
        seq!['\\', 't']
    } else if c == '\u{8}' {
        seq!['\\', 'b']
    } else if c == '\u{c}' {
        seq!['\\', 'f']
    } else if (c as u32) < 32 {
        seq!['\\', 'u', '0', '0', hex_char(c as int / 16), hex_char(c as int % 16)]
    } else {
        seq![c]
    }
}

/// JSON escape of a character sequence, character by character.
pub open spec fn esc_seq(s: Seq<char>) -> Seq<char>
    decreases s.len(),
{
    if s.len() == 0 {
        Seq::empty()
    } else {
        esc_seq(s.drop_last()) + esc_char(s.last())
    }
}

/// JSON text of a string: the escaped characters between double quotes.
pub open spec fn json_string(s: Seq<char>) -> Seq<char> {
    seq!['"'] + esc_seq(s) + seq!['"']
}

/// JSON text of one entry.
pub open spec fn json_entry(e: EntryView) -> Seq<char> {
    seq!['{', '"', 'i', 'd', '"', ':'] + json_int(e.id) + seq![',', '"', 'd', 'a', 't', 'e', '"', ':']
        + json_int(e.date) + seq![',', '"', 't', 'i', 't', 'l', 'e', '"', ':'] + json_string(e.title)
        + seq!['}']
}

/// The comma-separated entry texts inside a JSON array.
pub open spec fn json_entries_inner(s: Seq<EntryView>) -> Seq<char>
    decreases s.len(),
{
    if s.len() == 0 {
        Seq::empty()
    } else if s.len() == 1 {
        json_entry(s[0])
    } else {
        json_entries_inner(s.drop_last()) + seq![','] + json_entry(s.last())
    }
}

/// JSON text of a listing: the entries, in order, between square brackets.
pub open spec fn json_entries(s: Seq<EntryView>) -> Seq<char> {
    seq!['['] + json_entries_inner(s) + seq![']']
}

/// Taking one element more extends a prefix by exactly that element.
proof fn lemma_take_step<A>(s: Seq<A>, i: int)
    requires
        0 <= i < s.len(),
    ensures
        s.take(i + 1).drop_last() =~= s.take(i),
        s.take(i + 1).last() == s[i],
{
}

/// Relies on `String::push`: appends one character at the end.
#[verifier::external_body]
fn push_char(s: &mut String, c: char)
    ensures
        final(s)@ == old(s)@.push(c),
{
    s.push(c);
}

/// One decimal digit as a character.
fn digit_exec(d: u64) -> (c: char)
    requires
        d < 10,
    ensures
        c == digit_char(d as int),
{
    (48 + d as u8) as char
}

/// Decimal text of a non-negative 64-bit integer.
fn u64_dec(n: u64) -> (r: String)
    ensures
        r@ == dec_rep(n as nat),
    decreases n,
{
    if n < 10 {
        let mut s = String::new();
        push_char(&mut s, digit_exec(n));
        assert(s@ =~= dec_rep(n as nat));
        s
    } else {
        let mut s = u64_dec(n / 10);
        push_char(&mut s, digit_exec(n % 10));
        s
    }
}

/// JSON text of a signed 64-bit integer.
pub fn i64_json(n: i64) -> (r: String)
    ensures
        r@ == json_int(n as int),
{
    if n >= 0 {
        u64_dec(n as u64)
    } else {
        let mag: u64 = ((-(n + 1)) as u64) + 1;
        assert(mag as int == -(n as int));
        let mut s = String::from_str("-");
        let d = u64_dec(mag);
        s.append(d.as_str());
        proof {
            reveal_strlit("-");
        }
        assert(s@ =~= json_int(n as int));
        s
    }
}

/// JSON text of a signed 32-bit integer.
pub fn i32_json(n: i32) -> (r: String)
    ensures
        r@ == json_int(n as int),
{
    i64_json(n as i64)
}

/// One lowercase hexadecimal digit as a character.
fn hex_exec(d: u32) -> (c: char)
    requires
        d < 16,
    ensures
        c == hex_char(d as int),
{
    if d < 10 {
        (48 + d as u8) as char
    } else {
        (87 + d as u8) as char
    }
}

/// JSON text of a string value: the input escaped, between double quotes.
pub fn json_quote(s: &str) -> (r: String)
    ensures
        r@ == json_string(s@),
{
    let n = s.unicode_len();
    let mut out = String::from_str("\"");
    proof {
        reveal_strlit("\"");
    }
    assert(out@ =~= seq!['"'] + esc_seq(s@.take(0)));
    let mut i: usize = 0;
    while i < n
        invariant
            n == s@.len(),
            i <= n,
            out@ == seq!['"'] + esc_seq(s@.take(i as int)),
        decreases n - i,
    {
        let c = s.get_char(i);
        proof {
            lemma_take_step(s@, i as int);
        }
        if c == '"' {
            out.append("\\\"");
            proof {
                reveal_strlit("\\\"");
            }
        } else if c == '\\' {
            out.append("\\\\");
            proof {
                reveal_strlit("\\\\");
            }
        } else if c == '\n' {
            out.append("\\n");
            proof {
                reveal_strlit("\\n");
            }
        } else if c == '\r' {
            out.append("\\r");
            proof {
                reveal_strlit("\\r");
            }
        } else if c == '\t' {
            out.append("\\t");
            proof {
                reveal_strlit("\\t");
            }
        } else if c == '\u{8}' {
            out.append("\\b");
            proof {
                reveal_strlit("\\b");
            }
        } else if c == '\u{c}' {
            out.append("\\f");
            proof {
                reveal_strlit("\\f");
            }
        } else if (c as u32) < 32 {
            out.append("\\u00");
            proof {
                reveal_strlit("\\u00");
            }
            push_char(&mut out, hex_exec(c as u32 / 16));
            push_char(&mut out, hex_exec(c as u32 % 16));
        } else {
            push_char(&mut out, c);
        }
        assert(out@ =~= seq!['"'] + esc_seq(s@.take(i as int + 1)));
        i = i + 1;
    }
    assert(s@.take(n as int) =~= s@);
    out.append("\"");
    assert(out@ =~= json_string(s@));
    out
}

/// JSON text of one entry.
pub fn entry_json(e: &Entry) -> (r: String)
    ensures
        r@ == json_entry(e@),
{
    let mut out = String::from_str("{\"id\":");
    let id_text = i32_json(e.id);
    out.append(id_text.as_str());
    out.append(",\"date\":");
    let date_text = i64_json(e.date);
    out.append(date_text.as_str());
    out.append(",\"title\":");
    let title_text = json_quote(e.title.as_str());
    out.append(title_text.as_str());
    out.append("}");
    proof {
        reveal_strlit("{\"id\":");
        reveal_strlit(",\"date\":");
        reveal_strlit(",\"title\":");
        reveal_strlit("}");
    }
    assert(out@ =~= json_entry(e@));
    out
}

/// JSON text of a listing of entries.
pub fn entries_json(v: &Vec<Entry>) -> (r: String)
    ensures
        r@ == json_entries(views_of(v@)),
{
    let ghost vs = views_of(v@);
    let mut out = String::from_str("[");
    proof {
        reveal_strlit("[");
    }
    assert(out@ =~= seq!['['] + json_entries_inner(vs.take(0)));
    let mut i: usize = 0;
    while i < v.len()
        invariant
            vs == views_of(v@),
            vs.len() == v@.len(),
            i <= v@.len(),
            out@ == seq!['['] + json_entries_inner(vs.take(i as int)),
        decreases v@.len() - i,
    {
        if i > 0 {
            out.append(",");
            proof {
                reveal_strlit(",");
            }
        }
        let text = entry_json(&v[i]);
        out.append(text.as_str());
        proof {
            lemma_take_step(vs, i as int);
            assert(vs[i as int] == v@[i as int]@);
        }
        assert(out@ =~= seq!['['] + json_entries_inner(vs.take(i as int + 1)));
        i = i + 1;
    }
    assert(vs.take(vs.len() as int) =~= vs);
    out.append("]");
    proof {
        reveal_strlit("]");
    }
    assert(out@ =~= json_entries(vs));
    out
}

} // verus!
