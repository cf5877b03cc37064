//! The canonical JSON text that evidence digests are computed over: compact
//! `serde_json` text with object members in key order and every text value in
//! Unicode NFC.
use vstd::prelude::*;

use crate::domain::{hex_char, RepoError};
use crate::json::{JsonNumber, JsonValue};
use crate::text::{decimal, decimal_u64, lex_le, push_char, str_le, str_eq};
use crate::unicode::{nfc, nfc_of};

verus! {

/// How `serde_json` writes one character inside a string literal: quote
/// and backslash escaped, the five short control escapes, every other
/// control character below U+0020 as `\u00` and two lower-case hex digits,
/// and anything else as it is.
pub open spec fn escape_char(c: char) -> Seq<char> {
    if c == '"' {
        seq!['\\', '"']
    } else if c == '\\' {
        seq!['\\', '\\']
    } else if c == '\u{8}' {
        seq!['\\', 'b']
    } else if c == '\u{9}' {
        seq!['\\', 't']
    } else if c == '\u{a}' {
        seq!['\\', 'n']
    } else if c == '\u{c}' {
        seq!['\\', 'f']
    } else if c == '\u{d}' {
        seq!['\\', 'r']
    } else if (c as u32) < 0x20 {
        seq!['\\', 'u', '0', '0', hex_char(((c as u32) / 16) as u8), hex_char(((c as u32) % 16) as u8)]
    } else {
        seq![c]
    }
}

pub open spec fn escaped(s: Seq<char>) -> Seq<char>
    decreases s.len(),
{
    if s.len() == 0 {
        Seq::empty()
    } else {
        escaped(s.drop_last()) + escape_char(s.last())
    }
}

/// A JSON string literal holding `s`.
pub open spec fn quoted(s: Seq<char>) -> Seq<char> {
    seq!['"'] + escaped(s) + seq!['"']
}

pub open spec fn number_text(n: JsonNumber) -> Seq<char> {
    match n {
        JsonNumber::PosInt(v) => decimal(v as nat),
        JsonNumber::NegInt(v) => if v < 0 {
            seq!['-'] + decimal((-v) as nat)
        } else {
            decimal(v as nat)
        },
        JsonNumber::Float(t) => t@,
    }
}

pub open spec fn key_lt(a: Seq<char>, b: Seq<char>) -> bool {
    lex_le(a, b) && a != b
}

/// Object members stand in strictly increasing key order, as in the
/// ordered map that `serde_json` keeps them in.
pub open spec fn keys_increasing(entries: Seq<(String, JsonValue)>) -> bool
    decreases entries.len(),
{
    if entries.len() < 2 {
        true
    } else {
        keys_increasing(entries.drop_last()) && key_lt(
            entries[entries.len() - 2].0@,
            entries.last().0@,
        )
    }
}

/// A value that `serde_json` could hold: every object's keys are in order.
pub open spec fn json_wf(v: JsonValue) -> bool
    decreases v, 0int,
{
    match v {
        JsonValue::Array(items) => items_wf(items@),
        JsonValue::Object(entries) => keys_increasing(entries@) && members_wf(entries@),
        _ => true,
    }
}

pub open spec fn items_wf(items: Seq<JsonValue>) -> bool
    decreases items, 1int,
{
    if items.len() == 0 {
        true
    } else {
        items_wf(items.drop_last()) && json_wf(items.last())
    }
}

pub open spec fn members_wf(entries: Seq<(String, JsonValue)>) -> bool
    decreases entries, 1int,
{
    if entries.len() == 0 {
        true
    } else {
        members_wf(entries.drop_last()) && json_wf(entries.last().1)
    }
}

/// The canonical text of a value.
pub open spec fn canonical_text(v: JsonValue) -> Seq<char>
    decreases v, 0int,
{
    match v {
        JsonValue::Null => seq!['n', 'u', 'l', 'l'],
        JsonValue::Bool(b) => if b {
            seq!['t', 'r', 'u', 'e']
        } else {
            seq!['f', 'a', 'l', 's', 'e']
        },
        JsonValue::Number(n) => number_text(n),
        JsonValue::String(s) => quoted(nfc_of(s@)),
        JsonValue::Array(items) => seq!['['] + items_text(items@) + seq![']'],
        JsonValue::Object(entries) => seq!['{'] + members_text(entries@) + seq!['}'],
    }
}

/// The array elements' texts, separated by commas.
pub open spec fn items_text(items: Seq<JsonValue>) -> Seq<char>
    decreases items, 1int,
{
    if items.len() == 0 {
        Seq::empty()
    } else if items.len() == 1 {
        canonical_text(items[0])
    } else {
        items_text(items.drop_last()) + seq![','] + canonical_text(items.last())
    }
}

pub open spec fn member_text(entry: (String, JsonValue)) -> Seq<char>
    decreases entry, 0int,
{
    quoted(entry.0@) + seq![':'] + canonical_text(entry.1)
}

/// The object members' texts, separated by commas.
pub open spec fn members_text(entries: Seq<(String, JsonValue)>) -> Seq<char>
    decreases entries, 1int,
{
    if entries.len() == 0 {
        Seq::empty()
    } else if entries.len() == 1 {
        quoted(entries[0].0@) + seq![':'] + canonical_text(entries[0].1)
    } else {
        members_text(entries.drop_last()) + seq![','] + quoted(entries.last().0@) + seq![':']
            + canonical_text(entries.last().1)
    }
}

/// `serde_json::to_string` on a string slice, which writes the string as a
/// JSON string literal escaped character by character as `escape_char`
/// says; writing a `str` into memory does not fail.
#[verifier::external_body]
fn string_literal(s: &str) -> (r: String)
    ensures
        r@ == quoted(s@),
{
    match serde_json::to_string(s) {
        Ok(text) => text,
        Err(_) => String::new(),
    }
}

/// Appends the string literal for `s` to `out`.
pub fn write_quoted(out: &mut String, s: &str)
    ensures
        final(out)@ == old(out)@ + quoted(s@),
{
    let text = string_literal(s);
    out.append(text.as_str());
}

fn write_number(out: &mut String, n: &JsonNumber)
    ensures
        final(out)@ == old(out)@ + number_text(*n),
{
    match n {
        JsonNumber::PosInt(v) => {
            let t = decimal_u64(*v);
            out.append(t.as_str());
        },
        JsonNumber::NegInt(v) => {
            if *v < 0 {
                push_char(out, '-');
                let magnitude: u64 = if *v == i64::MIN {
                    9223372036854775808u64
                } else {
                    (-*v) as u64
                };
                let t = decimal_u64(magnitude);
                out.append(t.as_str());
                proof {
                    assert(out@ =~= old(out)@ + number_text(*n));
                }
            } else {
                let t = decimal_u64(*v as u64);
                out.append(t.as_str());
            }
        },
        JsonNumber::Float(t) => {
            out.append(t.as_str());
        },
    }
}

/// Appends the canonical text of `v`; fails, leaving `out` in an unspecified
/// state, when an object's keys are out of order or repeated.
fn write_canonical(out: &mut String, v: &JsonValue) -> (r: Result<(), RepoError>)
    ensures
        r is Ok <==> json_wf(*v),
        r is Ok ==> final(out)@ == old(out)@ + canonical_text(*v),
        r matches Err(e) ==> e == RepoError::InvalidRequest,
    decreases *v,
{
    match v {
        JsonValue::Null => {
            out.append("null");
            proof { reveal_strlit("null"); }
            Ok(())
        },
        JsonValue::Bool(b) => {
            if *b {
                out.append("true");
                proof { reveal_strlit("true"); }
            } else {
                out.append("false");
                proof { reveal_strlit("false"); }
            }
            Ok(())
        },
        JsonValue::Number(n) => {
            write_number(out, n);
            Ok(())
        },
        JsonValue::String(s) => {
            let normal = nfc(s.as_str());
            write_quoted(out, normal.as_str());
            Ok(())
        },
        JsonValue::Array(items) => {
            push_char(out, '[');
            let ghost start = out@;
            let mut i: usize = 0;
            while i < items.len()
                invariant
                    i <= items@.len(),
                    *v == JsonValue::Array(*items),
                    items_wf(items@.take(i as int)),
                    out@ == start + items_text(items@.take(i as int)),
                decreases items.len() - i,
            {
                proof {
                    assert(items@.take(i + 1).drop_last() =~= items@.take(i as int));
                    assert(items@.take(i + 1).last() == items@[i as int]);
                    assert(decreases_to!(*v => v->Array_0));
                    assert(decreases_to!(*items => items@));
                    assert(decreases_to!(items@ => items@[i as int]));
                }
                if i > 0 {
                    push_char(out, ',');
                }
                let step = write_canonical(out, &items[i]);
                if step.is_err() {
                    proof {
                        lemma_items_wf_prefix(items@, i as int + 1);
                    }
                    return Err(RepoError::InvalidRequest);
                }
                i = i + 1;
                proof {
                    if i == 1 {
                        assert(items@.take(1) =~= seq![items@[0]]);
                    }
                    assert(out@ =~= start + items_text(items@.take(i as int)));
                }
            }
            proof {
                assert(items@.take(items@.len() as int) =~= items@);
            }
            push_char(out, ']');
            proof {
                assert(out@ =~= old(out)@ + canonical_text(*v));
            }
            Ok(())
        },
        JsonValue::Object(entries) => {
            push_char(out, '{');
            let ghost start = out@;
            let mut i: usize = 0;
            while i < entries.len()
                invariant
                    i <= entries@.len(),
                    *v == JsonValue::Object(*entries),
                    keys_increasing(entries@.take(i as int)),
                    members_wf(entries@.take(i as int)),
                    out@ == start + members_text(entries@.take(i as int)),
                decreases entries.len() - i,
            {
                let ghost pre = entries@.take(i as int);
                let ghost next = entries@.take(i + 1);
                proof {
                    assert(next.drop_last() =~= pre);
                    assert(next.last() == entries@[i as int]);
                    assert(decreases_to!(*v => v->Object_0));
                    assert(decreases_to!(*entries => entries@));
                    assert(decreases_to!(entries@ => entries@[i as int]));
                    assert(decreases_to!(entries@[i as int] => entries@[i as int].1));
                }
                if i > 0 {
                    let in_order = str_le(entries[i - 1].0.as_str(), entries[i].0.as_str())
                        && !str_eq(entries[i - 1].0.as_str(), entries[i].0.as_str());
                    if !in_order {
                        proof {
                            assert(next[next.len() - 2] == entries@[i - 1]);
                            lemma_keys_prefix(entries@, i as int + 1);
                        }
                        return Err(RepoError::InvalidRequest);
                    }
                    push_char(out, ',');
                    proof {
                        assert(next[next.len() - 2] == entries@[i - 1]);
                    }
                }
                write_quoted(out, entries[i].0.as_str());
                push_char(out, ':');
                let step = write_canonical(out, &entries[i].1);
                if step.is_err() {
                    proof {
                        lemma_members_wf_prefix(entries@, i as int + 1);
                    }
                    return Err(RepoError::InvalidRequest);
                }
                i = i + 1;
                proof {
                    if i == 1 {
                        assert(next =~= seq![entries@[0]]);
                    }
                    assert(out@ =~= start + members_text(next));
                }
            }
            proof {
                assert(entries@.take(entries@.len() as int) =~= entries@);
            }
            push_char(out, '}');
            proof {
                assert(out@ =~= old(out)@ + canonical_text(*v));
            }
            Ok(())
        },
    }
}

proof fn lemma_items_wf_prefix(items: Seq<JsonValue>, n: int)
    requires
        0 <= n <= items.len(),
        !items_wf(items.take(n)),
    ensures
        !items_wf(items),
    decreases items.len() - n,
{
    if n < items.len() {
        assert(items.take(n + 1).drop_last() =~= items.take(n));
        lemma_items_wf_prefix(items, n + 1);
    } else {
        assert(items.take(n) =~= items);
    }
}

proof fn lemma_members_wf_prefix(entries: Seq<(String, JsonValue)>, n: int)
    requires
        0 <= n <= entries.len(),
        !members_wf(entries.take(n)),
    ensures
        !members_wf(entries),
    decreases entries.len() - n,
{
    if n < entries.len() {
        assert(entries.take(n + 1).drop_last() =~= entries.take(n));
        lemma_members_wf_prefix(entries, n + 1);
    } else {
        assert(entries.take(n) =~= entries);
    }
}

proof fn lemma_keys_prefix(entries: Seq<(String, JsonValue)>, n: int)
    requires
        0 <= n <= entries.len(),
        !keys_increasing(entries.take(n)),
    ensures
        !keys_increasing(entries),
    decreases entries.len() - n,
{
    if n < entries.len() {
        assert(entries.take(n + 1).drop_last() =~= entries.take(n));
        lemma_keys_prefix(entries, n + 1);
    } else {
        assert(entries.take(n) =~= entries);
    }
}

/// The canonical JSON text of `v`: compact, members in key order, text
/// values in NFC. Fails on a value whose object keys are out of order or
/// repeated, which `serde_json` cannot hold.
pub fn canonical_json(v: &JsonValue) -> (r: Result<String, RepoError>)
    ensures
        r is Ok <==> json_wf(*v),
        r matches Ok(s) ==> s@ == canonical_text(*v),
        r matches Err(e) ==> e == RepoError::InvalidRequest,
{
    let mut out = String::new();
    match write_canonical(&mut out, v) {
        Ok(()) => {
            proof {
                assert(out@ =~= canonical_text(*v));
            }
            Ok(out)
        },
        Err(e) => Err(e),
    }
}

} // verus!
