//! Rendering a [`JsonValue`] as compact JSON text.
//!
//! A reshaped record is handed to the decoder as text; this module proves
//! that the text is exactly the rendering of the record, character by
//! character, with JSON string escaping.

use vstd::prelude::*;

use crate::json::JsonVal;
use crate::json::JsonValue;
use crate::json::entry_views_of;
use crate::json::lemma_entry_views_of;
use crate::json::lemma_views_of;
use crate::json::views_of;

verus! {

/// The lower-case hexadecimal digit for `n`.
pub open spec fn hex_digit(n: int) -> char {
    if n == 0 {
        '0'
    } else if n == 1 {
        '1'
    } else if n == 2 {
        '2'
    } else if n == 3 {
        '3'
    } else if n == 4 {
        '4'
    } else if n == 5 {
        '5'
    } else if n == 6 {
        '6'
    } else if n == 7 {
        '7'
    } else if n == 8 {
        '8'
    } else if n == 9 {
        '9'
    } else if n == 10 {
        'a'
    } else if n == 11 {
        'b'
    } else if n == 12 {
        'c'
    } else if n == 13 {
        'd'
    } else if n == 14 {
        'e'
    } else {
        'f'
    }
}

/// One character of JSON string content: quote, backslash and the control
/// characters are escaped, everything else stands for itself.
pub open spec fn spec_escape_char(c: char) -> Seq<char> {
    if c == '"' {
        seq!['\\', '"']
    } else if c == '\\' {
        seq!['\\', '\\']
    } else if c == '\u{8}' {
        seq!['\\', 'b']
    } else if c == '\u{c}' {
        seq!['\\', 'f']
    } else if c == '\n' {
        seq!['\\', 'n']
    } else if c == '\r' {
        seq!['\\', 'r']
    } else if c == '\t' {
        seq!['\\', 't']
    } else if (c as u32) < 32 {
        seq!['\\', 'u', '0', '0', hex_digit((c as u32) as int / 16), hex_digit((c as u32) as int % 16)]
    } else {
        seq![c]
    }
}

/// JSON string content: every character escaped, in order.
pub open spec fn spec_escape(s: Seq<char>) -> Seq<char>
    decreases s.len(),
{
    if s.len() == 0 {
        Seq::empty()
    } else {
        spec_escape_char(s[0]) + spec_escape(s.drop_first())
    }
}

/// The compact JSON rendering of a value.
pub open spec fn spec_json(v: JsonVal) -> Seq<char>
    decreases v,
{
    match v {
        JsonVal::Null => seq!['n', 'u', 'l', 'l'],
        JsonVal::Bool(b) => if b {
            seq!['t', 'r', 'u', 'e']
        } else {
            seq!['f', 'a', 'l', 's', 'e']
        },
        JsonVal::Num(t) => t,
        JsonVal::Str(s) => seq!['"'] + spec_escape(s) + seq!['"'],
        JsonVal::Arr(items) => seq!['['] + spec_json_list(items) + seq![']'],
        JsonVal::Obj(entries) => seq!['{'] + spec_json_entries(entries) + seq!['}'],
    }
}

/// Array elements, comma-separated.
pub open spec fn spec_json_list(items: Seq<JsonVal>) -> Seq<char>
    decreases items,
{
    if items.len() == 0 {
        Seq::empty()
    } else if items.len() == 1 {
        spec_json(items[0])
    } else {
        spec_json(items[0]) + seq![','] + spec_json_list(items.drop_first())
    }
}

/// Object entries: quoted, escaped key, colon, value, comma-separated.
pub open spec fn spec_json_entry(e: (Seq<char>, JsonVal)) -> Seq<char>
    decreases e,
{
    seq!['"'] + spec_escape(e.0) + seq!['"', ':'] + spec_json(e.1)
}

pub open spec fn spec_json_entries(entries: Seq<(Seq<char>, JsonVal)>) -> Seq<char>
    decreases entries,
{
    if entries.len() == 0 {
        Seq::empty()
    } else if entries.len() == 1 {
        spec_json_entry(entries[0])
    } else {
        spec_json_entry(entries[0]) + seq![','] + spec_json_entries(entries.drop_first())
    }
}

proof fn lemma_escape_push(s: Seq<char>, c: char)
    ensures
        spec_escape(s.push(c)) == spec_escape(s) + spec_escape_char(c),
    decreases s.len(),
{
    if s.len() == 0 {
        reveal_with_fuel(spec_escape, 2);
        assert(s.push(c)[0] == c);
        assert(s.push(c).drop_first() =~= Seq::empty());
        assert(spec_escape(s.push(c)) =~= spec_escape_char(c));
        assert(spec_escape(s) + spec_escape_char(c) =~= spec_escape_char(c));
    } else {
        assert(s.push(c).drop_first() =~= s.drop_first().push(c));
        lemma_escape_push(s.drop_first(), c);
        assert(spec_escape(s.push(c)) =~= spec_escape(s) + spec_escape_char(c));
    }
}

proof fn lemma_list_push(items: Seq<JsonVal>, x: JsonVal)
    ensures
        items.len() == 0 ==> spec_json_list(items.push(x)) == spec_json(x),
        items.len() > 0 ==> spec_json_list(items.push(x)) == spec_json_list(items) + seq![',']
            + spec_json(x),
    decreases items.len(),
{
    if items.len() == 0 {
        assert(items.push(x)[0] == x);
    } else {
        assert(items.push(x).drop_first() =~= items.drop_first().push(x));
        lemma_list_push(items.drop_first(), x);
        assert(spec_json_list(items.push(x)) =~= spec_json_list(items) + seq![','] + spec_json(
            x,
        ));
    }
}

proof fn lemma_entries_push(entries: Seq<(Seq<char>, JsonVal)>, x: (Seq<char>, JsonVal))
    ensures
        entries.len() == 0 ==> spec_json_entries(entries.push(x)) == spec_json_entry(x),
        entries.len() > 0 ==> spec_json_entries(entries.push(x)) == spec_json_entries(entries)
            + seq![','] + spec_json_entry(x),
    decreases entries.len(),
{
    if entries.len() == 0 {
        assert(entries.push(x)[0] == x);
    } else {
        assert(entries.push(x).drop_first() =~= entries.drop_first().push(x));
        lemma_entries_push(entries.drop_first(), x);
        assert(spec_json_entries(entries.push(x)) =~= spec_json_entries(entries) + seq![',']
            + spec_json_entry(x));
    }
}

fn hex_digit_char(n: u32) -> (c: char)
    requires
        n < 16,
    ensures
        c == hex_digit(n as int),
{
    if n == 0 {
        '0'
    } else if n == 1 {
        '1'
    } else if n == 2 {
        '2'
    } else if n == 3 {
        '3'
    } else if n == 4 {
        '4'
    } else if n == 5 {
        '5'
    } else if n == 6 {
        '6'
    } else if n == 7 {
        '7'
    } else if n == 8 {
        '8'
    } else if n == 9 {
        '9'
    } else if n == 10 {
        'a'
    } else if n == 11 {
        'b'
    } else if n == 12 {
        'c'
    } else if n == 13 {
        'd'
    } else if n == 14 {
        'e'
    } else {
        'f'
    }
}

fn push_escaped_char(out: &mut Vec<char>, c: char)
    ensures
        final(out)@ == old(out)@ + spec_escape_char(c),
{
    if c == '"' {
        out.push('\\');
        out.push('"');
    } else if c == '\\' {
        out.push('\\');
        out.push('\\');
    } else if c == '\u{8}' {
        out.push('\\');
        out.push('b');
    } else if c == '\u{c}' {
        out.push('\\');
        out.push('f');
    } else if c == '\n' {
        out.push('\\');
        out.push('n');
    } else if c == '\r' {
        out.push('\\');
        out.push('r');
    } else if c == '\t' {
        out.push('\\');
        out.push('t');
    } else if (c as u32) < 32 {
        let n = c as u32;
        out.push('\\');
        out.push('u');
        out.push('0');
        out.push('0');
        let hi = hex_digit_char(n / 16);
        out.push(hi);
        let lo = hex_digit_char(n % 16);
        out.push(lo);
    } else {
        out.push(c);
    }
    proof {
        assert(out@ =~= old(out)@ + spec_escape_char(c));
    }
}

fn push_escaped(out: &mut Vec<char>, s: &String)
    ensures
        final(out)@ == old(out)@ + spec_escape(s@),
{
    let text = s.as_str();
    let n = text.unicode_len();
    let mut i: usize = 0;
    proof {
        assert(s@.take(0) =~= Seq::empty());
        assert(out@ =~= out@ + spec_escape(s@.take(0)));
    }
    while i < n
        invariant
            n == s@.len(),
            i <= n,
            text@ == s@,
            out@ == old(out)@ + spec_escape(s@.take(i as int)),
        decreases n - i,
    {
        let c = text.get_char(i);
        push_escaped_char(out, c);
        proof {
            assert(s@.take(i + 1) =~= s@.take(i as int).push(s@[i as int]));
            lemma_escape_push(s@.take(i as int), s@[i as int]);
        }
        i += 1;
    }
    proof {
        assert(s@.take(n as int) =~= s@);
    }
}

/// Appends the characters of `s` unchanged; numbers are rendered this way,
/// as their literal text.
fn push_raw(out: &mut Vec<char>, s: &String)
    ensures
        final(out)@ == old(out)@ + s@,
{
    let text = s.as_str();
    let n = text.unicode_len();
    let mut i: usize = 0;
    while i < n
        invariant
            n == s@.len(),
            i <= n,
            text@ == s@,
            out@ == old(out)@ + s@.take(i as int),
        decreases n - i,
    {
        let c = text.get_char(i);
        out.push(c);
        proof {
            assert(s@.take(i + 1) =~= s@.take(i as int).push(s@[i as int]));
            assert(out@ =~= old(out)@ + s@.take(i + 1));
        }
        i += 1;
    }
    proof {
        assert(s@.take(n as int) =~= s@);
        assert(out@ =~= old(out)@ + s@);
    }
}

fn write_value(out: &mut Vec<char>, v: &JsonValue)
    ensures
        final(out)@ == old(out)@ + spec_json(v@),
    decreases *v,
{
    match v {
        JsonValue::Null => {
            out.push('n');
            out.push('u');
            out.push('l');
            out.push('l');
            proof {
                assert(out@ =~= old(out)@ + spec_json(v@));
            }
        },
        JsonValue::Bool(b) => {
            if *b {
                out.push('t');
                out.push('r');
                out.push('u');
                out.push('e');
            } else {
                out.push('f');
                out.push('a');
                out.push('l');
                out.push('s');
                out.push('e');
            }
            proof {
                assert(out@ =~= old(out)@ + spec_json(v@));
            }
        },
        JsonValue::Num(t) => {
            push_raw(out, t);
        },
        JsonValue::Str(s) => {
            out.push('"');
            push_escaped(out, s);
            out.push('"');
            proof {
                assert(out@ =~= old(out)@ + spec_json(v@));
            }
        },
        JsonValue::Arr(items) => {
            proof {
                lemma_views_of(items@);
            }
            out.push('[');
            let n = items.len();
            let mut i: usize = 0;
            while i < n
                invariant
                    n == items@.len(),
                    i <= n,
                    *v == JsonValue::Arr(*items),
                    views_of(items@).len() == items@.len(),
                    forall|j: int|
                        0 <= j < items@.len() ==> views_of(items@)[j] == (
                        #[trigger] items@[j])@,
                    out@ == old(out)@ + seq!['['] + spec_json_list(
                        views_of(items@).take(i as int),
                    ),
                decreases n - i,
            {
                if i > 0 {
                    out.push(',');
                }
                proof {
                    assert((*v)->Arr_0 == *items);
                    assert(decreases_to!(*v => (*v)->Arr_0));
                    assert(decreases_to!(*items => items@));
                    assert(decreases_to!(items@ => items@[i as int]));
                }
                write_value(out, &items[i]);
                proof {
                    let vs = views_of(items@);
                    assert(vs.take(i + 1) =~= vs.take(i as int).push(vs[i as int]));
                    lemma_list_push(vs.take(i as int), vs[i as int]);
                    assert(out@ =~= old(out)@ + seq!['['] + spec_json_list(vs.take(i + 1)));
                }
                i += 1;
            }
            out.push(']');
            proof {
                assert(views_of(items@).take(n as int) =~= views_of(items@));
                assert(out@ =~= old(out)@ + spec_json(v@));
            }
        },
        JsonValue::Obj(entries) => {
            proof {
                lemma_entry_views_of(entries@);
            }
            out.push('{');
            let n = entries.len();
            let mut i: usize = 0;
            while i < n
                invariant
                    n == entries@.len(),
                    i <= n,
                    *v == JsonValue::Obj(*entries),
                    entry_views_of(entries@).len() == entries@.len(),
                    forall|j: int|
                        0 <= j < entries@.len() ==> entry_views_of(entries@)[j] == ((
                        #[trigger] entries@[j]).0@, crate::json::view_of(entries@[j].1)),
                    out@ == old(out)@ + seq!['{'] + spec_json_entries(
                        entry_views_of(entries@).take(i as int),
                    ),
                decreases n - i,
            {
                if i > 0 {
                    out.push(',');
                }
                out.push('"');
                push_escaped(out, &entries[i].0);
                out.push('"');
                out.push(':');
                proof {
                    assert((*v)->Obj_0 == *entries);
                    assert(decreases_to!(*v => (*v)->Obj_0));
                    assert(decreases_to!(*entries => entries@));
                    assert(decreases_to!(entries@ => entries@[i as int]));
                    assert(decreases_to!(entries@[i as int] => entries@[i as int].1));
                }
                write_value(out, &entries[i].1);
                proof {
                    let es = entry_views_of(entries@);
                    assert(es.take(i + 1) =~= es.take(i as int).push(es[i as int]));
                    lemma_entries_push(es.take(i as int), es[i as int]);
                    assert(out@ =~= old(out)@ + seq!['{'] + spec_json_entries(es.take(i + 1)));
                }
                i += 1;
            }
            out.push('}');
            proof {
                assert(entry_views_of(entries@).take(n as int) =~= entry_views_of(entries@));
                assert(out@ =~= old(out)@ + spec_json(v@));
            }
        },
    }
}

/// Relies on `String::from_iter`: collecting characters yields the string
/// holding exactly those characters, in order.
#[verifier::external_body]
fn chars_to_string(chars: Vec<char>) -> (s: String)
    ensures
        s@ == chars@,
{
    chars.into_iter().collect()
}

/// The compact JSON text of `v`.
pub fn to_json_text(v: &JsonValue) -> (s: String)
    ensures
        s@ == spec_json(v@),
{
    let mut out: Vec<char> = Vec::new();
    write_value(&mut out, v);
    proof {
        assert(out@ =~= spec_json(v@));
    }
    chars_to_string(out)
}

} // verus!
