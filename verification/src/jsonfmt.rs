//! JSON rendering of the service's wire format.
//!
//! The spec functions below define, character by character, the JSON texts
//! the service sends: decimal integer literals, quoted strings with the
//! standard JSON escapes, task objects, task arrays, and the response
//! envelopes. The executable builders are proved to produce exactly those
//! texts.

use vstd::prelude::*;
use crate::task::Task;

verus! {

/// The character for a decimal digit value.
pub open spec fn digit_char(d: int) -> char {
    if d == 0 { '0' } else if d == 1 { '1' } else if d == 2 { '2' } else if d == 3 { '3' }
    else if d == 4 { '4' } else if d == 5 { '5' } else if d == 6 { '6' } else if d == 7 { '7' }
    else if d == 8 { '8' } else { '9' }
}

/// The character for a hexadecimal digit value (lower case).
pub open spec fn hex_digit_char(d: int) -> char {
    if d < 10 { digit_char(d) }
    else if d == 10 { 'a' } else if d == 11 { 'b' } else if d == 12 { 'c' }
    else if d == 13 { 'd' } else if d == 14 { 'e' } else { 'f' }
}

/// The decimal digits of a non-negative integer, most significant first.
pub open spec fn dec_digits(n: nat) -> Seq<char>
    decreases n,
{
    if n < 10 {
        seq![digit_char(n as int)]
    } else {
        dec_digits(n / 10).push(digit_char((n % 10) as int))
    }
}

/// The decimal literal of an integer, with a leading minus when negative.
pub open spec fn dec_int(v: int) -> Seq<char> {
    if v < 0 {
        seq!['-'] + dec_digits((-v) as nat)
    } else {
        dec_digits(v as nat)
    }
}

/// How one character appears inside a JSON string: the quote and the
/// backslash get a backslash, the common control characters their short
/// escapes, any other control character a `\u00..` escape, and everything
/// else stands as itself.
pub open spec fn escape_char(c: char) -> Seq<char> {
    if c == '"' { seq!['\\', '"'] }
    else if c == '\\' { seq!['\\', '\\'] }
    else if c == '\u{8}' { seq!['\\', 'b'] }
    else if c == '\u{c}' { seq!['\\', 'f'] }
    else if c == '\n' { seq!['\\', 'n'] }
    else if c == '\r' { seq!['\\', 'r'] }
    else if c == '\t' { seq!['\\', 't'] }
    else if (c as u32) < 0x20 {
        seq!['\\', 'u', '0', '0',
            hex_digit_char((c as u32) as int / 16),
            hex_digit_char((c as u32) as int % 16)]
    } else {
        seq![c]
    }
}

/// A text with every character escaped for JSON.
pub open spec fn escaped(s: Seq<char>) -> Seq<char>
    decreases s.len(),
{
    if s.len() == 0 {
        Seq::<char>::empty()
    } else {
        escaped(s.drop_last()) + escape_char(s.last())
    }
}

/// A JSON string literal: the escaped text between double quotes.
pub open spec fn quoted(s: Seq<char>) -> Seq<char> {
    seq!['"'] + escaped(s) + seq!['"']
}

/// A task's `priority` as JSON: its decimal literal, or `null` when absent.
pub open spec fn json_priority(p: Option<i32>) -> Seq<char> {
    match p {
        Some(v) => dec_int(v as int),
        None => "null"@,
    }
}

/// A task as a JSON object with its three fields.
pub open spec fn json_task(t: Task) -> Seq<char> {
    "{\"task_id\":"@ + dec_int(t.task_id as int)
        + ",\"name\":"@ + quoted(t.name@)
        + ",\"priority\":"@ + json_priority(t.priority)
        + "}"@
}

/// A sequence of tasks as the comma-separated contents of a JSON array.
pub open spec fn json_tasks(ts: Seq<Task>) -> Seq<char>
    decreases ts.len(),
{
    if ts.len() == 0 {
        Seq::<char>::empty()
    } else if ts.len() == 1 {
        json_task(ts[0])
    } else {
        json_tasks(ts.drop_last()) + seq![','] + json_task(ts.last())
    }
}

/// The success envelope of the listing: all rows inside a `data` array.
pub open spec fn list_body(ts: Seq<Task>) -> Seq<char> {
    "{\"success\":true,\"data\":["@ + json_tasks(ts) + "]}"@
}

/// The success envelope of a creation: the new id inside a `data` object.
pub open spec fn create_body(id: int) -> Seq<char> {
    "{\"success\":true,\"data\":{\"task_id\":"@ + dec_int(id) + "}}"@
}

/// The bare success envelope of an update or a delete.
pub open spec fn ok_body() -> Seq<char> {
    "{\"success\":true}"@
}

/// The failure envelope: the storage error text as a JSON string.
pub open spec fn error_body(msg: Seq<char>) -> Seq<char> {
    "{\"success\":false,\"message\":"@ + quoted(msg) + "}"@
}

/// Relies on `String::push`: appends the given character to the string.
#[verifier::external_body]
fn push_char(s: &mut String, c: char)
    ensures
        final(s)@ == old(s)@.push(c),
{
    s.push(c);
}

/// The digit character of a value below ten.
fn digit_to_char(d: u32) -> (c: char)
    requires
        d < 10,
    ensures
        c == digit_char(d as int),
{
    if d == 0 { '0' } else if d == 1 { '1' } else if d == 2 { '2' } else if d == 3 { '3' }
    else if d == 4 { '4' } else if d == 5 { '5' } else if d == 6 { '6' } else if d == 7 { '7' }
    else if d == 8 { '8' } else { '9' }
}

/// The hexadecimal digit character of a value below sixteen (lower case).
fn hex_digit_to_char(d: u32) -> (c: char)
    requires
        d < 16,
    ensures
        c == hex_digit_char(d as int),
{
    if d < 10 { digit_to_char(d) }
    else if d == 10 { 'a' } else if d == 11 { 'b' } else if d == 12 { 'c' }
    else if d == 13 { 'd' } else if d == 14 { 'e' } else { 'f' }
}

/// Appends the decimal digits of `n`, most significant first.
fn append_dec_digits(out: &mut String, n: u32)
    ensures
        final(out)@ == old(out)@ + dec_digits(n as nat),
{
    let mut digits: Vec<char> = Vec::new();
    let mut m: u32 = n;
    proof {
        assert(digits@.reverse() =~= Seq::<char>::empty());
        assert(dec_digits(n as nat) =~= dec_digits(m as nat) + digits@.reverse());
    }
    while m >= 10
        invariant
            dec_digits(n as nat) == dec_digits(m as nat) + digits@.reverse(),
        decreases m,
    {
        let d = m % 10;
        let ghost digits0 = digits@;
        digits.push(digit_to_char(d));
        m = m / 10;
        proof {
            assert(digits0.push(digit_char(d as int)).reverse()
                =~= seq![digit_char(d as int)] + digits0.reverse());
            assert(dec_digits((m * 10 + d) as nat)
                == dec_digits(m as nat).push(digit_char(d as int)));
            assert(dec_digits(m as nat).push(digit_char(d as int))
                =~= dec_digits(m as nat) + seq![digit_char(d as int)]);
            assert(dec_digits(n as nat) =~= dec_digits(m as nat) + digits@.reverse());
        }
    }
    let ghost digits1 = digits@;
    digits.push(digit_to_char(m));
    proof {
        assert(digits1.push(digit_char(m as int)).reverse()
            =~= seq![digit_char(m as int)] + digits1.reverse());
        assert(dec_digits(m as nat) =~= seq![digit_char(m as int)]);
        assert(dec_digits(n as nat) =~= digits@.reverse());
    }
    let len = digits.len();
    let mut i: usize = len;
    while i > 0
        invariant
            len == digits.len(),
            i <= len,
            dec_digits(n as nat) == digits@.reverse(),
            out@ == old(out)@ + digits@.reverse().take((len - i) as int),
        decreases i,
    {
        i = i - 1;
        push_char(out, digits[i]);
        proof {
            assert(digits@.reverse()[(len - i - 1) as int] == digits@[i as int]);
            assert(digits@.reverse().take((len - i) as int)
                =~= digits@.reverse().take((len - i - 1) as int).push(digits@[i as int]));
        }
    }
    proof {
        assert(digits@.reverse().take(len as int) =~= digits@.reverse());
    }
}

/// Appends the decimal literal of `v`, with a minus sign when negative.
fn append_dec_i32(out: &mut String, v: i32)
    ensures
        final(out)@ == old(out)@ + dec_int(v as int),
{
    if v < 0 {
        let ghost before = out@;
        push_char(out, '-');
        let m: u32 = (-(v as i64)) as u32;
        proof {
            assert(m as nat == (-(v as int)) as nat);
            assert(before.push('-') =~= before + seq!['-']);
        }
        append_dec_digits(out, m);
        proof {
            assert(before + seq!['-'] + dec_digits(m as nat) =~= before + dec_int(v as int));
        }
    } else {
        append_dec_digits(out, v as u32);
    }
}

/// The decimal literal of an integer.
pub fn render_i32(v: i32) -> (r: String)
    ensures
        r@ == dec_int(v as int),
{
    let mut out = String::new();
    append_dec_i32(&mut out, v);
    proof {
        assert(Seq::<char>::empty() + dec_int(v as int) =~= dec_int(v as int));
    }
    out
}

/// Appends one character in its escaped JSON form.
fn append_escaped_char(out: &mut String, c: char)
    ensures
        final(out)@ == old(out)@ + escape_char(c),
{
    let ghost before = out@;
    if c == '"' {
        push_char(out, '\\');
        push_char(out, '"');
        proof {
            assert(before.push('\\').push('"') =~= before + escape_char(c));
        }
    } else if c == '\\' {
        push_char(out, '\\');
        push_char(out, '\\');
        proof {
            assert(before.push('\\').push('\\') =~= before + escape_char(c));
        }
    } else if c == '\u{8}' {
        push_char(out, '\\');
        push_char(out, 'b');
        proof {
            assert(before.push('\\').push('b') =~= before + escape_char(c));
        }
    } else if c == '\u{c}' {
        push_char(out, '\\');
        push_char(out, 'f');
        proof {
            assert(before.push('\\').push('f') =~= before + escape_char(c));
        }
    } else if c == '\n' {
        push_char(out, '\\');
        push_char(out, 'n');
        proof {
            assert(before.push('\\').push('n') =~= before + escape_char(c));
        }
    } else if c == '\r' {
        push_char(out, '\\');
        push_char(out, 'r');
        proof {
            assert(before.push('\\').push('r') =~= before + escape_char(c));
        }
    } else if c == '\t' {
        push_char(out, '\\');
        push_char(out, 't');
        proof {
            assert(before.push('\\').push('t') =~= before + escape_char(c));
        }
    } else if (c as u32) < 0x20 {
        let code = c as u32;
        push_char(out, '\\');
        push_char(out, 'u');
        push_char(out, '0');
        push_char(out, '0');
        push_char(out, hex_digit_to_char(code / 16));
        push_char(out, hex_digit_to_char(code % 16));
        proof {
            assert(before.push('\\').push('u').push('0').push('0')
                .push(hex_digit_char(code as int / 16))
                .push(hex_digit_char(code as int % 16))
                =~= before + escape_char(c));
        }
    } else {
        push_char(out, c);
        proof {
            assert(before.push(c) =~= before + escape_char(c));
        }
    }
}

/// Appends a text with every character escaped for JSON.
fn append_escaped(out: &mut String, s: &str)
    ensures
        final(out)@ == old(out)@ + escaped(s@),
{
    let n = s.unicode_len();
    let mut i: usize = 0;
    proof {
        assert(s@.subrange(0, 0) =~= Seq::<char>::empty());
        assert(out@ + escaped(s@.subrange(0, 0)) =~= out@);
    }
    while i < n
        invariant
            n as nat == s@.len(),
            i <= n,
            out@ == old(out)@ + escaped(s@.subrange(0, i as int)),
        decreases n - i,
    {
        let c = s.get_char(i);
        proof {
            assert(s@.subrange(0, i + 1).drop_last() =~= s@.subrange(0, i as int));
            assert(s@.subrange(0, i + 1).last() == c);
        }
        append_escaped_char(out, c);
        i = i + 1;
        proof {
            assert(old(out)@ + escaped(s@.subrange(0, i - 1)) + escape_char(c)
                =~= old(out)@ + escaped(s@.subrange(0, i as int)));
        }
    }
    proof {
        assert(s@.subrange(0, n as int) =~= s@);
    }
}

/// Appends the text as a JSON string literal: quoted and escaped.
fn append_quoted(out: &mut String, s: &str)
    ensures
        final(out)@ == old(out)@ + quoted(s@),
{
    let ghost before = out@;
    push_char(out, '"');
    proof {
        assert(before.push('"') =~= before + seq!['"']);
    }
    append_escaped(out, s);
    push_char(out, '"');
    proof {
        assert(before + seq!['"'] + escaped(s@) + seq!['"'] =~= before + quoted(s@));
        assert((before + seq!['"'] + escaped(s@)).push('"')
            =~= before + seq!['"'] + escaped(s@) + seq!['"']);
    }
}

/// A JSON string literal holding the given text.
pub fn render_json_string(s: &str) -> (r: String)
    ensures
        r@ == quoted(s@),
{
    let mut out = String::new();
    append_quoted(&mut out, s);
    proof {
        assert(Seq::<char>::empty() + quoted(s@) =~= quoted(s@));
    }
    out
}

/// Appends a task as a JSON object.
fn append_task(out: &mut String, t: &Task)
    ensures
        final(out)@ == old(out)@ + json_task(*t),
{
    let ghost before = out@;
    out.append("{\"task_id\":");
    append_dec_i32(out, t.task_id);
    out.append(",\"name\":");
    append_quoted(out, t.name.as_str());
    out.append(",\"priority\":");
    match t.priority {
        Some(v) => {
            append_dec_i32(out, v);
        },
        None => {
            out.append("null");
        },
    }
    out.append("}");
    proof {
        assert(out@ =~= before + json_task(*t));
    }
}

/// A task as a JSON object.
pub fn render_task(t: &Task) -> (r: String)
    ensures
        r@ == json_task(*t),
{
    let mut out = String::new();
    append_task(&mut out, t);
    proof {
        assert(Seq::<char>::empty() + json_task(*t) =~= json_task(*t));
    }
    out
}

/// Appends the rows as the comma-separated contents of a JSON array.
fn append_tasks(out: &mut String, ts: &Vec<Task>)
    ensures
        final(out)@ == old(out)@ + json_tasks(ts@),
{
    let n = ts.len();
    let mut i: usize = 0;
    proof {
        assert(json_tasks(ts@.subrange(0, 0)) =~= Seq::<char>::empty());
        assert(out@ + json_tasks(ts@.subrange(0, 0)) =~= out@);
    }
    while i < n
        invariant
            n == ts.len(),
            i <= n,
            out@ == old(out)@ + json_tasks(ts@.subrange(0, i as int)),
        decreases n - i,
    {
        let ghost mid = out@;
        if i > 0 {
            push_char(out, ',');
            proof {
                assert(mid.push(',') =~= mid + seq![',']);
            }
        }
        append_task(out, &ts[i]);
        proof {
            assert(ts@.subrange(0, i + 1).drop_last() =~= ts@.subrange(0, i as int));
            assert(ts@.subrange(0, i + 1).last() == ts@[i as int]);
            if i == 0 {
                assert(json_tasks(ts@.subrange(0, 1)) == json_task(ts@[0]));
                assert(out@ =~= old(out)@ + json_tasks(ts@.subrange(0, 1)));
            } else {
                assert(json_tasks(ts@.subrange(0, i + 1))
                    == json_tasks(ts@.subrange(0, i as int)) + seq![','] + json_task(ts@[i as int]));
                assert(out@ =~= old(out)@ + json_tasks(ts@.subrange(0, i + 1)));
            }
        }
        i = i + 1;
    }
    proof {
        assert(ts@.subrange(0, n as int) =~= ts@);
    }
}

/// The listing success envelope for the given rows.
pub fn render_list_body(ts: &Vec<Task>) -> (r: String)
    ensures
        r@ == list_body(ts@),
{
    let mut out = String::new();
    out.append("{\"success\":true,\"data\":[");
    append_tasks(&mut out, ts);
    out.append("]}");
    proof {
        assert(out@ =~= list_body(ts@));
    }
    out
}

/// The creation success envelope for the given new id.
pub fn render_create_body(id: i32) -> (r: String)
    ensures
        r@ == create_body(id as int),
{
    let mut out = String::new();
    out.append("{\"success\":true,\"data\":{\"task_id\":");
    append_dec_i32(&mut out, id);
    out.append("}}");
    proof {
        assert(out@ =~= create_body(id as int));
    }
    out
}

/// The bare success envelope.
pub fn render_ok_body() -> (r: String)
    ensures
        r@ == ok_body(),
{
    let mut out = String::new();
    out.append("{\"success\":true}");
    proof {
        assert(out@ =~= ok_body());
    }
    out
}

/// The failure envelope for the given storage error text.
pub fn render_error_body(msg: &str) -> (r: String)
    ensures
        r@ == error_body(msg@),
{
    let mut out = String::new();
    out.append("{\"success\":false,\"message\":");
    append_quoted(&mut out, msg);
    out.append("}");
    proof {
        assert(out@ =~= error_body(msg@));
    }
    out
}

} // verus!
