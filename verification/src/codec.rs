use vstd::prelude::*;

use crate::Todo;
use crate::TodoView;
use crate::views_of;

verus! {

// ---------------------------------------------------------------------------
// The JSON shapes the service speaks, as functions on sequences of
// characters. A todo is rendered as {"id":...,"task":...,"completed":...};
// request bodies are decoded by the parser further down.
// ---------------------------------------------------------------------------

/// The hexadecimal digit for a value below 16.
pub open spec fn hex_digit(n: int) -> char {
    if n == 0 {
        '0'
    } else if n == 1 {
        '1'
    } else if n == 2 {
        '2'
    } else if n == 3 {
        '3'
    } else if n == 4 {
        '4'
    } else if n == 5 {
        '5'
    } else if n == 6 {
        '6'
    } else if n == 7 {
        '7'
    } else if n == 8 {
        '8'
    } else if n == 9 {
        '9'
    } else if n == 10 {
        'a'
    } else if n == 11 {
        'b'
    } else if n == 12 {
        'c'
    } else if n == 13 {
        'd'
    } else if n == 14 {
        'e'
    } else {
        'f'
    }
}

/// How one character is written inside a JSON string: quotes and backslashes
/// get a backslash escape, the common control characters their short forms,
/// the remaining control characters the \u00XX form, and everything else
/// stands as itself.
pub open spec fn json_escape_char(c: char) -> Seq<char> {
    if c == '"' {
        seq!['\\', '"']
    } else if c == '\\' {
        seq!['\\', '\\']
    } else if c == '\n' {
        seq!['\\', 'n']
    } else if c == '\r' {
        seq!['\\', 'r']
    } else if c == '\t' {
        seq!['\\', 't']
    } else if (c as u32) < 0x20 {
        seq!['\\', 'u', '0', '0', hex_digit((c as u32) as int / 16), hex_digit((c as u32) as int % 16)]
    } else {
        seq![c]
    }
}

/// A whole text escaped for a JSON string, character by character.
pub open spec fn json_escape(s: Seq<char>) -> Seq<char>
    decreases s.len(),
{
    if s.len() == 0 {
        Seq::empty()
    } else {
        json_escape(s.drop_last()) + json_escape_char(s.last())
    }
}

/// A JSON string: the escaped text between double quotes.
pub open spec fn json_string(s: Seq<char>) -> Seq<char> {
    seq!['"'] + json_escape(s) + seq!['"']
}

/// A JSON boolean.
pub open spec fn bool_json(b: bool) -> Seq<char> {
    if b {
        seq!['t', 'r', 'u', 'e']
    } else {
        seq!['f', 'a', 'l', 's', 'e']
    }
}

/// One todo record as a JSON object.
pub open spec fn todo_json(t: TodoView) -> Seq<char> {
    seq!['{', '"', 'i', 'd', '"', ':'] + json_string(t.id) + seq![',', '"', 't', 'a', 's', 'k', '"', ':']
        + json_string(t.task) + seq![',', '"', 'c', 'o', 'm', 'p', 'l', 'e', 't', 'e', 'd', '"', ':']
        + bool_json(t.completed) + seq!['}']
}

/// The elements of the JSON array of todos, separated by commas.
pub open spec fn todos_array(s: Seq<TodoView>) -> Seq<char>
    decreases s.len(),
{
    if s.len() == 0 {
        Seq::empty()
    } else if s.len() == 1 {
        todo_json(s[0])
    } else {
        todos_array(s.drop_last()) + seq![','] + todo_json(s.last())
    }
}

/// The body of a successful listing: {"todos":[...]}.
pub open spec fn list_response_json(s: Seq<TodoView>) -> Seq<char> {
    seq!['{', '"', 't', 'o', 'd', 'o', 's', '"', ':', '['] + todos_array(s) + seq![']', '}']
}

/// The body of a successful single-record response: {"todo":...}.
pub open spec fn todo_response_json(t: TodoView) -> Seq<char> {
    seq!['{', '"', 't', 'o', 'd', 'o', '"', ':'] + todo_json(t) + seq!['}']
}

// ---------------------------------------------------------------------------
// The executable encoder
// ---------------------------------------------------------------------------

/// Relies on String::from_iter over characters: the collected string holds
/// exactly the characters of the vector, in order.
#[verifier::external_body]
pub(crate) fn chars_to_string(v: Vec<char>) -> (r: String)
    ensures
        r@ == v@,
{
    v.into_iter().collect()
}

/// The characters of a string slice, in order.
pub(crate) fn str_to_chars(s: &str) -> (r: Vec<char>)
    ensures
        r@ == s@,
{
    let n = s.unicode_len();
    let mut out: Vec<char> = Vec::new();
    let mut i: usize = 0;
    while i < n
        invariant
            n == s@.len(),
            i <= n,
            out@ == s@.take(i as int),
        decreases n - i,
    {
        out.push(s.get_char(i));
        proof {
            assert(out@ =~= s@.take(i + 1));
        }
        i += 1;
    }
    proof {
        assert(s@.take(n as int) =~= s@);
    }
    out
}

fn hex_digit_exec(n: u32) -> (c: char)
    requires
        n < 16,
    ensures
        c == hex_digit(n as int),
{
    if n == 0 {
        '0'
    } else if n == 1 {
        '1'
    } else if n == 2 {
        '2'
    } else if n == 3 {
        '3'
    } else if n == 4 {
        '4'
    } else if n == 5 {
        '5'
    } else if n == 6 {
        '6'
    } else if n == 7 {
        '7'
    } else if n == 8 {
        '8'
    } else if n == 9 {
        '9'
    } else if n == 10 {
        'a'
    } else if n == 11 {
        'b'
    } else if n == 12 {
        'c'
    } else if n == 13 {
        'd'
    } else if n == 14 {
        'e'
    } else {
        'f'
    }
}

fn push_escaped_char(out: &mut Vec<char>, c: char)
    ensures
        final(out)@ == old(out)@ + json_escape_char(c),
{
    if c == '"' {
        out.push('\\');
        out.push('"');
    } else if c == '\\' {
        out.push('\\');
        out.push('\\');
    } else if c == '\n' {
        out.push('\\');
        out.push('n');
    } else if c == '\r' {
        out.push('\\');
        out.push('r');
    } else if c == '\t' {
        out.push('\\');
        out.push('t');
    } else if (c as u32) < 0x20 {
        let n = c as u32;
        out.push('\\');
        out.push('u');
        out.push('0');
        out.push('0');
        out.push(hex_digit_exec(n / 16));
        out.push(hex_digit_exec(n % 16));
    } else {
        out.push(c);
    }
    proof {
        assert(out@ =~= old(out)@ + json_escape_char(c));
    }
}

fn push_escaped(out: &mut Vec<char>, s: &str)
    ensures
        final(out)@ == old(out)@ + json_escape(s@),
{
    let n = s.unicode_len();
    let mut i: usize = 0;
    while i < n
        invariant
            n == s@.len(),
            i <= n,
            out@ == old(out)@ + json_escape(s@.take(i as int)),
        decreases n - i,
    {
        push_escaped_char(out, s.get_char(i));
        proof {
            assert(s@.take(i + 1).drop_last() =~= s@.take(i as int));
            assert(s@.take(i + 1).last() == s@[i as int]);
            assert(out@ =~= old(out)@ + json_escape(s@.take(i + 1)));
        }
        i += 1;
    }
    proof {
        assert(s@.take(n as int) =~= s@);
    }
}

fn push_json_string(out: &mut Vec<char>, s: &str)
    ensures
        final(out)@ == old(out)@ + json_string(s@),
{
    out.push('"');
    push_escaped(out, s);
    out.push('"');
    proof {
        assert(out@ =~= old(out)@ + json_string(s@));
    }
}

#[verifier::rlimit(60)]
fn push_todo_json(out: &mut Vec<char>, t: &Todo)
    ensures
        final(out)@ == old(out)@ + todo_json(t@),
{
    out.push('{');
    out.push('"');
    out.push('i');
    out.push('d');
    out.push('"');
    out.push(':');
    push_json_string(out, t.id.as_str());
    proof {
        assert(out@ =~= old(out)@ + seq!['{', '"', 'i', 'd', '"', ':'] + json_string(t@.id));
    }
    out.push(',');
    out.push('"');
    out.push('t');
    out.push('a');
    out.push('s');
    out.push('k');
    out.push('"');
    out.push(':');
    push_json_string(out, t.task.as_str());
    proof {
        assert(out@ =~= old(out)@ + seq!['{', '"', 'i', 'd', '"', ':'] + json_string(t@.id)
            + seq![',', '"', 't', 'a', 's', 'k', '"', ':'] + json_string(t@.task));
    }
    out.push(',');
    out.push('"');
    out.push('c');
    out.push('o');
    out.push('m');
    out.push('p');
    out.push('l');
    out.push('e');
    out.push('t');
    out.push('e');
    out.push('d');
    out.push('"');
    out.push(':');
    if t.completed {
        out.push('t');
        out.push('r');
        out.push('u');
        out.push('e');
    } else {
        out.push('f');
        out.push('a');
        out.push('l');
        out.push('s');
        out.push('e');
    }
    out.push('}');
    proof {
        assert(out@ =~= old(out)@ + todo_json(t@));
    }
}

/// The body of a single-record response for the given record.
pub fn render_todo_response(t: &Todo) -> (r: String)
    ensures
        r@ == todo_response_json(t@),
{
    let mut out: Vec<char> = Vec::new();
    out.push('{');
    out.push('"');
    out.push('t');
    out.push('o');
    out.push('d');
    out.push('o');
    out.push('"');
    out.push(':');
    push_todo_json(&mut out, t);
    out.push('}');
    proof {
        assert(out@ =~= todo_response_json(t@));
    }
    chars_to_string(out)
}

/// The body of a listing response for the given records.
pub fn render_list_response(todos: &Vec<Todo>) -> (r: String)
    ensures
        r@ == list_response_json(views_of(todos@)),
{
    let ghost vs = views_of(todos@);
    let mut out: Vec<char> = Vec::new();
    out.push('{');
    out.push('"');
    out.push('t');
    out.push('o');
    out.push('d');
    out.push('o');
    out.push('s');
    out.push('"');
    out.push(':');
    out.push('[');
    let ghost prefix = out@;
    let mut i: usize = 0;
    while i < todos.len()
        invariant
            todos@.len() == vs.len(),
            forall|k: int| 0 <= k < vs.len() ==> vs[k] == todos@[k]@,
            i <= todos.len(),
            out@ == prefix + todos_array(vs.take(i as int)),
        decreases todos.len() - i,
    {
        if i > 0 {
            out.push(',');
        }
        push_todo_json(&mut out, &todos[i]);
        proof {
            if i == 0 {
                assert(todos_array(vs.take(1)) == todo_json(vs.take(1)[0]));
                assert(out@ =~= prefix + todos_array(vs.take(i + 1)));
            } else {
                assert(vs.take(i + 1).drop_last() =~= vs.take(i as int));
                assert(vs.take(i + 1).last() == vs[i as int]);
                assert(out@ =~= prefix + todos_array(vs.take(i + 1)));
            }
        }
        i += 1;
    }
    proof {
        assert(vs.take(vs.len() as int) =~= vs);
    }
    out.push(']');
    out.push('}');
    proof {
        assert(out@ =~= list_response_json(vs));
    }
    chars_to_string(out)
}

} // verus!
