//! The JSON wire format of a todo and of a list of todos.
//!
//! The format is stated as spec functions over character sequences: a todo
//! serializes to an object whose keys come in the fixed order `completed`,
//! `title`, `url`, with storage defaults (`false`, `""`) applied here, at
//! serialization time. The executable encoders are proved to produce exactly
//! these sequences.

use vstd::prelude::*;
use vstd::string::StrSliceExecFns;
use vstd::string::StringExecFns;
use crate::todo::{Todo, TodoView};

verus! {

/// The lower-case hex digit for a value below 16.
pub open spec fn hex_digit(n: int) -> char {
    if n == 0 {
        '0'
    } else if n == 1 {
        '1'
    } else if n == 2 {
        '2'
    } else if n == 3 {
        '3'
    } else if n == 4 {
        '4'
    } else if n == 5 {
        '5'
    } else if n == 6 {
        '6'
    } else if n == 7 {
        '7'
    } else if n == 8 {
        '8'
    } else if n == 9 {
        '9'
    } else if n == 10 {
        'a'
    } else if n == 11 {
        'b'
    } else if n == 12 {
        'c'
    } else if n == 13 {
        'd'
    } else if n == 14 {
        'e'
    } else {
        'f'
    }
}

/// How one character appears inside a JSON string: `"` and `\` and the five
/// named control characters get two-character escapes, any other control
/// character a `\u00XX` escape, and everything else stands for itself.
pub open spec fn esc_char(c: char) -> Seq<char> {
    if c == '"' {
        seq!['\\', '"']
    } else if c == '\\' {
        seq!['\\', '\\']
    } else if c == '\u{8}' {
        seq!['\\', 'b']
    } else if c == '\u{c}' {
        seq!['\\', 'f']
    } else if c == '\n' {
        seq!['\\', 'n']
    } else if c == '\r' {
        seq!['\\', 'r']
    } else if c == '\t' {
        seq!['\\', 't']
    } else if (c as int) < 0x20 {
        seq!['\\', 'u', '0', '0', hex_digit((c as int) / 16), hex_digit((c as int) % 16)]
    } else {
        seq![c]
    }
}

/// The body of a JSON string: each character escaped, in order.
pub open spec fn json_escaped(s: Seq<char>) -> Seq<char>
    decreases s.len(),
{
    if s.len() == 0 {
        Seq::<char>::empty()
    } else {
        json_escaped(s.drop_last()) + esc_char(s.last())
    }
}

/// A JSON string: the escaped body between double quotes.
pub open spec fn json_string_of(s: Seq<char>) -> Seq<char> {
    seq!['"'] + json_escaped(s) + seq!['"']
}

/// A JSON boolean literal.
pub open spec fn json_bool(b: bool) -> Seq<char> {
    if b {
        seq!['t', 'r', 'u', 'e']
    } else {
        seq!['f', 'a', 'l', 's', 'e']
    }
}

/// The serialization-time default for `completed`.
pub open spec fn completed_or_false(o: Option<bool>) -> bool {
    match o {
        Some(b) => b,
        None => false,
    }
}

/// The serialization-time default for `url`.
pub open spec fn url_or_empty(o: Option<Seq<char>>) -> Seq<char> {
    match o {
        Some(u) => u,
        None => Seq::<char>::empty(),
    }
}

pub open spec fn key_completed() -> Seq<char> {
    seq!['"', 'c', 'o', 'm', 'p', 'l', 'e', 't', 'e', 'd', '"', ':']
}

pub open spec fn key_title() -> Seq<char> {
    seq!['"', 't', 'i', 't', 'l', 'e', '"', ':']
}

pub open spec fn key_url() -> Seq<char> {
    seq!['"', 'u', 'r', 'l', '"', ':']
}

/// The JSON object a todo serializes to.
pub open spec fn json_of_todo(t: TodoView) -> Seq<char> {
    seq!['{'] + key_completed() + json_bool(completed_or_false(t.completed)) + seq![',']
        + key_title() + json_string_of(t.title) + seq![','] + key_url() + json_string_of(
        url_or_empty(t.url),
    ) + seq!['}']
}

/// The comma-separated serializations of a sequence of todos.
pub open spec fn json_items(ts: Seq<TodoView>) -> Seq<char>
    decreases ts.len(),
{
    if ts.len() == 0 {
        Seq::<char>::empty()
    } else if ts.len() == 1 {
        json_of_todo(ts[0])
    } else {
        json_items(ts.drop_last()) + seq![','] + json_of_todo(ts.last())
    }
}

/// The JSON array a sequence of todos serializes to.
pub open spec fn json_of_todos(ts: Seq<TodoView>) -> Seq<char> {
    seq!['['] + json_items(ts) + seq![']']
}

/// Relies on `String::push`: appends exactly the given character.
#[verifier::external_body]
pub(crate) fn push_char(s: &mut String, c: char)
    ensures
        final(s)@ == old(s)@ + seq![c],
{
    s.push(c);
}

/// The lower-case hex digit character for a value below 16.
fn hex_digit_char(n: u32) -> (c: char)
    requires
        n < 16,
    ensures
        c == hex_digit(n as int),
{
    match n {
        0 => '0',
        1 => '1',
        2 => '2',
        3 => '3',
        4 => '4',
        5 => '5',
        6 => '6',
        7 => '7',
        8 => '8',
        9 => '9',
        10 => 'a',
        11 => 'b',
        12 => 'c',
        13 => 'd',
        14 => 'e',
        _ => 'f',
    }
}

/// Encodes a string as a JSON string, escaping as [`esc_char`] says.
pub fn encode_json_string(s: &str) -> (r: String)
    ensures
        r@ == json_string_of(s@),
{
    let n = s.unicode_len();
    let mut out = String::new();
    push_char(&mut out, '"');
    assert(s@.take(0) =~= Seq::<char>::empty());
    assert(out@ =~= seq!['"'] + json_escaped(s@.take(0)));
    let mut i: usize = 0;
    while i < n
        invariant
            n == s@.len(),
            i <= n,
            out@ == seq!['"'] + json_escaped(s@.take(i as int)),
        decreases n - i,
    {
        let c = s.get_char(i);
        proof {
            assert(s@.take(i + 1).drop_last() =~= s@.take(i as int));
            assert(s@.take(i + 1).last() == c);
            assert(json_escaped(s@.take(i + 1)) == json_escaped(s@.take(i as int)) + esc_char(c));
        }
        let ghost out0 = out@;
        if c == '"' {
            push_char(&mut out, '\\');
            push_char(&mut out, '"');
            assert(out@ =~= out0 + esc_char(c));
        } else if c == '\\' {
            push_char(&mut out, '\\');
            push_char(&mut out, '\\');
            assert(out@ =~= out0 + esc_char(c));
        } else if c == '\u{8}' {
            push_char(&mut out, '\\');
            push_char(&mut out, 'b');
            assert(out@ =~= out0 + esc_char(c));
        } else if c == '\u{c}' {
            push_char(&mut out, '\\');
            push_char(&mut out, 'f');
            assert(out@ =~= out0 + esc_char(c));
        } else if c == '\n' {
            push_char(&mut out, '\\');
            push_char(&mut out, 'n');
            assert(out@ =~= out0 + esc_char(c));
        } else if c == '\r' {
            push_char(&mut out, '\\');
            push_char(&mut out, 'r');
            assert(out@ =~= out0 + esc_char(c));
        } else if c == '\t' {
            push_char(&mut out, '\\');
            push_char(&mut out, 't');
            assert(out@ =~= out0 + esc_char(c));
        } else if (c as u32) < 0x20 {
            let v = c as u32;
            push_char(&mut out, '\\');
            push_char(&mut out, 'u');
            push_char(&mut out, '0');
            push_char(&mut out, '0');
            push_char(&mut out, hex_digit_char(v / 16));
            push_char(&mut out, hex_digit_char(v % 16));
            assert(out@ =~= out0 + esc_char(c));
        } else {
            push_char(&mut out, c);
            assert(out@ =~= out0 + esc_char(c));
        }
        assert(out@ =~= seq!['"'] + json_escaped(s@.take(i + 1)));
        i = i + 1;
    }
    push_char(&mut out, '"');
    assert(s@.take(n as int) =~= s@);
    assert(out@ =~= json_string_of(s@));
    out
}

/// Serializes the referenced todos as the JSON array of their objects, in
/// order: the one encode loop that every listing goes through.
pub(crate) fn encode_todo_refs(todos: &Vec<&Todo>) -> (r: String)
    ensures
        r@ == json_of_todos(todos@.map_values(|t: &Todo| t@)),
{
    let ghost ts = todos@.map_values(|t: &Todo| t@);
    let n = todos.len();
    let mut out = String::new();
    out.append("[");
    proof {
        reveal_strlit("[");
        assert(ts.take(0) =~= Seq::<TodoView>::empty());
        assert(out@ =~= seq!['['] + json_items(ts.take(0)));
    }
    let mut i: usize = 0;
    while i < n
        invariant
            n == todos.len(),
            i <= n,
            ts == todos@.map_values(|t: &Todo| t@),
            ts.len() == n,
            out@ == seq!['['] + json_items(ts.take(i as int)),
        decreases n - i,
    {
        if i > 0 {
            out.append(",");
            proof {
                reveal_strlit(",");
            }
        }
        let ej = todos[i].to_json_str();
        out.append(ej.as_str());
        proof {
            assert(ts.take(i + 1).drop_last() =~= ts.take(i as int));
            assert(ts.take(i + 1).last() == ts[i as int]);
            assert(ts[i as int] == todos@[i as int]@);
            if i == 0 {
                assert(json_items(ts.take(0)) == Seq::<char>::empty());
                assert(out@ =~= seq!['['] + json_items(ts.take(1)));
            } else {
                assert(json_items(ts.take(i + 1)) == json_items(ts.take(i as int)) + seq![',']
                    + json_of_todo(ts[i as int]));
                assert(out@ =~= seq!['['] + json_items(ts.take(i + 1)));
            }
        }
        i = i + 1;
    }
    out.append("]");
    proof {
        reveal_strlit("]");
        assert(ts.take(n as int) =~= ts);
        assert(out@ =~= json_of_todos(ts));
    }
    out
}

/// Serializes todos as the JSON array of their objects, in order.
pub fn encode_todo_list(todos: &Vec<Todo>) -> (r: String)
    ensures
        r@ == json_of_todos(todos@.map_values(|t: Todo| t@)),
{
    let mut refs: Vec<&Todo> = Vec::new();
    let n = todos.len();
    let mut i: usize = 0;
    while i < n
        invariant
            n == todos.len(),
            i <= n,
            refs@.len() == i,
            forall|k: int| 0 <= k < i ==> (#[trigger] refs@[k])@ == todos@[k]@,
        decreases n - i,
    {
        refs.push(&todos[i]);
        i = i + 1;
    }
    let r = encode_todo_refs(&refs);
    proof {
        assert(refs@.map_values(|t: &Todo| t@) =~= todos@.map_values(|t: Todo| t@));
    }
    r
}

impl Todo {
    /// Serializes this todo to its JSON object, defaults applied.
    pub fn to_json_str(&self) -> (r: String)
        ensures
            r@ == json_of_todo(self@),
    {
        let mut out = String::new();
        out.append("{\"completed\":");
        proof {
            reveal_strlit("{\"completed\":");
            assert(out@ =~= seq!['{'] + key_completed());
        }
        let cb = match self.completed {
            Some(b) => b,
            None => false,
        };
        if cb {
            out.append("true");
            proof {
                reveal_strlit("true");
            }
        } else {
            out.append("false");
            proof {
                reveal_strlit("false");
            }
        }
        assert(out@ =~= seq!['{'] + key_completed() + json_bool(completed_or_false(self@.completed)));
        out.append(",\"title\":");
        proof {
            reveal_strlit(",\"title\":");
            assert(out@ =~= seq!['{'] + key_completed() + json_bool(
                completed_or_false(self@.completed),
            ) + seq![','] + key_title());
        }
        let et = encode_json_string(self.title.as_str());
        out.append(et.as_str());
        let ghost head = seq!['{'] + key_completed() + json_bool(completed_or_false(self@.completed))
            + seq![','] + key_title() + json_string_of(self@.title);
        assert(out@ =~= head);
        out.append(",\"url\":");
        proof {
            reveal_strlit(",\"url\":");
            assert(out@ =~= head + seq![','] + key_url());
        }
        match &self.url {
            Some(u) => {
                let eu = encode_json_string(u.as_str());
                out.append(eu.as_str());
            },
            None => {
                out.append("\"\"");
                proof {
                    reveal_strlit("\"\"");
                    assert(json_escaped(Seq::<char>::empty()) =~= Seq::<char>::empty());
                    assert(("\"\"")@ =~= json_string_of(Seq::<char>::empty()));
                }
            },
        }
        assert(out@ =~= head + seq![','] + key_url() + json_string_of(url_or_empty(self@.url)));
        out.append("}");
        proof {
            reveal_strlit("}");
            assert(out@ =~= json_of_todo(self@));
        }
        out
    }
}

} // verus!
