//! Parsing of what a request hands the service: the JSON body of a create
//! request and the `:id` path segment.
//!
//! The accepted grammar is stated as spec functions over character
//! sequences and positions. A body is one JSON object whose members, in
//! any order, are `"title"` (a string, required), `"completed"` (a boolean
//! or `null`) and `"url"` (a string or `null`); a member given twice takes
//! its last value; unknown members are refused. Strings take the eight
//! two-character escapes and `\u` escapes — four hex digits, a surrogate
//! pair standing for one supplementary character — and refuse unescaped
//! control characters, lone surrogates and any other escape. An id
//! segment is a plain run of decimal digits whose value fits an `i64`, as
//! the path of a positive integer id.

use vstd::prelude::*;
use vstd::string::StrSliceExecFns;
use vstd::string::StringExecFns;
use crate::json::push_char;
use crate::todo::{opt_str_view, Todo, TodoView};

verus! {

/// JSON whitespace.
pub open spec fn is_ws(c: char) -> bool {
    c == ' ' || c == '\t' || c == '\n' || c == '\r'
}

/// The first position at or after `i` that holds no whitespace.
pub open spec fn skip_ws(s: Seq<char>, i: int) -> int
    decreases s.len() - i,
{
    if 0 <= i < s.len() && is_ws(s[i]) {
        skip_ws(s, i + 1)
    } else {
        i
    }
}

/// A hex digit, either case.
pub open spec fn is_hex(c: char) -> bool {
    ||| ('0' as int) <= (c as int) <= ('9' as int)
    ||| ('a' as int) <= (c as int) <= ('f' as int)
    ||| ('A' as int) <= (c as int) <= ('F' as int)
}

/// The value of one hex digit.
pub open spec fn hex_val(c: char) -> int {
    if ('0' as int) <= (c as int) <= ('9' as int) {
        (c as int) - ('0' as int)
    } else if ('a' as int) <= (c as int) <= ('f' as int) {
        (c as int) - ('a' as int) + 10
    } else {
        (c as int) - ('A' as int) + 10
    }
}

/// Whether four hex digits stand at `i`.
pub open spec fn is_hex4(s: Seq<char>, i: int) -> bool {
    is_hex(s[i]) && is_hex(s[i + 1]) && is_hex(s[i + 2]) && is_hex(s[i + 3])
}

/// The value of the four hex digits at `i`.
pub open spec fn hex4_val(s: Seq<char>, i: int) -> int {
    ((hex_val(s[i]) * 16 + hex_val(s[i + 1])) * 16 + hex_val(s[i + 2])) * 16 + hex_val(s[i + 3])
}

pub open spec fn is_high_surrogate(v: int) -> bool {
    0xD800 <= v <= 0xDBFF
}

pub open spec fn is_low_surrogate(v: int) -> bool {
    0xDC00 <= v <= 0xDFFF
}

/// The scalar value a surrogate pair stands for.
pub open spec fn surrogate_scalar(v: int, w: int) -> int {
    0x10000 + (v - 0xD800) * 0x400 + (w - 0xDC00)
}

/// The rest of a JSON string after the opening quote: characters already
/// read are in `acc`; the result is the full contents and the position
/// after the closing quote.
pub open spec fn parse_str_rest(s: Seq<char>, i: int, acc: Seq<char>) -> Option<(Seq<char>, int)>
    decreases s.len() - i,
{
    if !(0 <= i < s.len()) {
        None
    } else if s[i] == '"' {
        Some((acc, i + 1))
    } else if s[i] == '\\' {
        if i + 1 < s.len() {
            let e = s[i + 1];
            if e == '"' {
                parse_str_rest(s, i + 2, acc.push('"'))
            } else if e == '\\' {
                parse_str_rest(s, i + 2, acc.push('\\'))
            } else if e == '/' {
                parse_str_rest(s, i + 2, acc.push('/'))
            } else if e == 'b' {
                parse_str_rest(s, i + 2, acc.push('\u{8}'))
            } else if e == 'f' {
                parse_str_rest(s, i + 2, acc.push('\u{c}'))
            } else if e == 'n' {
                parse_str_rest(s, i + 2, acc.push('\n'))
            } else if e == 'r' {
                parse_str_rest(s, i + 2, acc.push('\r'))
            } else if e == 't' {
                parse_str_rest(s, i + 2, acc.push('\t'))
            } else if e == 'u' {
                if i + 6 <= s.len() && is_hex4(s, i + 2) {
                    let v = hex4_val(s, i + 2);
                    if is_high_surrogate(v) {
                        if i + 12 <= s.len() && s[i + 6] == '\\' && s[i + 7] == 'u' && is_hex4(
                            s,
                            i + 8,
                        ) {
                            let w = hex4_val(s, i + 8);
                            if is_low_surrogate(w) {
                                parse_str_rest(s, i + 12, acc.push(surrogate_scalar(v, w) as char))
                            } else {
                                None
                            }
                        } else {
                            None
                        }
                    } else if is_low_surrogate(v) {
                        None
                    } else {
                        parse_str_rest(s, i + 6, acc.push(v as char))
                    }
                } else {
                    None
                }
            } else {
                None
            }
        } else {
            None
        }
    } else if (s[i] as int) < 0x20 {
        None
    } else {
        parse_str_rest(s, i + 1, acc.push(s[i]))
    }
}

/// A JSON string starting at `i`: its contents and the position after it.
pub open spec fn spec_parse_string(s: Seq<char>, i: int) -> Option<(Seq<char>, int)> {
    if 0 <= i < s.len() && s[i] == '"' {
        parse_str_rest(s, i + 1, Seq::<char>::empty())
    } else {
        None
    }
}

/// A JSON boolean literal starting at `i`.
pub open spec fn spec_parse_bool(s: Seq<char>, i: int) -> Option<(bool, int)> {
    if 0 <= i && i + 4 <= s.len() && s[i] == 't' && s[i + 1] == 'r' && s[i + 2] == 'u' && s[i + 3]
        == 'e' {
        Some((true, i + 4))
    } else if 0 <= i && i + 5 <= s.len() && s[i] == 'f' && s[i + 1] == 'a' && s[i + 2] == 'l' && s[i
        + 3] == 's' && s[i + 4] == 'e' {
        Some((false, i + 5))
    } else {
        None
    }
}

/// A JSON `null` literal starting at `i`: the position after it.
pub open spec fn spec_parse_null(s: Seq<char>, i: int) -> Option<int> {
    if 0 <= i && i + 4 <= s.len() && s[i] == 'n' && s[i + 1] == 'u' && s[i + 2] == 'l' && s[i + 3]
        == 'l' {
        Some(i + 4)
    } else {
        None
    }
}

/// Mathematical value of one parsed object member.
pub ghost enum MemberView {
    Title(Seq<char>),
    Completed(Option<bool>),
    Url(Option<Seq<char>>),
}

pub open spec fn chars_title() -> Seq<char> {
    seq!['t', 'i', 't', 'l', 'e']
}

pub open spec fn chars_completed() -> Seq<char> {
    seq!['c', 'o', 'm', 'p', 'l', 'e', 't', 'e', 'd']
}

pub open spec fn chars_url() -> Seq<char> {
    seq!['u', 'r', 'l']
}

/// One object member starting at `i` (leading whitespace allowed): the
/// key, a colon, and a value of the type that key takes.
pub open spec fn spec_parse_member(s: Seq<char>, i: int) -> Option<(MemberView, int)> {
    let i1 = skip_ws(s, i);
    match spec_parse_string(s, i1) {
        None => None,
        Some((key, i2)) => {
            let i3 = skip_ws(s, i2);
            if !(0 <= i3 < s.len() && s[i3] == ':') {
                None
            } else {
                let i4 = skip_ws(s, i3 + 1);
                if key == chars_title() {
                    match spec_parse_string(s, i4) {
                        Some((v, i5)) => Some((MemberView::Title(v), i5)),
                        None => None,
                    }
                } else if key == chars_completed() {
                    match spec_parse_bool(s, i4) {
                        Some((b, i5)) => Some((MemberView::Completed(Some(b)), i5)),
                        None => match spec_parse_null(s, i4) {
                            Some(i5) => Some((MemberView::Completed(None), i5)),
                            None => None,
                        },
                    }
                } else if key == chars_url() {
                    match spec_parse_string(s, i4) {
                        Some((v, i5)) => Some((MemberView::Url(Some(v)), i5)),
                        None => match spec_parse_null(s, i4) {
                            Some(i5) => Some((MemberView::Url(None), i5)),
                            None => None,
                        },
                    }
                } else {
                    None
                }
            }
        },
    }
}

/// The members of the object from position `i` (just after `{` or a comma)
/// to the closing brace. `to`, `co`, `uo` hold the members already seen;
/// a member seen twice takes its last value; an unknown member or a
/// missing title refuses the body. Yields the parsed todo and the
/// position after the brace.
pub open spec fn spec_parse_fields(
    s: Seq<char>,
    i: int,
    to: Option<Seq<char>>,
    co: Option<Option<bool>>,
    uo: Option<Option<Seq<char>>>,
) -> Option<(TodoView, int)>
    decreases s.len() - i,
{
    match spec_parse_member(s, i) {
        None => None,
        Some((m, j)) => if !(i < j <= s.len()) {
            None
        } else {
            let step = match m {
                MemberView::Title(v) => (Some(v), co, uo),
                MemberView::Completed(c) => (to, Some(c), uo),
                MemberView::Url(u) => (to, co, Some(u)),
            };
            match step {
                (to2, co2, uo2) => {
                    let j2 = skip_ws(s, j);
                    if !(j <= j2 <= s.len()) {
                        None
                    } else if j2 < s.len() && s[j2] == ',' {
                        spec_parse_fields(s, j2 + 1, to2, co2, uo2)
                    } else if j2 < s.len() && s[j2] == '}' {
                        match to2 {
                            None => None,
                            Some(t) => Some(
                                (
                                    TodoView {
                                        title: t,
                                        completed: match co2 {
                                            Some(c) => c,
                                            None => None,
                                        },
                                        url: match uo2 {
                                            Some(u) => u,
                                            None => None,
                                        },
                                    },
                                    j2 + 1,
                                ),
                            ),
                        }
                    } else {
                        None
                    }
                },
            }
        },
    }
}

/// A whole create body: one object, surrounded by whitespace only, with a
/// title member.
pub open spec fn spec_parse_todo(s: Seq<char>) -> Option<TodoView> {
    let i0 = skip_ws(s, 0);
    if !(0 <= i0 < s.len() && s[i0] == '{') {
        None
    } else {
        match spec_parse_fields(s, i0 + 1, None, None, None) {
            None => None,
            Some((tv, j)) => if skip_ws(s, j) == s.len() {
                Some(tv)
            } else {
                None
            },
        }
    }
}

/// The first position at or after `i` holding no whitespace.
fn ws_end(s: &str, i: usize) -> (j: usize)
    requires
        i <= s@.len(),
    ensures
        j as int == skip_ws(s@, i as int),
        i <= j <= s@.len(),
{
    let n = s.unicode_len();
    let mut p: usize = i;
    loop
        invariant
            n == s@.len(),
            i <= p <= n,
            skip_ws(s@, i as int) == skip_ws(s@, p as int),
        decreases n - p,
    {
        if p >= n {
            return p;
        }
        let c = s.get_char(p);
        if !(c == ' ' || c == '\t' || c == '\n' || c == '\r') {
            return p;
        }
        p = p + 1;
    }
}

/// Whether two strings hold the same characters.
pub fn str_eq(a: &str, b: &str) -> (r: bool)
    ensures
        r == (a@ == b@),
{
    let n = a.unicode_len();
    if n != b.unicode_len() {
        return false;
    }
    let mut i: usize = 0;
    while i < n
        invariant
            n == a@.len(),
            n == b@.len(),
            i <= n,
            forall|k: int| 0 <= k < i ==> a@[k] == b@[k],
        decreases n - i,
    {
        if a.get_char(i) != b.get_char(i) {
            return false;
        }
        i = i + 1;
    }
    proof {
        assert(a@ =~= b@);
    }
    true
}

/// Relies on `char::from_u32`: on a Unicode scalar value it yields the
/// character with that code point.
#[verifier::external_body]
fn char_from_scalar(v: u32) -> (c: char)
    requires
        v < 0xD800 || (0xE000 <= v && v <= 0x10FFFF),
    ensures
        c == (v as char),
{
    char::from_u32(v).unwrap()
}

/// The value of one hex digit character.
fn hex_val_of(c: char) -> (r: Option<u32>)
    ensures
        match r {
            Some(v) => is_hex(c) && v as int == hex_val(c) && v < 16,
            None => !is_hex(c),
        },
{
    let cv = c as u32;
    if cv >= 48 && cv <= 57 {
        Some(cv - 48)
    } else if cv >= 97 && cv <= 102 {
        Some(cv - 97 + 10)
    } else if cv >= 65 && cv <= 70 {
        Some(cv - 65 + 10)
    } else {
        None
    }
}

/// The value of the four hex digits at `i`.
fn read_hex4(s: &str, i: usize) -> (r: Option<u32>)
    requires
        i + 4 <= s@.len(),
        s@.len() <= usize::MAX,
    ensures
        match r {
            Some(v) => is_hex4(s@, i as int) && v as int == hex4_val(s@, i as int) && v < 0x10000,
            None => !is_hex4(s@, i as int),
        },
{
    let h0 = match hex_val_of(s.get_char(i)) {
        Some(v) => v,
        None => {
            return None;
        },
    };
    let h1 = match hex_val_of(s.get_char(i + 1)) {
        Some(v) => v,
        None => {
            return None;
        },
    };
    let h2 = match hex_val_of(s.get_char(i + 2)) {
        Some(v) => v,
        None => {
            return None;
        },
    };
    let h3 = match hex_val_of(s.get_char(i + 3)) {
        Some(v) => v,
        None => {
            return None;
        },
    };
    Some(((h0 * 16 + h1) * 16 + h2) * 16 + h3)
}

/// A JSON string starting at `i`: its unescaped contents and the position
/// after the closing quote.
fn parse_string_at(s: &str, i: usize) -> (r: Option<(String, usize)>)
    requires
        i <= s@.len(),
    ensures
        match r {
            Some((v, j)) => {
                &&& spec_parse_string(s@, i as int) == Some((v@, j as int))
                &&& i < j <= s@.len()
            },
            None => spec_parse_string(s@, i as int) is None,
        },
{
    let n = s.unicode_len();
    if i >= n || s.get_char(i) != '"' {
        return None;
    }
    let mut acc = String::new();
    let mut p: usize = i + 1;
    loop
        invariant
            n == s@.len(),
            i + 1 <= p <= n,
            spec_parse_string(s@, i as int) == parse_str_rest(s@, p as int, acc@),
        decreases n - p,
    {
        if p >= n {
            return None;
        }
        let c = s.get_char(p);
        if c == '"' {
            return Some((acc, p + 1));
        } else if c == '\\' {
            if p + 1 >= n {
                return None;
            }
            let e = s.get_char(p + 1);
            let ghost acc0 = acc@;
            if e == '"' {
                push_char(&mut acc, '"');
                assert(acc@ =~= acc0.push('"'));
            } else if e == '\\' {
                push_char(&mut acc, '\\');
                assert(acc@ =~= acc0.push('\\'));
            } else if e == '/' {
                push_char(&mut acc, '/');
                assert(acc@ =~= acc0.push('/'));
            } else if e == 'b' {
                push_char(&mut acc, '\u{8}');
                assert(acc@ =~= acc0.push('\u{8}'));
            } else if e == 'f' {
                push_char(&mut acc, '\u{c}');
                assert(acc@ =~= acc0.push('\u{c}'));
            } else if e == 'n' {
                push_char(&mut acc, '\n');
                assert(acc@ =~= acc0.push('\n'));
            } else if e == 'r' {
                push_char(&mut acc, '\r');
                assert(acc@ =~= acc0.push('\r'));
            } else if e == 't' {
                push_char(&mut acc, '\t');
                assert(acc@ =~= acc0.push('\t'));
            } else if e == 'u' {
                if n - p < 6 {
                    return None;
                }
                let v = match read_hex4(s, p + 2) {
                    Some(v) => v,
                    None => {
                        return None;
                    },
                };
                if v >= 0xD800 && v <= 0xDBFF {
                    if n - p < 12 {
                        return None;
                    }
                    if s.get_char(p + 6) != '\\' || s.get_char(p + 7) != 'u' {
                        return None;
                    }
                    let w = match read_hex4(s, p + 8) {
                        Some(w) => w,
                        None => {
                            return None;
                        },
                    };
                    if !(w >= 0xDC00 && w <= 0xDFFF) {
                        return None;
                    }
                    let cp: u32 = 0x10000 + (v - 0xD800) * 0x400 + (w - 0xDC00);
                    let c2 = char_from_scalar(cp);
                    push_char(&mut acc, c2);
                    proof {
                        assert(cp as int == surrogate_scalar(v as int, w as int));
                        assert(acc@ =~= acc0.push(surrogate_scalar(v as int, w as int) as char));
                    }
                    p = p + 12;
                } else if v >= 0xDC00 && v <= 0xDFFF {
                    return None;
                } else {
                    let c2 = char_from_scalar(v);
                    push_char(&mut acc, c2);
                    proof {
                        assert(acc@ =~= acc0.push(hex4_val(s@, p as int + 2) as char));
                    }
                    p = p + 6;
                }
                continue;
            } else {
                return None;
            }
            p = p + 2;
        } else if (c as u32) < 0x20 {
            return None;
        } else {
            let ghost acc0 = acc@;
            push_char(&mut acc, c);
            proof {
                assert(acc@ =~= acc0.push(c));
            }
            p = p + 1;
        }
    }
}

/// A JSON boolean literal starting at `i`.
fn parse_bool_at(s: &str, i: usize) -> (r: Option<(bool, usize)>)
    requires
        i <= s@.len(),
    ensures
        match r {
            Some((b, j)) => {
                &&& spec_parse_bool(s@, i as int) == Some((b, j as int))
                &&& i < j <= s@.len()
            },
            None => spec_parse_bool(s@, i as int) is None,
        },
{
    let n = s.unicode_len();
    if n - i >= 4 && s.get_char(i) == 't' && s.get_char(i + 1) == 'r' && s.get_char(i + 2) == 'u'
        && s.get_char(i + 3) == 'e' {
        Some((true, i + 4))
    } else if n - i >= 5 && s.get_char(i) == 'f' && s.get_char(i + 1) == 'a' && s.get_char(i + 2)
        == 'l' && s.get_char(i + 3) == 's' && s.get_char(i + 4) == 'e' {
        Some((false, i + 5))
    } else {
        None
    }
}

/// A JSON `null` literal starting at `i`.
fn parse_null_at(s: &str, i: usize) -> (r: Option<usize>)
    requires
        i <= s@.len(),
    ensures
        match r {
            Some(j) => {
                &&& spec_parse_null(s@, i as int) == Some(j as int)
                &&& i < j <= s@.len()
            },
            None => spec_parse_null(s@, i as int) is None,
        },
{
    let n = s.unicode_len();
    if n - i >= 4 && s.get_char(i) == 'n' && s.get_char(i + 1) == 'u' && s.get_char(i + 2) == 'l'
        && s.get_char(i + 3) == 'l' {
        Some(i + 4)
    } else {
        None
    }
}

/// One parsed object member.
pub enum Member {
    Title(String),
    Completed(Option<bool>),
    Url(Option<String>),
}

impl View for Member {
    type V = MemberView;

    open spec fn view(&self) -> MemberView {
        match self {
            Member::Title(v) => MemberView::Title(v@),
            Member::Completed(c) => MemberView::Completed(*c),
            Member::Url(u) => MemberView::Url(opt_str_view(*u)),
        }
    }
}

/// One object member starting at `i`.
fn parse_member_at(s: &str, i: usize) -> (r: Option<(Member, usize)>)
    requires
        i <= s@.len(),
    ensures
        match r {
            Some((m, j)) => {
                &&& spec_parse_member(s@, i as int) == Some((m@, j as int))
                &&& i < j <= s@.len()
            },
            None => spec_parse_member(s@, i as int) is None,
        },
{
    let n = s.unicode_len();
    let i1 = ws_end(s, i);
    match parse_string_at(s, i1) {
        None => None,
        Some((key, i2)) => {
            let i3 = ws_end(s, i2);
            if i3 >= n || s.get_char(i3) != ':' {
                return None;
            }
            let i4 = ws_end(s, i3 + 1);
            if str_eq(key.as_str(), "title") {
                proof {
                    reveal_strlit("title");
                    assert(("title")@ =~= chars_title());
                }
                match parse_string_at(s, i4) {
                    Some((v, i5)) => Some((Member::Title(v), i5)),
                    None => None,
                }
            } else if str_eq(key.as_str(), "completed") {
                proof {
                    reveal_strlit("title");
                    reveal_strlit("completed");
                    assert(("title")@ =~= chars_title());
                    assert(("completed")@ =~= chars_completed());
                }
                match parse_bool_at(s, i4) {
                    Some((b, i5)) => Some((Member::Completed(Some(b)), i5)),
                    None => match parse_null_at(s, i4) {
                        Some(i5) => Some((Member::Completed(None), i5)),
                        None => None,
                    },
                }
            } else if str_eq(key.as_str(), "url") {
                proof {
                    reveal_strlit("title");
                    reveal_strlit("completed");
                    reveal_strlit("url");
                    assert(("title")@ =~= chars_title());
                    assert(("completed")@ =~= chars_completed());
                    assert(("url")@ =~= chars_url());
                }
                match parse_string_at(s, i4) {
                    Some((v, i5)) => Some((Member::Url(Some(v)), i5)),
                    None => match parse_null_at(s, i4) {
                        Some(i5) => Some((Member::Url(None), i5)),
                        None => None,
                    },
                }
            } else {
                proof {
                    reveal_strlit("title");
                    reveal_strlit("completed");
                    reveal_strlit("url");
                    assert(("title")@ =~= chars_title());
                    assert(("completed")@ =~= chars_completed());
                    assert(("url")@ =~= chars_url());
                }
                None
            }
        },
    }
}

pub open spec fn opt_opt_str_view(o: Option<Option<String>>) -> Option<Option<Seq<char>>> {
    match o {
        Some(x) => Some(opt_str_view(x)),
        None => None,
    }
}

/// Parses a whole create body, as [`spec_parse_todo`] says: `Some` exactly
/// on a body that is one JSON object with a title member, and then the
/// todo it describes.
pub fn parse_todo_body(s: &str) -> (r: Option<Todo>)
    ensures
        match r {
            Some(t) => spec_parse_todo(s@) == Some(t@),
            None => spec_parse_todo(s@) is None,
        },
{
    let n = s.unicode_len();
    let i0 = ws_end(s, 0);
    if i0 >= n || s.get_char(i0) != '{' {
        return None;
    }
    let mut pos: usize = i0 + 1;
    let mut to: Option<String> = None;
    let mut co: Option<Option<bool>> = None;
    let mut uo: Option<Option<String>> = None;
    loop
        invariant
            n == s@.len(),
            pos <= n,
            0 <= i0 < s@.len() && s@[i0 as int] == '{' && i0 as int == skip_ws(s@, 0),
            spec_parse_fields(s@, i0 + 1, None, None, None) == spec_parse_fields(
                s@,
                pos as int,
                opt_str_view(to),
                co,
                opt_opt_str_view(uo),
            ),
        decreases n - pos,
    {
        match parse_member_at(s, pos) {
            None => {
                return None;
            },
            Some((m, j)) => {
                match m {
                    Member::Title(v) => {
                        to = Some(v);
                    },
                    Member::Completed(c) => {
                        co = Some(c);
                    },
                    Member::Url(u) => {
                        uo = Some(u);
                    },
                }
                let j2 = ws_end(s, j);
                if j2 < n && s.get_char(j2) == ',' {
                    pos = j2 + 1;
                } else if j2 < n && s.get_char(j2) == '}' {
                    let title = match to {
                        Some(t) => t,
                        None => {
                            return None;
                        },
                    };
                    let completed = match co {
                        Some(c) => c,
                        None => None,
                    };
                    let url = match uo {
                        Some(u) => u,
                        None => None,
                    };
                    let t = Todo { title, completed, url };
                    let e = ws_end(s, j2 + 1);
                    if e != n {
                        return None;
                    }
                    return Some(t);
                } else {
                    return None;
                }
            },
        }
    }
}

/// A decimal digit.
pub open spec fn is_digit(c: char) -> bool {
    ('0' as int) <= (c as int) <= ('9' as int)
}

/// The value of one decimal digit.
pub open spec fn digit_val(c: char) -> int {
    (c as int) - ('0' as int)
}

pub open spec fn all_digits(s: Seq<char>) -> bool {
    forall|k: int| 0 <= k < s.len() ==> is_digit(#[trigger] s[k])
}

/// The value of a run of decimal digits, most significant first.
pub open spec fn dec_val(s: Seq<char>) -> int
    decreases s.len(),
{
    if s.len() == 0 {
        0
    } else {
        dec_val(s.drop_last()) * 10 + digit_val(s.last())
    }
}

/// An id path segment: a non-empty run of decimal digits whose value fits
/// an `i64`.
pub open spec fn spec_parse_id(s: Seq<char>) -> Option<int> {
    if s.len() > 0 && all_digits(s) && dec_val(s) <= i64::MAX {
        Some(dec_val(s))
    } else {
        None
    }
}

proof fn lemma_all_digits_take(s: Seq<char>, k: int)
    requires
        all_digits(s),
        0 <= k <= s.len(),
    ensures
        all_digits(s.take(k)),
{
    assert forall|j: int| 0 <= j < s.take(k).len() implies is_digit(#[trigger] s.take(k)[j]) by {
        assert(s.take(k)[j] == s[j]);
    }
}

proof fn lemma_dec_val_nonneg(s: Seq<char>)
    requires
        all_digits(s),
    ensures
        dec_val(s) >= 0,
    decreases s.len(),
{
    if s.len() > 0 {
        lemma_all_digits_take(s, s.len() - 1);
        assert(s.drop_last() =~= s.take(s.len() - 1));
        lemma_dec_val_nonneg(s.drop_last());
        assert(is_digit(s.last()));
    }
}

proof fn lemma_dec_val_take_succ(s: Seq<char>, k: int)
    requires
        0 <= k < s.len(),
    ensures
        dec_val(s.take(k + 1)) == dec_val(s.take(k)) * 10 + digit_val(s[k]),
{
    assert(s.take(k + 1).drop_last() =~= s.take(k));
    assert(s.take(k + 1).last() == s[k]);
}

proof fn lemma_dec_val_prefix(s: Seq<char>, k: int)
    requires
        all_digits(s),
        0 <= k <= s.len(),
    ensures
        dec_val(s) >= dec_val(s.take(k)),
    decreases s.len() - k,
{
    if k == s.len() {
        assert(s.take(k) =~= s);
    } else {
        lemma_dec_val_take_succ(s, k);
        lemma_all_digits_take(s, k);
        lemma_dec_val_nonneg(s.take(k));
        assert(is_digit(s[k]));
        assert(dec_val(s.take(k + 1)) >= dec_val(s.take(k)));
        lemma_dec_val_prefix(s, k + 1);
    }
}

/// Parses an id path segment, as [`spec_parse_id`] says: `Some` exactly on
/// a non-empty run of decimal digits whose value fits an `i64`, and then
/// that value.
pub fn parse_id(s: &str) -> (r: Option<i64>)
    ensures
        match r {
            Some(v) => spec_parse_id(s@) == Some(v as int),
            None => spec_parse_id(s@) is None,
        },
{
    let n = s.unicode_len();
    if n == 0 {
        return None;
    }
    let mut acc: i64 = 0;
    let mut i: usize = 0;
    proof {
        assert(s@.take(0) =~= Seq::<char>::empty());
    }
    while i < n
        invariant
            n == s@.len(),
            0 < n,
            i <= n,
            all_digits(s@.take(i as int)),
            0 <= acc,
            acc as int == dec_val(s@.take(i as int)),
        decreases n - i,
    {
        let c = s.get_char(i);
        let cv = c as u32;
        if cv < 48 || cv > 57 {
            proof {
                assert(!is_digit(s@[i as int]));
            }
            return None;
        }
        let d: i64 = (cv - 48) as i64;
        proof {
            assert(is_digit(s@[i as int]));
            assert(digit_val(s@[i as int]) == d as int);
        }
        if acc > 922_337_203_685_477_580i64 {
            proof {
                if all_digits(s@) {
                    lemma_dec_val_take_succ(s@, i as int);
                    lemma_dec_val_prefix(s@, i + 1);
                    assert(dec_val(s@) > i64::MAX);
                }
            }
            return None;
        }
        let tmp: i64 = acc * 10;
        if d > i64::MAX - tmp {
            proof {
                if all_digits(s@) {
                    lemma_dec_val_take_succ(s@, i as int);
                    lemma_dec_val_prefix(s@, i + 1);
                    assert(dec_val(s@) > i64::MAX);
                }
            }
            return None;
        }
        acc = tmp + d;
        proof {
            lemma_dec_val_take_succ(s@, i as int);
            assert forall|j: int| 0 <= j < s@.take(i + 1).len() implies is_digit(
                #[trigger] s@.take(i + 1)[j],
            ) by {
                if j < i {
                    assert(s@.take(i + 1)[j] == s@.take(i as int)[j]);
                } else {
                    assert(s@.take(i + 1)[j] == s@[i as int]);
                }
            }
        }
        i = i + 1;
    }
    proof {
        assert(s@.take(n as int) =~= s@);
    }
    Some(acc)
}

} // verus!
