//! The laws the service obeys, proved over the same spec functions its
//! contracts are stated with. Each law composes [`handle_spec`] the way a
//! client would compose requests.

use vstd::prelude::*;
use crate::handler::{handle_spec, todos_path, todos_prefix, Method};
use crate::json::{
    completed_or_false, esc_char, hex_digit, json_bool, json_escaped, json_of_todo, json_of_todos,
    json_string_of, key_completed, key_title, key_url, url_or_empty,
};
use crate::todo::TodoView;
use crate::parse::{
    chars_completed, chars_title, chars_url, hex4_val, hex_val, is_hex, is_ws, parse_str_rest,
    skip_ws, spec_parse_bool, spec_parse_fields, spec_parse_id, spec_parse_member,
    spec_parse_string, spec_parse_todo, MemberView,
};
use crate::store::{lemma_find_todo_fresh, store_wf, todos_of, StoreView};

verus! {

/// A character that stands for itself inside a JSON string.
spec fn plain_char(c: char) -> bool {
    c != '"' && c != '\\' && (c as int) >= 0x20
}

spec fn brace_open() -> char {
    '{'
}

spec fn brace_close() -> char {
    '}'
}

spec fn comma_char() -> char {
    ','
}

spec fn colon_char() -> char {
    ':'
}

proof fn lemma_escaped_front(s: Seq<char>)
    requires
        s.len() > 0,
    ensures
        json_escaped(s) == esc_char(s[0]) + json_escaped(s.drop_first()),
    decreases s.len(),
{
    if s.len() == 1 {
        assert(s.drop_last() =~= Seq::<char>::empty());
        assert(s.drop_first() =~= Seq::<char>::empty());
        assert(s.last() == s[0]);
        assert(json_escaped(s) =~= esc_char(s[0]) + json_escaped(s.drop_first()));
    } else {
        let d = s.drop_last();
        lemma_escaped_front(d);
        assert(d[0] == s[0]);
        assert(s.drop_first().drop_last() =~= d.drop_first());
        assert(s.drop_first().last() == s.last());
        assert(json_escaped(s.drop_first()) == json_escaped(d.drop_first()) + esc_char(s.last()));
        assert(json_escaped(s) =~= esc_char(s[0]) + json_escaped(s.drop_first()));
    }
}

proof fn lemma_escaped_plain(s: Seq<char>)
    requires
        forall|k: int| 0 <= k < s.len() ==> plain_char(#[trigger] s[k]),
    ensures
        json_escaped(s) == s,
    decreases s.len(),
{
    if s.len() > 0 {
        assert(plain_char(s.last()));
        assert forall|k: int| 0 <= k < s.drop_last().len() implies plain_char(
            #[trigger] s.drop_last()[k],
        ) by {
            assert(s.drop_last()[k] == s[k]);
        }
        lemma_escaped_plain(s.drop_last());
        assert(esc_char(s.last()) =~= seq![s.last()]);
        assert(json_escaped(s) =~= s);
    } else {
        assert(json_escaped(s) =~= s);
    }
}

proof fn lemma_hex_digit_props(v: int)
    requires
        0 <= v < 16,
    ensures
        is_hex(hex_digit(v)),
        hex_val(hex_digit(v)) == v,
{
}

proof fn lemma_skip_ws_none(ctx: Seq<char>, q: int)
    requires
        0 <= q <= ctx.len(),
        q < ctx.len() ==> !is_ws(ctx[q]),
    ensures
        skip_ws(ctx, q) == q,
{
}

proof fn lemma_parse_escaped(ctx: Seq<char>, i: int, s: Seq<char>, acc: Seq<char>, rest: Seq<char>)
    requires
        0 <= i <= ctx.len(),
        ctx.skip(i) == json_escaped(s) + seq!['"'] + rest,
    ensures
        parse_str_rest(ctx, i, acc) == Some((acc + s, i + json_escaped(s).len() + 1)),
    decreases s.len(),
{
    broadcast use vstd::seq::axiom_seq_subrange_len, vstd::seq::axiom_seq_subrange_index, vstd::seq::axiom_seq_add_len, vstd::seq::axiom_seq_add_index1, vstd::seq::axiom_seq_add_index2;
    assert(ctx.skip(i).len() == ctx.len() - i);
    if s.len() == 0 {
        assert(ctx.skip(i)[0] == ctx[i]);
        assert(ctx[i] == '"');
        assert(acc + s =~= acc);
    } else {
        lemma_escaped_front(s);
        let c = s[0];
        let e0 = esc_char(c);
        let s1 = s.drop_first();
        let tail1 = json_escaped(s1) + seq!['"'] + rest;
        assert(ctx.skip(i) =~= e0 + tail1);
        assert(e0.len() + tail1.len() == ctx.len() - i);
        assert(ctx.skip(i)[0] == ctx[i]);
        assert((e0 + tail1)[0] == e0[0]);
        if e0.len() >= 2 {
            assert(ctx.skip(i)[1] == ctx[i + 1]);
            assert((e0 + tail1)[1] == e0[1]);
        }
        if e0.len() >= 6 {
            assert(ctx.skip(i)[2] == ctx[i + 2]);
            assert((e0 + tail1)[2] == e0[2]);
            assert(ctx.skip(i)[3] == ctx[i + 3]);
            assert((e0 + tail1)[3] == e0[3]);
            assert(ctx.skip(i)[4] == ctx[i + 4]);
            assert((e0 + tail1)[4] == e0[4]);
            assert(ctx.skip(i)[5] == ctx[i + 5]);
            assert((e0 + tail1)[5] == e0[5]);
        }
        assert(ctx.skip(i + e0.len()) =~= tail1) by {
            assert(forall|k: int|
                0 <= k < tail1.len() ==> #[trigger] ctx.skip(i + e0.len())[k] == ctx.skip(i)[
                    k + e0.len()
                ]);
        }
        if c == '"' {
            lemma_parse_escaped(ctx, i + 2, s1, acc.push('"'), rest);
            assert(acc.push('"') + s1 =~= acc + s);
        } else if c == '\\' {
            lemma_parse_escaped(ctx, i + 2, s1, acc.push('\\'), rest);
            assert(acc.push('\\') + s1 =~= acc + s);
        } else if c == '\u{8}' {
            lemma_parse_escaped(ctx, i + 2, s1, acc.push('\u{8}'), rest);
            assert(acc.push('\u{8}') + s1 =~= acc + s);
        } else if c == '\u{c}' {
            lemma_parse_escaped(ctx, i + 2, s1, acc.push('\u{c}'), rest);
            assert(acc.push('\u{c}') + s1 =~= acc + s);
        } else if c == '\n' {
            lemma_parse_escaped(ctx, i + 2, s1, acc.push('\n'), rest);
            assert(acc.push('\n') + s1 =~= acc + s);
        } else if c == '\r' {
            lemma_parse_escaped(ctx, i + 2, s1, acc.push('\r'), rest);
            assert(acc.push('\r') + s1 =~= acc + s);
        } else if c == '\t' {
            lemma_parse_escaped(ctx, i + 2, s1, acc.push('\t'), rest);
            assert(acc.push('\t') + s1 =~= acc + s);
        } else if (c as int) < 0x20 {
            let v = c as int;
            vstd::utf8::char_is_scalar(c);
            vstd::utf8::char_u32_cast(c, c as u32);
            assert(0 <= v < 0x20);
            lemma_hex_digit_props(v / 16);
            lemma_hex_digit_props(v % 16);
            assert(hex_val('0') == 0);
            assert((v / 16) * 16 + v % 16 == v);
            assert(hex4_val(ctx, i + 2) == v);
            assert((v as char) == c);
            lemma_parse_escaped(ctx, i + 6, s1, acc.push(c), rest);
            assert(acc.push(c) + s1 =~= acc + s);
        } else {
            assert(ctx[i] == c);
            lemma_parse_escaped(ctx, i + 1, s1, acc.push(c), rest);
            assert(acc.push(c) + s1 =~= acc + s);
        }
    }
}

proof fn lemma_parse_json_string(ctx: Seq<char>, i: int, s: Seq<char>, rest: Seq<char>)
    requires
        0 <= i <= ctx.len(),
        ctx.skip(i) == json_string_of(s) + rest,
    ensures
        spec_parse_string(ctx, i) == Some((s, i + json_string_of(s).len())),
{
    broadcast use vstd::seq::axiom_seq_subrange_len, vstd::seq::axiom_seq_subrange_index, vstd::seq::axiom_seq_add_len, vstd::seq::axiom_seq_add_index1, vstd::seq::axiom_seq_add_index2;
    assert(ctx.skip(i).len() == ctx.len() - i);
    assert(ctx.skip(i)[0] == ctx[i]);
    assert(ctx[i] == '"');
    let tail1 = json_escaped(s) + seq!['"'] + rest;
    assert(ctx.skip(i + 1) =~= tail1) by {
        assert(forall|k: int|
            0 <= k < tail1.len() ==> #[trigger] ctx.skip(i + 1)[k] == ctx.skip(i)[k + 1]);
    }
    lemma_parse_escaped(ctx, i + 1, s, Seq::<char>::empty(), rest);
    assert(Seq::<char>::empty() + s =~= s);
}

proof fn lemma_parse_bool_at(ctx: Seq<char>, q: int, b: bool, rest: Seq<char>)
    requires
        0 <= q <= ctx.len(),
        ctx.skip(q) == json_bool(b) + rest,
    ensures
        spec_parse_bool(ctx, q) == Some((b, q + json_bool(b).len())),
{
    broadcast use vstd::seq::axiom_seq_subrange_len, vstd::seq::axiom_seq_subrange_index, vstd::seq::axiom_seq_add_len, vstd::seq::axiom_seq_add_index1, vstd::seq::axiom_seq_add_index2;

    let jb = json_bool(b);
    assert(ctx.skip(q).len() == ctx.len() - q);
    assert(ctx.skip(q)[0] == ctx[q]);
    assert((jb + rest)[0] == jb[0]);
    assert(ctx.skip(q)[1] == ctx[q + 1]);
    assert((jb + rest)[1] == jb[1]);
    assert(ctx.skip(q)[2] == ctx[q + 2]);
    assert((jb + rest)[2] == jb[2]);
    assert(ctx.skip(q)[3] == ctx[q + 3]);
    assert((jb + rest)[3] == jb[3]);
    if !b {
        assert(ctx.skip(q)[4] == ctx[q + 4]);
        assert((jb + rest)[4] == jb[4]);
    }
}

proof fn lemma_skip_concat(ctx: Seq<char>, q: int, a: Seq<char>, b: Seq<char>)
    requires
        0 <= q <= ctx.len(),
        ctx.skip(q) == a + b,
    ensures
        ctx.skip(q + a.len()) == b,
        q + a.len() <= ctx.len(),
{
    broadcast use vstd::seq::axiom_seq_subrange_len, vstd::seq::axiom_seq_subrange_index, vstd::seq::axiom_seq_add_len, vstd::seq::axiom_seq_add_index1, vstd::seq::axiom_seq_add_index2;
    assert(ctx.skip(q).len() == ctx.len() - q);
    assert forall|k: int| 0 <= k < b.len() implies ctx.skip(q + a.len())[k] == b[k] by {
        assert(ctx.skip(q)[a.len() + k] == ctx[q + a.len() + k]);
        assert(ctx.skip(q + a.len())[k] == ctx[q + a.len() + k]);
        assert((a + b)[a.len() + k] == b[k]);
    }
    assert(ctx.skip(q + a.len()) =~= b);
}

proof fn lemma_head_char(ctx: Seq<char>, q: int, a: Seq<char>, b: Seq<char>)
    requires
        0 <= q <= ctx.len(),
        ctx.skip(q) == a + b,
        a.len() > 0,
    ensures
        ctx[q] == a[0],
        q < ctx.len(),
{
    broadcast use vstd::seq::axiom_seq_subrange_len, vstd::seq::axiom_seq_subrange_index, vstd::seq::axiom_seq_add_len, vstd::seq::axiom_seq_add_index1, vstd::seq::axiom_seq_add_index2;
    assert(ctx.skip(q).len() == ctx.len() - q);
    assert(ctx.skip(q)[0] == ctx[q]);
    assert((a + b)[0] == a[0]);
}

/// The encoding of a todo, regrouped so that each token heads its own
/// segment.
#[verifier::rlimit(100)]
proof fn lemma_encoding_regrouped(t: TodoView)
    ensures
        json_of_todo(t) == seq!['{'] + (json_string_of(chars_completed()) + (seq![':'] + (
        json_bool(completed_or_false(t.completed)) + (seq![','] + (json_string_of(chars_title())
            + (seq![':'] + (json_string_of(t.title) + (seq![','] + (json_string_of(chars_url())
            + (seq![':'] + (json_string_of(url_or_empty(t.url)) + seq!['}']))))))))))),
{
    broadcast use vstd::seq::axiom_seq_subrange_len, vstd::seq::axiom_seq_subrange_index, vstd::seq::axiom_seq_add_len, vstd::seq::axiom_seq_add_index1, vstd::seq::axiom_seq_add_index2;
    let cc = chars_completed();
    let ct = chars_title();
    let cu = chars_url();
    assert forall|k: int| 0 <= k < cc.len() implies plain_char(#[trigger] cc[k]) by {}
    lemma_escaped_plain(cc);
    assert forall|k: int| 0 <= k < ct.len() implies plain_char(#[trigger] ct[k]) by {}
    lemma_escaped_plain(ct);
    assert forall|k: int| 0 <= k < cu.len() implies plain_char(#[trigger] cu[k]) by {}
    lemma_escaped_plain(cu);
    assert(key_completed() =~= json_string_of(cc) + seq![':']);
    assert(key_title() =~= json_string_of(ct) + seq![':']);
    assert(key_url() =~= json_string_of(cu) + seq![':']);
    assert(json_of_todo(t) =~= seq!['{'] + (json_string_of(cc) + (seq![':'] + (json_bool(
        completed_or_false(t.completed),
    ) + (seq![','] + (json_string_of(ct) + (seq![':'] + (json_string_of(t.title) + (seq![','] + (
    json_string_of(cu) + (seq![':'] + (json_string_of(url_or_empty(t.url)) + seq!['}']))))))))))));
}

/// Where each token of an encoded todo stands, and what parses there.
#[verifier::rlimit(100)]
proof fn lemma_tokens(t: TodoView)
    ensures
        ({
            let ctx = json_of_todo(t);
            let cb = completed_or_false(t.completed);
            let us = url_or_empty(t.url);
            let q1 = 1int;
            let q2: int = q1 + json_string_of(chars_completed()).len() as int;
            let q3: int = q2 + 1;
            let q4: int = q3 + json_bool(cb).len() as int;
            let q5: int = q4 + 1;
            let q6: int = q5 + json_string_of(chars_title()).len() as int;
            let q7: int = q6 + 1;
            let q8: int = q7 + json_string_of(t.title).len() as int;
            let q9: int = q8 + 1;
            let q10: int = q9 + json_string_of(chars_url()).len() as int;
            let q11: int = q10 + 1;
            let q12: int = q11 + json_string_of(us).len() as int;
            &&& ctx.len() == q12 + 1
            &&& ctx[0] == brace_open() && skip_ws(ctx, 0) == 0
            &&& skip_ws(ctx, q1) == q1 && spec_parse_string(ctx, q1) == Some(
                (chars_completed(), q2),
            )
            &&& skip_ws(ctx, q2) == q2 && ctx[q2] == colon_char()
            &&& skip_ws(ctx, q3) == q3 && spec_parse_bool(ctx, q3) == Some((cb, q4))
            &&& skip_ws(ctx, q4) == q4 && ctx[q4] == comma_char()
            &&& skip_ws(ctx, q5) == q5 && spec_parse_string(ctx, q5) == Some((chars_title(), q6))
            &&& skip_ws(ctx, q6) == q6 && ctx[q6] == colon_char()
            &&& skip_ws(ctx, q7) == q7 && spec_parse_string(ctx, q7) == Some((t.title, q8))
            &&& skip_ws(ctx, q8) == q8 && ctx[q8] == comma_char()
            &&& skip_ws(ctx, q9) == q9 && spec_parse_string(ctx, q9) == Some((chars_url(), q10))
            &&& skip_ws(ctx, q10) == q10 && ctx[q10] == colon_char()
            &&& skip_ws(ctx, q11) == q11 && spec_parse_string(ctx, q11) == Some((us, q12))
            &&& skip_ws(ctx, q12) == q12 && ctx[q12] == brace_close()
            &&& skip_ws(ctx, q12 + 1) == q12 + 1
        }),
{
    broadcast use vstd::seq::axiom_seq_subrange_len, vstd::seq::axiom_seq_subrange_index, vstd::seq::axiom_seq_add_len, vstd::seq::axiom_seq_add_index1, vstd::seq::axiom_seq_add_index2;
    let ctx = json_of_todo(t);
    let cb = completed_or_false(t.completed);
    let us = url_or_empty(t.url);
    let q1 = 1int;
    let q2: int = q1 + json_string_of(chars_completed()).len() as int;
    let q3: int = q2 + 1;
    let q4: int = q3 + json_bool(cb).len() as int;
    let q5: int = q4 + 1;
    let q6: int = q5 + json_string_of(chars_title()).len() as int;
    let q7: int = q6 + 1;
    let q8: int = q7 + json_string_of(t.title).len() as int;
    let q9: int = q8 + 1;
    let q10: int = q9 + json_string_of(chars_url()).len() as int;
    let q11: int = q10 + 1;
    let q12: int = q11 + json_string_of(us).len() as int;
    let cc = chars_completed();
    let ct = chars_title();
    let cu = chars_url();
    let jb = json_bool(cb);
    let jt = json_string_of(t.title);
    let ju = json_string_of(us);
    let jc = json_string_of(cc);
    let jkt = json_string_of(ct);
    let jku = json_string_of(cu);
    lemma_encoding_regrouped(t);
    let r12: Seq<char> = ju + seq!['}'];
    let r11: Seq<char> = seq![':'] + r12;
    let r10: Seq<char> = jku + r11;
    let r9: Seq<char> = seq![','] + r10;
    let r8: Seq<char> = jt + r9;
    let r7: Seq<char> = seq![':'] + r8;
    let r6: Seq<char> = jkt + r7;
    let r5: Seq<char> = seq![','] + r6;
    let r4: Seq<char> = jb + r5;
    let r3: Seq<char> = seq![':'] + r4;
    let r2: Seq<char> = jc + r3;
    assert(ctx == seq!['{'] + r2);
    assert(ctx.skip(0) =~= seq!['{'] + r2);
    lemma_head_char(ctx, 0, seq!['{'], r2);
    lemma_skip_concat(ctx, 0, seq!['{'], r2);
    lemma_head_char(ctx, q1, jc, r3);
    lemma_parse_json_string(ctx, q1, cc, r3);
    lemma_skip_concat(ctx, q1, jc, r3);
    lemma_head_char(ctx, q2, seq![':'], r4);
    lemma_skip_concat(ctx, q2, seq![':'], r4);
    lemma_head_char(ctx, q3, jb, r5);
    lemma_parse_bool_at(ctx, q3, cb, r5);
    lemma_skip_concat(ctx, q3, jb, r5);
    lemma_head_char(ctx, q4, seq![','], r6);
    lemma_skip_concat(ctx, q4, seq![','], r6);
    lemma_head_char(ctx, q5, jkt, r7);
    lemma_parse_json_string(ctx, q5, ct, r7);
    lemma_skip_concat(ctx, q5, jkt, r7);
    lemma_head_char(ctx, q6, seq![':'], r8);
    lemma_skip_concat(ctx, q6, seq![':'], r8);
    lemma_head_char(ctx, q7, jt, r9);
    lemma_parse_json_string(ctx, q7, t.title, r9);
    lemma_skip_concat(ctx, q7, jt, r9);
    lemma_head_char(ctx, q8, seq![','], r10);
    lemma_skip_concat(ctx, q8, seq![','], r10);
    lemma_head_char(ctx, q9, jku, r11);
    lemma_parse_json_string(ctx, q9, cu, r11);
    lemma_skip_concat(ctx, q9, jku, r11);
    lemma_head_char(ctx, q10, seq![':'], r12);
    lemma_skip_concat(ctx, q10, seq![':'], r12);
    lemma_head_char(ctx, q11, ju, seq!['}']);
    lemma_parse_json_string(ctx, q11, us, seq!['}']);
    lemma_skip_concat(ctx, q11, ju, seq!['}']);
    assert(ctx.skip(q12) == seq!['}'] + Seq::<char>::empty()) by {
        assert(seq!['}'] + Seq::<char>::empty() =~= seq!['}']);
    }
    lemma_head_char(ctx, q12, seq!['}'], Seq::<char>::empty());
    lemma_skip_concat(ctx, q12, seq!['}'], Seq::<char>::empty());
    assert(ctx.skip(q12 + 1).len() == ctx.len() - (q12 + 1));
    assert(ctx.len() == q12 + 1);
    assert(jc[0] == '"' && jkt[0] == '"' && jku[0] == '"' && jt[0] == '"' && ju[0] == '"');
    assert(jb[0] == 't' || jb[0] == 'f');
    lemma_skip_ws_none(ctx, 0);
    lemma_skip_ws_none(ctx, q1);
    lemma_skip_ws_none(ctx, q2);
    lemma_skip_ws_none(ctx, q3);
    lemma_skip_ws_none(ctx, q4);
    lemma_skip_ws_none(ctx, q5);
    lemma_skip_ws_none(ctx, q6);
    lemma_skip_ws_none(ctx, q7);
    lemma_skip_ws_none(ctx, q8);
    lemma_skip_ws_none(ctx, q9);
    lemma_skip_ws_none(ctx, q10);
    lemma_skip_ws_none(ctx, q11);
    lemma_skip_ws_none(ctx, q12);
    lemma_skip_ws_none(ctx, q12 + 1);
}

/// Each member of an encoded todo parses back, at its position in the
/// encoding, to the field it came from.
#[verifier::rlimit(100)]
proof fn lemma_members_parsed(t: TodoView)
    ensures
        ({
            let ctx = json_of_todo(t);
            let cb = completed_or_false(t.completed);
            let us = url_or_empty(t.url);
            let q1 = 1int;
            let q2: int = q1 + json_string_of(chars_completed()).len() as int;
            let q3: int = q2 + 1;
            let q4: int = q3 + json_bool(cb).len() as int;
            let q5: int = q4 + 1;
            let q6: int = q5 + json_string_of(chars_title()).len() as int;
            let q7: int = q6 + 1;
            let q8: int = q7 + json_string_of(t.title).len() as int;
            let q9: int = q8 + 1;
            let q10: int = q9 + json_string_of(chars_url()).len() as int;
            let q11: int = q10 + 1;
            let q12: int = q11 + json_string_of(us).len() as int;
            &&& ctx.len() == q12 + 1
            &&& ctx[0] == brace_open()
            &&& skip_ws(ctx, 0) == 0
            &&& spec_parse_member(ctx, q1) == Some((MemberView::Completed(Some(cb)), q4))
            &&& spec_parse_member(ctx, q5) == Some((MemberView::Title(t.title), q8))
            &&& spec_parse_member(ctx, q9) == Some((MemberView::Url(Some(us)), q12))
            &&& skip_ws(ctx, q4) == q4 && ctx[q4] == comma_char()
            &&& skip_ws(ctx, q8) == q8 && ctx[q8] == comma_char()
            &&& skip_ws(ctx, q12) == q12 && ctx[q12] == brace_close()
            &&& skip_ws(ctx, q12 + 1) == q12 + 1
        }),
{
    broadcast use vstd::seq::axiom_seq_subrange_len, vstd::seq::axiom_seq_subrange_index, vstd::seq::axiom_seq_add_len, vstd::seq::axiom_seq_add_index1, vstd::seq::axiom_seq_add_index2;
    let ctx = json_of_todo(t);
    let cb = completed_or_false(t.completed);
    let us = url_or_empty(t.url);
    let q1 = 1int;
    let q2: int = q1 + json_string_of(chars_completed()).len() as int;
    let q3: int = q2 + 1;
    let q4: int = q3 + json_bool(cb).len() as int;
    let q5: int = q4 + 1;
    let q6: int = q5 + json_string_of(chars_title()).len() as int;
    let q7: int = q6 + 1;
    let q8: int = q7 + json_string_of(t.title).len() as int;
    let q9: int = q8 + 1;
    let q10: int = q9 + json_string_of(chars_url()).len() as int;
    let q11: int = q10 + 1;
    let q12: int = q11 + json_string_of(us).len() as int;
    lemma_tokens(t);
    assert(spec_parse_member(ctx, q1) == Some((MemberView::Completed(Some(cb)), q4)));
    assert(spec_parse_member(ctx, q5) == Some((MemberView::Title(t.title), q8)));
    assert(spec_parse_member(ctx, q9) == Some((MemberView::Url(Some(us)), q12)));
}

/// Decoding an encoded todo gives back that todo with the storage
/// defaults applied: parsing `json_of_todo(t)` as a create body succeeds
/// and yields `t` with `completed` and `url` made explicit. The codec
/// loses nothing a client can observe.
#[verifier::rlimit(100)]
pub proof fn decode_after_encode(t: TodoView)
    ensures
        spec_parse_todo(json_of_todo(t)) == Some(
            TodoView {
                title: t.title,
                completed: Some(completed_or_false(t.completed)),
                url: Some(url_or_empty(t.url)),
            },
        ),
{
    broadcast use vstd::seq::axiom_seq_subrange_len, vstd::seq::axiom_seq_subrange_index, vstd::seq::axiom_seq_add_len, vstd::seq::axiom_seq_add_index1, vstd::seq::axiom_seq_add_index2;
    let ctx = json_of_todo(t);
    let cb = completed_or_false(t.completed);
    let us = url_or_empty(t.url);
    let q1 = 1int;
    let q2: int = q1 + json_string_of(chars_completed()).len() as int;
    let q3: int = q2 + 1;
    let q4: int = q3 + json_bool(cb).len() as int;
    let q5: int = q4 + 1;
    let q6: int = q5 + json_string_of(chars_title()).len() as int;
    let q7: int = q6 + 1;
    let q8: int = q7 + json_string_of(t.title).len() as int;
    let q9: int = q8 + 1;
    let q10: int = q9 + json_string_of(chars_url()).len() as int;
    let q11: int = q10 + 1;
    let q12: int = q11 + json_string_of(us).len() as int;
    lemma_members_parsed(t);
    let tv = TodoView { title: t.title, completed: Some(cb), url: Some(us) };
    assert(spec_parse_fields(ctx, q9, Some(t.title), Some(Some(cb)), None) == Some((tv, q12 + 1)));
    assert(spec_parse_fields(ctx, q5, None, Some(Some(cb)), None) == Some((tv, q12 + 1)));
    assert(spec_parse_fields(ctx, q1, None, None, None) == Some((tv, q12 + 1)));
    assert(spec_parse_todo(ctx) == Some(tv));
}

/// Creating a todo and then listing todos yields a listing that includes
/// an entry with the created title: the create succeeds, the listing is
/// the JSON array of the rows left by the create, and one of those rows
/// carries the submitted title.
pub proof fn create_then_list_includes_title(st: StoreView, body: Seq<char>, tv: TodoView)
    requires
        store_wf(st),
        spec_parse_todo(body) == Some(tv),
        st.next_id < i64::MAX,
    ensures
        ({
            let o1 = handle_spec(st, Method::Post, todos_path(), body);
            let st1 = StoreView { rows: o1.rows, next_id: o1.next_id };
            let o2 = handle_spec(st1, Method::Get, todos_path(), Seq::<char>::empty());
            &&& o1.status == 200
            &&& o2.status == 200
            &&& o2.body == json_of_todos(todos_of(o1.rows))
            &&& exists|k: int|
                0 <= k < todos_of(o1.rows).len() && (#[trigger] todos_of(o1.rows)[k]).title
                    == tv.title
        }),
{
    let o1 = handle_spec(st, Method::Post, todos_path(), body);
    assert(todos_of(o1.rows)[st.rows.len() as int].title == tv.title);
}

/// Truncating and then listing yields the empty JSON array.
pub proof fn truncate_then_list_is_empty(st: StoreView)
    ensures
        ({
            let o1 = handle_spec(st, Method::Delete, todos_path(), Seq::<char>::empty());
            let st1 = StoreView { rows: o1.rows, next_id: o1.next_id };
            let o2 = handle_spec(st1, Method::Get, todos_path(), Seq::<char>::empty());
            &&& o1.status == 200
            &&& o1.body == Seq::<char>::empty()
            &&& o2.status == 200
            &&& o2.body == seq!['[', ']']
        }),
{
    let o1 = handle_spec(st, Method::Delete, todos_path(), Seq::<char>::empty());
    assert(todos_of(o1.rows) =~= Seq::<TodoView>::empty());
    assert(json_of_todos(todos_of(o1.rows)) =~= seq!['[', ']']);
}

/// Fetching a freshly created id yields exactly the created todo: after a
/// create, a `GET` under the path that spells the id the create assigned
/// answers that todo's JSON object — so in particular its `title` matches
/// what was submitted.
pub proof fn create_then_get_by_id(st: StoreView, body: Seq<char>, tv: TodoView, seg: Seq<char>)
    requires
        store_wf(st),
        spec_parse_todo(body) == Some(tv),
        st.next_id < i64::MAX,
        spec_parse_id(seg) == Some(st.next_id),
    ensures
        ({
            let o1 = handle_spec(st, Method::Post, todos_path(), body);
            let st1 = StoreView { rows: o1.rows, next_id: o1.next_id };
            let o2 = handle_spec(st1, Method::Get, todos_prefix() + seg, Seq::<char>::empty());
            &&& o1.status == 200
            &&& o2.status == 200
            &&& o2.body == json_of_todo(tv)
        }),
{
    let o1 = handle_spec(st, Method::Post, todos_path(), body);
    let st1 = StoreView { rows: o1.rows, next_id: o1.next_id };
    let path = todos_prefix() + seg;
    assert(seg.len() > 0);
    assert(path.len() >= 7);
    assert(path.take(7) =~= todos_prefix());
    assert(path.skip(7) =~= seg);
    assert(forall|k: int| 0 <= k < st.rows.len() ==> (#[trigger] st.rows[k]).id != st.next_id);
    lemma_find_todo_fresh(st.rows, st.next_id, tv);
}

/// A todo stored without a completion flag serializes exactly as one
/// stored with the flag explicitly `false`: the default is applied at
/// serialization time.
pub proof fn omitted_completed_serializes_false(t: TodoView)
    requires
        t.completed is None,
    ensures
        json_of_todo(t) == json_of_todo(
            TodoView { title: t.title, completed: Some(false), url: t.url },
        ),
{
}

} // verus!
