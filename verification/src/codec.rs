//! Encoding and decoding of the client's wire shapes: a task definition as
//! `{"name": ...}`, a list of task definitions as a JSON array of those
//! objects, and the server's structured error body.
//!
//! Decoding follows the usual lenient-object convention: unknown members are
//! skipped whatever their value, a recognized member appearing twice is an
//! error, a missing optional member reads as absent, and a missing required
//! member fails the whole decode.

use vstd::prelude::*;
use vstd::utf8::{decode_utf8, valid_utf8};

use crate::error::{Error, Kind};
use crate::json::{
    chars_eq_str, is_digit, match_lit, parse_string, skip_value, skip_ws, spec_digits_end,
    spec_digits_val_u16, spec_escape, spec_match_lit, spec_parse_string,
    spec_parse_string_body, spec_skip_value,
    spec_skip_ws, digits_end, digits_val_u16, push_escaped,
};
use crate::response::{
    opt_view, ErrorResponse, ErrorResponseView, ValidationError, ValidationErrorView,
};
use crate::task::TaskDef;
use crate::text::{chars_string, push_str_chars, str_chars};

verus! {

// ---------------------------------------------------------------------------
// Encoding.
// ---------------------------------------------------------------------------

/// The JSON object a task definition encodes to: exactly one member,
/// `"name"`, holding the escaped name.
pub open spec fn spec_encode_task_def(name: Seq<char>) -> Seq<char> {
    "{\"name\":\""@ + spec_escape(name) + "\"}"@
}

/// The comma-separated object list inside the encoded array, in input
/// order, one object per name.
pub open spec fn spec_join_task_defs(names: Seq<Seq<char>>) -> Seq<char>
    decreases names.len(),
{
    if names.len() == 0 {
        Seq::empty()
    } else if names.len() == 1 {
        spec_encode_task_def(names[0])
    } else {
        spec_join_task_defs(names.drop_last()) + ","@ + spec_encode_task_def(names.last())
    }
}

/// The JSON array a list of task definitions encodes to: one object per
/// definition, in input order.
pub open spec fn spec_encode_task_defs(names: Seq<Seq<char>>) -> Seq<char> {
    "["@ + spec_join_task_defs(names) + "]"@
}

fn push_task_def(out: &mut Vec<char>, def: &TaskDef)
    ensures
        final(out)@ == old(out)@ + spec_encode_task_def(def@),
{
    push_str_chars(out, "{\"name\":\"");
    push_escaped(out, def.name());
    push_str_chars(out, "\"}");
}

/// Encodes one task definition as `{"name":"..."}`.
pub fn encode_task_def(def: &TaskDef) -> (r: String)
    ensures
        r@ == spec_encode_task_def(def@),
{
    let mut out: Vec<char> = Vec::new();
    push_task_def(&mut out, def);
    chars_string(&out)
}

/// Encodes a list of task definitions as one JSON array, one object per
/// definition, in input order.
pub fn encode_task_defs(defs: &Vec<TaskDef>) -> (r: String)
    ensures
        r@ == spec_encode_task_defs(defs@.map_values(|d: TaskDef| d@)),
{
    let ghost names = defs@.map_values(|d: TaskDef| d@);
    let mut out: Vec<char> = Vec::new();
    push_str_chars(&mut out, "[");
    let mut i: usize = 0;
    while i < defs.len()
        invariant
            i <= defs.len(),
            names == defs@.map_values(|d: TaskDef| d@),
            names.len() == defs@.len(),
            out@ == "["@ + spec_join_task_defs(names.take(i as int)),
        decreases defs.len() - i,
    {
        if i > 0 {
            push_str_chars(&mut out, ",");
        }
        push_task_def(&mut out, &defs[i]);
        proof {
            let pre = names.take(i as int);
            let cur = names.take(i + 1);
            assert(cur.drop_last() =~= pre);
            assert(cur.last() == names[i as int]);
            assert(out@ =~= "["@ + spec_join_task_defs(cur));
        }
        i = i + 1;
    }
    proof {
        assert(names.take(names.len() as int) =~= names);
    }
    push_str_chars(&mut out, "]");
    chars_string(&out)
}

// ---------------------------------------------------------------------------
// Decoding a task definition.
// ---------------------------------------------------------------------------

/// Walks an object's members from the first key, remembering the value of
/// the `"name"` member. A second `"name"` member is an error; other members
/// are skipped. Gives the remembered name and the position after `}`.
pub open spec fn spec_task_def_members(s: Seq<char>, i: int, acc: Option<Seq<char>>) -> Option<
    (Option<Seq<char>>, int),
>
    decreases s.len() - i,
{
    match spec_parse_string(s, i) {
        None => None,
        Some((key, k)) => {
            let m = spec_skip_ws(s, k);
            if m < s.len() && s[m] == ':' {
                let n = spec_skip_ws(s, m + 1);
                let step: Option<(Option<Seq<char>>, int)> = if key == "name"@ {
                    if acc is Some {
                        None
                    } else {
                        match spec_parse_string(s, n) {
                            None => None,
                            Some((val, p)) => Some((Some(val), p)),
                        }
                    }
                } else {
                    match spec_skip_value(s, n) {
                        None => None,
                        Some(p) => Some((acc, p)),
                    }
                };
                match step {
                    None => None,
                    Some((acc2, p)) => {
                        let q = spec_skip_ws(s, p);
                        if q < s.len() && s[q] == ',' {
                            let r2 = spec_skip_ws(s, q + 1);
                            if i < r2 <= s.len() {
                                spec_task_def_members(s, r2, acc2)
                            } else {
                                None
                            }
                        } else if q < s.len() && s[q] == '}' {
                            Some((acc2, q + 1))
                        } else {
                            None
                        }
                    },
                }
            } else {
                None
            }
        },
    }
}

/// The name a task definition object starting at `i` yields, and the
/// position after its closing brace: an object whose `"name"` member holds
/// a string; unknown members are ignored; an object without a `"name"`
/// yields nothing.
pub open spec fn spec_task_def_object(s: Seq<char>, i: int) -> Option<(Seq<char>, int)> {
    if 0 <= i < s.len() && s[i] == '{' {
        let j = spec_skip_ws(s, i + 1);
        if j < s.len() && s[j] == '}' {
            None
        } else {
            match spec_task_def_members(s, j, None) {
                None => None,
                Some((acc, p)) => match acc {
                    Some(name) => Some((name, p)),
                    None => None,
                },
            }
        }
    } else {
        None
    }
}

/// The name a complete JSON document yields when read as a task definition:
/// one task definition object and nothing else but whitespace around it.
pub open spec fn spec_parse_task_def(s: Seq<char>) -> Option<Seq<char>> {
    match spec_task_def_object(s, spec_skip_ws(s, 0)) {
        None => None,
        Some((name, p)) => if spec_skip_ws(s, p) == s.len() {
            Some(name)
        } else {
            None
        },
    }
}

/// A task definition object standing inside a larger text scans to exactly
/// its name: when the encoded form of `name` occupies `s` from `i`, the
/// object scanner yields the name and ends just after the closing brace.
proof fn lemma_task_def_object_parses(s: Seq<char>, i: int, name: Seq<char>)
    requires
        0 <= i,
        i + spec_encode_task_def(name).len() <= s.len(),
        s.subrange(i, i + spec_encode_task_def(name).len() as int) == spec_encode_task_def(name),
    ensures
        s[i] == '{',
        spec_task_def_object(s, i) == Some((name, i + spec_encode_task_def(name).len())),
{
    reveal_strlit("{\"name\":\"");
    reveal_strlit("\"}");
    reveal_strlit("name");
    let pre = "{\"name\":\""@;
    let post = "\"}"@;
    let e = spec_escape(name);
    let el = e.len() as int;
    let o = spec_encode_task_def(name);
    let ol = o.len() as int;
    assert(pre.len() == 9);
    assert(post.len() == 2);
    assert(o == (pre + e) + post);
    assert(ol == 11 + el);
    assert forall|k: int| 0 <= k < ol implies s[i + k] == o[k] by {
        assert(s.subrange(i, i + ol)[k] == s[i + k]);
    }
    assert forall|k: int| 0 <= k < 9 implies o[k] == pre[k] by {
        assert(((pre + e) + post)[k] == (pre + e)[k]);
        assert((pre + e)[k] == pre[k]);
    }
    assert(o[0] == pre[0] && o[1] == pre[1] && o[2] == pre[2] && o[3] == pre[3] && o[4] == pre[4]
        && o[5] == pre[5] && o[6] == pre[6] && o[7] == pre[7] && o[8] == pre[8]);
    assert(s[i + 0] == o[0] && s[i + 1] == o[1] && s[i + 2] == o[2] && s[i + 3] == o[3] && s[i + 4]
        == o[4] && s[i + 5] == o[5] && s[i + 6] == o[6] && s[i + 7] == o[7] && s[i + 8] == o[8]);
    assert(s[i + 0] == '{' && s[i + 1] == '"' && s[i + 2] == 'n' && s[i + 3] == 'a' && s[i + 4]
        == 'm' && s[i + 5] == 'e' && s[i + 6] == '"' && s[i + 7] == ':' && s[i + 8] == '"');
    // the escaped name sits at offset nine, the closing quote and brace after
    assert forall|k: int| 0 <= k < el implies s.subrange(i + 9, i + 9 + el)[k] == e[k] by {
        assert(((pre + e) + post)[9 + k] == (pre + e)[9 + k]);
        assert((pre + e)[9 + k] == e[k]);
        assert(s[i + (9 + k)] == o[9 + k]);
        assert(s.subrange(i + 9, i + 9 + el)[k] == s[i + 9 + k]);
    }
    assert(s.subrange(i + 9, i + 9 + el) =~= e);
    assert(o[9 + el] == post[0] && o[10 + el] == post[1]) by {
        assert(((pre + e) + post)[9 + el] == post[0]);
        assert(((pre + e) + post)[10 + el] == post[1]);
    }
    assert(s[i + (9 + el)] == o[9 + el]);
    assert(s[i + (10 + el)] == o[10 + el]);
    // the key
    assert(spec_parse_string_body(s, i + 6) == Some((Seq::<char>::empty(), i + 7)));
    assert(seq!['e'] + Seq::<char>::empty() =~= seq!['e']);
    assert(spec_parse_string_body(s, i + 5) == Some((seq!['e'], i + 7)));
    assert(seq!['m'] + seq!['e'] =~= seq!['m', 'e']);
    assert(spec_parse_string_body(s, i + 4) == Some((seq!['m', 'e'], i + 7)));
    assert(seq!['a'] + seq!['m', 'e'] =~= seq!['a', 'm', 'e']);
    assert(spec_parse_string_body(s, i + 3) == Some((seq!['a', 'm', 'e'], i + 7)));
    assert(seq!['n'] + seq!['a', 'm', 'e'] =~= seq!['n', 'a', 'm', 'e']);
    assert(spec_parse_string_body(s, i + 2) == Some((seq!['n', 'a', 'm', 'e'], i + 7)));
    assert(seq!['n', 'a', 'm', 'e'] =~= "name"@);
    assert(spec_parse_string(s, i + 1) == Some(("name"@, i + 7)));
    // the colon and the value
    assert(spec_skip_ws(s, i + 1) == i + 1);
    assert(spec_skip_ws(s, i + 7) == i + 7);
    assert(spec_skip_ws(s, i + 8) == i + 8);
    crate::json::lemma_parse_string_escape(s, i + 9, name);
    assert(spec_parse_string(s, i + 8) == Some((name, i + 10 + el)));
    // the closing brace
    let p = i + 10 + el;
    assert(s[p] == '}');
    assert(spec_skip_ws(s, p) == p);
    assert(spec_task_def_members(s, i + 1, None) == Some((Some(name), p + 1)));
    assert(spec_task_def_object(s, i) == Some((name, p + 1)));
}

/// Law: decoding inverts encoding. The JSON object any task definition
/// encodes to decodes back to a task definition with exactly the same name,
/// whatever the name.
pub proof fn lemma_task_def_round_trip(name: Seq<char>)
    ensures
        spec_parse_task_def(spec_encode_task_def(name)) == Some(name),
{
    let s = spec_encode_task_def(name);
    assert(s.subrange(0, s.len() as int) =~= s);
    lemma_task_def_object_parses(s, 0, name);
    assert(spec_skip_ws(s, 0) == 0);
    assert(spec_skip_ws(s, s.len() as int) == s.len());
}

/// The names the elements of a task definition array yield, scanning from
/// the first element: task definition objects separated by commas, up to
/// the closing bracket.
pub open spec fn spec_task_def_elems(s: Seq<char>, i: int, acc: Seq<Seq<char>>) -> Option<
    (Seq<Seq<char>>, int),
>
    decreases s.len() - i,
{
    match spec_task_def_object(s, i) {
        None => None,
        Some((name, p)) => if i < p <= s.len() {
            let q = spec_skip_ws(s, p);
            if q < s.len() && s[q] == ',' {
                let r2 = spec_skip_ws(s, q + 1);
                if i < r2 <= s.len() {
                    spec_task_def_elems(s, r2, acc.push(name))
                } else {
                    None
                }
            } else if q < s.len() && s[q] == ']' {
                Some((acc.push(name), q + 1))
            } else {
                None
            }
        } else {
            None
        },
    }
}

/// The names a complete JSON document yields when read as an array of task
/// definitions: one JSON array of task definition objects and nothing else
/// but whitespace around it.
pub open spec fn spec_parse_task_defs(s: Seq<char>) -> Option<Seq<Seq<char>>> {
    let i = spec_skip_ws(s, 0);
    if i < s.len() && s[i] == '[' {
        let j = spec_skip_ws(s, i + 1);
        if j < s.len() && s[j] == ']' {
            if spec_skip_ws(s, j + 1) == s.len() {
                Some(Seq::empty())
            } else {
                None
            }
        } else {
            match spec_task_def_elems(s, j, Seq::empty()) {
                None => None,
                Some((names, p)) => if spec_skip_ws(s, p) == s.len() {
                    Some(names)
                } else {
                    None
                },
            }
        }
    } else {
        None
    }
}

/// The joined object list of a non-empty name list opens with a brace and
/// is at least one whole object long.
proof fn lemma_join_starts_with_brace(names: Seq<Seq<char>>)
    requires
        names.len() >= 1,
    ensures
        spec_join_task_defs(names).len() >= 11,
        spec_join_task_defs(names)[0] == '{',
    decreases names.len(),
{
    reveal_strlit("{\"name\":\"");
    reveal_strlit("\"}");
    let pre = "{\"name\":\""@;
    let jn = spec_join_task_defs(names);
    if names.len() == 1 {
        let o = spec_encode_task_def(names[0]);
        let e = spec_escape(names[0]);
        assert(o == (pre + e) + "\"}"@);
        assert(pre.len() == 9);
        assert(("\"}"@).len() == 2);
        assert(o.len() == 11 + e.len());
        assert(o[0] == (pre + e)[0]);
        assert((pre + e)[0] == pre[0]);
        assert(jn == o);
    } else {
        lemma_join_starts_with_brace(names.drop_last());
        let jdl = spec_join_task_defs(names.drop_last());
        assert(jn == (jdl + ","@) + spec_encode_task_def(names.last()));
        assert(jn[0] == (jdl + ","@)[0]);
        assert((jdl + ","@)[0] == jdl[0]);
    }
}

/// The joined object list decomposes at its head: with two or more names it
/// is the first object, a comma, and the joined rest.
proof fn lemma_join_head(names: Seq<Seq<char>>)
    requires
        names.len() >= 2,
    ensures
        spec_join_task_defs(names) == spec_encode_task_def(names[0]) + ","@ + spec_join_task_defs(
            names.drop_first(),
        ),
    decreases names.len(),
{
    let o0 = spec_encode_task_def(names[0]);
    let ndl = names.drop_last();
    let ndf = names.drop_first();
    if names.len() == 2 {
        assert(ndl =~= seq![names[0]]);
        assert(ndf =~= seq![names[1]]);
        assert(spec_join_task_defs(ndl) == spec_encode_task_def(ndl[0]));
        assert(ndl[0] == names[0]);
        assert(spec_join_task_defs(ndf) == spec_encode_task_def(ndf[0]));
        assert(ndf[0] == names[1]);
        assert(names.last() == names[1]);
    } else {
        lemma_join_head(ndl);
        assert(ndl[0] == names[0]);
        assert(ndl.drop_first() =~= ndf.drop_last());
        let mid = spec_join_task_defs(ndf.drop_last());
        let last = spec_encode_task_def(names.last());
        assert(spec_join_task_defs(names) == spec_join_task_defs(ndl) + ","@ + last);
        assert(spec_join_task_defs(ndl) == o0 + ","@ + mid);
        assert(ndf.last() == names.last());
        assert(spec_join_task_defs(ndf) == mid + ","@ + last);
        assert((o0 + ","@ + mid) + ","@ + last =~= o0 + ","@ + (mid + ","@ + last));
    }
}

/// The element scanner reads back a whole joined object list: when the
/// joined encoding of one or more names occupies `s` from `i`, followed by
/// the closing bracket, scanning appends exactly those names.
proof fn lemma_task_def_elems_parse(s: Seq<char>, i: int, names: Seq<Seq<char>>, acc: Seq<
    Seq<char>,
>)
    requires
        0 <= i,
        names.len() >= 1,
        i + spec_join_task_defs(names).len() < s.len(),
        s.subrange(i, i + spec_join_task_defs(names).len() as int) == spec_join_task_defs(names),
        s[i + spec_join_task_defs(names).len() as int] == ']',
    ensures
        spec_task_def_elems(s, i, acc) == Some(
            (acc + names, i + spec_join_task_defs(names).len() + 1),
        ),
    decreases names.len(),
{
    reveal_strlit(",");
    let jn = spec_join_task_defs(names);
    let jl = jn.len() as int;
    assert forall|k: int| 0 <= k < jl implies s[i + k] == jn[k] by {
        assert(s.subrange(i, i + jl)[k] == s[i + k]);
    }
    let o0 = spec_encode_task_def(names[0]);
    let ol = o0.len() as int;
    if names.len() == 1 {
        assert(jn == o0);
        assert(s.subrange(i, i + ol) == s.subrange(i, i + jl));
        lemma_task_def_object_parses(s, i, names[0]);
        let p = i + ol;
        assert(s[p] == ']');
        assert(spec_skip_ws(s, p) == p);
        assert(acc.push(names[0]) =~= acc + names);
    } else {
        lemma_join_head(names);
        let ndf = names.drop_first();
        let jr = spec_join_task_defs(ndf);
        let jrl = jr.len() as int;
        assert(jn == (o0 + ","@) + jr);
        assert(jl == ol + 1 + jrl);
        // the first object
        assert forall|k: int| 0 <= k < ol implies s.subrange(i, i + ol)[k] == o0[k] by {
            assert(((o0 + ","@) + jr)[k] == (o0 + ","@)[k]);
            assert((o0 + ","@)[k] == o0[k]);
            assert(s[i + k] == jn[k]);
            assert(s.subrange(i, i + ol)[k] == s[i + k]);
        }
        assert(s.subrange(i, i + ol) =~= o0);
        lemma_task_def_object_parses(s, i, names[0]);
        // the comma after it
        let p = i + ol;
        assert(jn[ol] == ',') by {
            assert(((o0 + ","@) + jr)[ol] == (o0 + ","@)[ol]);
            assert((o0 + ","@)[ol] == ","@[0]);
        }
        assert(s[i + ol] == jn[ol]);
        assert(spec_skip_ws(s, p) == p);
        // the rest of the list after the comma
        let r2 = p + 1;
        lemma_join_starts_with_brace(ndf);
        assert(jn[ol + 1] == jr[0]) by {
            assert(((o0 + ","@) + jr)[ol + 1] == jr[0]);
        }
        assert(s[i + (ol + 1)] == jn[ol + 1]);
        assert(spec_skip_ws(s, r2) == r2);
        assert forall|k: int| 0 <= k < jrl implies s.subrange(r2, r2 + jrl)[k] == jr[k] by {
            assert(((o0 + ","@) + jr)[ol + 1 + k] == jr[k]);
            assert(s[i + (ol + 1 + k)] == jn[ol + 1 + k]);
            assert(s.subrange(r2, r2 + jrl)[k] == s[r2 + k]);
        }
        assert(s.subrange(r2, r2 + jrl) =~= jr);
        assert(s[r2 + jrl] == ']') by {
            assert(r2 + jrl == i + jl);
        }
        lemma_task_def_elems_parse(s, r2, ndf, acc.push(names[0]));
        assert(acc.push(names[0]) + ndf =~= acc + names);
        assert(r2 + jrl + 1 == i + jl + 1);
    }
}

/// Law: the array encoding of any list of task definitions parses back to
/// exactly that list of names — one JSON array, one object per definition,
/// in input order.
pub proof fn lemma_task_defs_round_trip(names: Seq<Seq<char>>)
    ensures
        spec_parse_task_defs(spec_encode_task_defs(names)) == Some(names),
{
    reveal_strlit("[");
    reveal_strlit("]");
    let jn = spec_join_task_defs(names);
    let jl = jn.len() as int;
    let s = spec_encode_task_defs(names);
    assert(s == ("["@ + jn) + "]"@);
    assert(s.len() == jl + 2);
    assert(s[0] == '[') by {
        assert((("["@ + jn) + "]"@)[0] == ("["@ + jn)[0]);
        assert(("["@ + jn)[0] == "["@[0]);
    }
    assert(s[jl + 1] == ']') by {
        assert((("["@ + jn) + "]"@)[jl + 1] == "]"@[0]);
    }
    assert(spec_skip_ws(s, 0) == 0);
    if names.len() == 0 {
        assert(jl == 0);
        assert(spec_skip_ws(s, 1) == 1);
        assert(spec_skip_ws(s, 2) == 2);
        assert(names =~= Seq::<Seq<char>>::empty());
    } else {
        lemma_join_starts_with_brace(names);
        assert(s[1] == jn[0]) by {
            assert((("["@ + jn) + "]"@)[1] == ("["@ + jn)[1]);
            assert(("["@ + jn)[1] == jn[0]);
        }
        assert(spec_skip_ws(s, 1) == 1);
        assert forall|k: int| 0 <= k < jl implies s.subrange(1, 1 + jl)[k] == jn[k] by {
            assert((("["@ + jn) + "]"@)[1 + k] == ("["@ + jn)[1 + k]);
            assert(("["@ + jn)[1 + k] == jn[k]);
            assert(s.subrange(1, 1 + jl)[k] == s[1 + k]);
        }
        assert(s.subrange(1, 1 + jl) =~= jn);
        lemma_task_def_elems_parse(s, 1, names, Seq::empty());
        assert(Seq::<Seq<char>>::empty() + names =~= names);
        assert(spec_skip_ws(s, s.len() as int) == s.len());
    }
}

fn task_def_members(s: &Vec<char>, i: usize, acc: Option<String>) -> (r: Option<
    (Option<String>, usize),
>)
    requires
        i <= s@.len(),
    ensures
        match r {
            Some((acc2, j)) => spec_task_def_members(s@, i as int, opt_view(acc)) == Some(
                (opt_view(acc2), j as int),
            ) && i < j <= s@.len(),
            None => spec_task_def_members(s@, i as int, opt_view(acc)) is None,
        },
    decreases s@.len() - i,
{
    match parse_string(s, i) {
        None => None,
        Some((key, k)) => {
            let m = skip_ws(s, k);
            if m < s.len() && s[m] == ':' {
                let n = skip_ws(s, m + 1);
                let step: Option<(Option<String>, usize)> = if chars_eq_str(&key, "name") {
                    if acc.is_some() {
                        None
                    } else {
                        match parse_string(s, n) {
                            None => None,
                            Some((val, p)) => Some((Some(chars_string(&val)), p)),
                        }
                    }
                } else {
                    match skip_value(s, n) {
                        None => None,
                        Some(p) => Some((acc, p)),
                    }
                };
                match step {
                    None => None,
                    Some((acc2, p)) => {
                        let q = skip_ws(s, p);
                        if q < s.len() && s[q] == ',' {
                            let r2 = skip_ws(s, q + 1);
                            task_def_members(s, r2, acc2)
                        } else if q < s.len() && s[q] == '}' {
                            Some((acc2, q + 1))
                        } else {
                            None
                        }
                    },
                }
            } else {
                None
            }
        },
    }
}

/// Decodes a task definition from JSON text: an object whose one recognized
/// member is `"name"`. Unknown members are ignored; malformed JSON, a
/// missing `"name"`, or a non-string `"name"` is a `Serialization` error.
pub fn decode_task_def(s: &str) -> (r: Result<TaskDef, Error>)
    ensures
        match r {
            Ok(t) => spec_parse_task_def(s@) == Some(t@),
            Err(e) => spec_parse_task_def(s@) is None && e.spec_kind() == Kind::Serialization
                && e.spec_source() is None,
        },
{
    let cs = str_chars(s);
    let i = skip_ws(&cs, 0);
    if i < cs.len() && cs[i] == '{' {
        let j = skip_ws(&cs, i + 1);
        if j < cs.len() && cs[j] == '}' {
            Err(Error::new(Kind::Serialization))
        } else {
            match task_def_members(&cs, j, None) {
                None => Err(Error::new(Kind::Serialization)),
                Some((acc, p)) => {
                    let e = skip_ws(&cs, p);
                    if e == cs.len() {
                        match acc {
                            Some(name) => Ok(TaskDef::new(name)),
                            None => Err(Error::new(Kind::Serialization)),
                        }
                    } else {
                        Err(Error::new(Kind::Serialization))
                    }
                },
            }
        }
    } else {
        Err(Error::new(Kind::Serialization))
    }
}

// ---------------------------------------------------------------------------
// Decoding the server's error response.
// ---------------------------------------------------------------------------

/// A string-or-null member value: a string reads as present, `null` reads
/// as absent.
pub open spec fn spec_parse_opt_string(s: Seq<char>, i: int) -> Option<(Option<Seq<char>>, int)> {
    if 0 <= i < s.len() && s[i] == '"' {
        match spec_parse_string(s, i) {
            None => None,
            Some((v, j)) => Some((Some(v), j)),
        }
    } else {
        match spec_match_lit(s, i, "null"@) {
            None => None,
            Some(j) => Some((None, j)),
        }
    }
}

fn parse_opt_string(s: &Vec<char>, i: usize) -> (r: Option<(Option<String>, usize)>)
    requires
        i <= s@.len(),
    ensures
        match r {
            Some((v, j)) => spec_parse_opt_string(s@, i as int) == Some((opt_view(v), j as int))
                && i < j <= s@.len(),
            None => spec_parse_opt_string(s@, i as int) is None,
        },
{
    if i < s.len() && s[i] == '"' {
        match parse_string(s, i) {
            None => None,
            Some((v, j)) => Some((Some(chars_string(&v)), j)),
        }
    } else {
        proof {
            reveal_strlit("null");
        }
        match match_lit(s, i, "null") {
            None => None,
            Some(j) => Some((None, j)),
        }
    }
}

/// A boolean member value: the literal `true` or `false`.
pub open spec fn spec_parse_bool(s: Seq<char>, i: int) -> Option<(bool, int)> {
    match spec_match_lit(s, i, "true"@) {
        Some(j) => Some((true, j)),
        None => match spec_match_lit(s, i, "false"@) {
            Some(j) => Some((false, j)),
            None => None,
        },
    }
}

fn parse_bool(s: &Vec<char>, i: usize) -> (r: Option<(bool, usize)>)
    requires
        i <= s@.len(),
    ensures
        match r {
            Some((v, j)) => spec_parse_bool(s@, i as int) == Some((v, j as int)) && i < j
                <= s@.len(),
            None => spec_parse_bool(s@, i as int) is None,
        },
{
    proof {
        reveal_strlit("true");
        reveal_strlit("false");
    }
    match match_lit(s, i, "true") {
        Some(j) => Some((true, j)),
        None => match match_lit(s, i, "false") {
            Some(j) => Some((false, j)),
            None => None,
        },
    }
}

/// A status member value: a plain decimal integer, without sign, leading
/// zeros, fraction or exponent, fitting in sixteen bits.
pub open spec fn spec_parse_status(s: Seq<char>, i: int) -> Option<(u16, int)> {
    if 0 <= i < s.len() && is_digit(s[i]) {
        let j = spec_digits_end(s, i);
        if s[i] == '0' && j != i + 1 {
            None
        } else if j < s.len() && (s[j] == '.' || s[j] == 'e' || s[j] == 'E') {
            None
        } else {
            match spec_digits_val_u16(s, i, j) {
                None => None,
                Some(v) => Some((v, j)),
            }
        }
    } else {
        None
    }
}

fn parse_status(s: &Vec<char>, i: usize) -> (r: Option<(u16, usize)>)
    requires
        i <= s@.len(),
    ensures
        match r {
            Some((v, j)) => spec_parse_status(s@, i as int) == Some((v, j as int)) && i < j
                <= s@.len(),
            None => spec_parse_status(s@, i as int) is None,
        },
{
    if i >= s.len() {
        return None;
    }
    let c = s[i] as u32;
    if !(48 <= c && c <= 57) {
        return None;
    }
    let j = digits_end(s, i + 1);
    proof {
        assert(spec_digits_end(s@, i as int) == spec_digits_end(s@, i + 1));
    }
    if s[i] == '0' && j != i + 1 {
        None
    } else if j < s.len() && (s[j] == '.' || s[j] == 'e' || s[j] == 'E') {
        None
    } else {
        match digits_val_u16(s, i, j) {
            None => None,
            Some(v) => Some((v, j)),
        }
    }
}

/// Spec-level record of which members of a validation error have been seen,
/// and their values.
pub ghost struct ValidationFields {
    pub path: Option<Seq<char>>,
    pub message: Option<Seq<char>>,
    pub invalid_value: Option<Option<Seq<char>>>,
}

struct ValidationAcc {
    path: Option<String>,
    message: Option<String>,
    invalid_value: Option<Option<String>>,
}

impl View for ValidationAcc {
    type V = ValidationFields;

    closed spec fn view(&self) -> ValidationFields {
        ValidationFields {
            path: opt_view(self.path),
            message: opt_view(self.message),
            invalid_value: match self.invalid_value {
                Some(x) => Some(opt_view(x)),
                None => None,
            },
        }
    }
}

/// Walks a validation error object's members from the first key:
/// `"path"` and `"message"` hold strings, `"invalid_value"` holds a string
/// or null; a recognized member seen twice is an error, unknown members are
/// skipped.
pub open spec fn spec_validation_members(s: Seq<char>, i: int, f: ValidationFields) -> Option<
    (ValidationFields, int),
>
    decreases s.len() - i,
{
    match spec_parse_string(s, i) {
        None => None,
        Some((key, k)) => {
            let m = spec_skip_ws(s, k);
            if m < s.len() && s[m] == ':' {
                let n = spec_skip_ws(s, m + 1);
                let step: Option<(ValidationFields, int)> = if key == "path"@ {
                    if f.path is Some {
                        None
                    } else {
                        match spec_parse_string(s, n) {
                            None => None,
                            Some((v, p)) => Some((ValidationFields { path: Some(v), ..f }, p)),
                        }
                    }
                } else if key == "message"@ {
                    if f.message is Some {
                        None
                    } else {
                        match spec_parse_string(s, n) {
                            None => None,
                            Some((v, p)) => Some((ValidationFields { message: Some(v), ..f }, p)),
                        }
                    }
                } else if key == "invalid_value"@ {
                    if f.invalid_value is Some {
                        None
                    } else {
                        match spec_parse_opt_string(s, n) {
                            None => None,
                            Some((v, p)) => Some(
                                (ValidationFields { invalid_value: Some(v), ..f }, p),
                            ),
                        }
                    }
                } else {
                    match spec_skip_value(s, n) {
                        None => None,
                        Some(p) => Some((f, p)),
                    }
                };
                match step {
                    None => None,
                    Some((f2, p)) => {
                        let q = spec_skip_ws(s, p);
                        if q < s.len() && s[q] == ',' {
                            let r2 = spec_skip_ws(s, q + 1);
                            if i < r2 <= s.len() {
                                spec_validation_members(s, r2, f2)
                            } else {
                                None
                            }
                        } else if q < s.len() && s[q] == '}' {
                            Some((f2, q + 1))
                        } else {
                            None
                        }
                    },
                }
            } else {
                None
            }
        },
    }
}

fn validation_members(s: &Vec<char>, i: usize, f: ValidationAcc) -> (r: Option<
    (ValidationAcc, usize),
>)
    requires
        i <= s@.len(),
    ensures
        match r {
            Some((f2, j)) => spec_validation_members(s@, i as int, f@) == Some((f2@, j as int))
                && i < j <= s@.len(),
            None => spec_validation_members(s@, i as int, f@) is None,
        },
    decreases s@.len() - i,
{
    match parse_string(s, i) {
        None => None,
        Some((key, k)) => {
            let m = skip_ws(s, k);
            if m < s.len() && s[m] == ':' {
                let n = skip_ws(s, m + 1);
                let step: Option<(ValidationAcc, usize)> = if chars_eq_str(&key, "path") {
                    if f.path.is_some() {
                        None
                    } else {
                        match parse_string(s, n) {
                            None => None,
                            Some((v, p)) => Some(
                                (ValidationAcc { path: Some(chars_string(&v)), ..f }, p),
                            ),
                        }
                    }
                } else if chars_eq_str(&key, "message") {
                    if f.message.is_some() {
                        None
                    } else {
                        match parse_string(s, n) {
                            None => None,
                            Some((v, p)) => Some(
                                (ValidationAcc { message: Some(chars_string(&v)), ..f }, p),
                            ),
                        }
                    }
                } else if chars_eq_str(&key, "invalid_value") {
                    if f.invalid_value.is_some() {
                        None
                    } else {
                        match parse_opt_string(s, n) {
                            None => None,
                            Some((v, p)) => Some(
                                (ValidationAcc { invalid_value: Some(v), ..f }, p),
                            ),
                        }
                    }
                } else {
                    match skip_value(s, n) {
                        None => None,
                        Some(p) => Some((f, p)),
                    }
                };
                match step {
                    None => None,
                    Some((f2, p)) => {
                        let q = skip_ws(s, p);
                        if q < s.len() && s[q] == ',' {
                            let r2 = skip_ws(s, q + 1);
                            validation_members(s, r2, f2)
                        } else if q < s.len() && s[q] == '}' {
                            Some((f2, q + 1))
                        } else {
                            None
                        }
                    },
                }
            } else {
                None
            }
        },
    }
}

/// One validation error object: `"path"` and `"message"` are required,
/// `"invalid_value"` is optional and may be null.
pub open spec fn spec_parse_validation_error(s: Seq<char>, i: int) -> Option<
    (ValidationErrorView, int),
> {
    if 0 <= i < s.len() && s[i] == '{' {
        let j = spec_skip_ws(s, i + 1);
        let walked: Option<(ValidationFields, int)> = if j < s.len() && s[j] == '}' {
            Some((ValidationFields { path: None, message: None, invalid_value: None }, j + 1))
        } else {
            spec_validation_members(
                s,
                j,
                ValidationFields { path: None, message: None, invalid_value: None },
            )
        };
        match walked {
            None => None,
            Some((f, p)) => match f.path {
                None => None,
                Some(path) => match f.message {
                    None => None,
                    Some(msg) => Some(
                        (
                            ValidationErrorView {
                                path,
                                message: msg,
                                invalid_value: match f.invalid_value {
                                    None => None,
                                    Some(x) => x,
                                },
                            },
                            p,
                        ),
                    ),
                },
            },
        }
    } else {
        None
    }
}

fn parse_validation_error(s: &Vec<char>, i: usize) -> (r: Option<(ValidationError, usize)>)
    requires
        i <= s@.len(),
    ensures
        match r {
            Some((ve, j)) => spec_parse_validation_error(s@, i as int) == Some((ve@, j as int))
                && i < j <= s@.len(),
            None => spec_parse_validation_error(s@, i as int) is None,
        },
{
    if i < s.len() && s[i] == '{' {
        let j = skip_ws(s, i + 1);
        let empty = ValidationAcc { path: None, message: None, invalid_value: None };
        let walked: Option<(ValidationAcc, usize)> = if j < s.len() && s[j] == '}' {
            Some((empty, j + 1))
        } else {
            validation_members(s, j, empty)
        };
        match walked {
            None => None,
            Some((f, p)) => match f.path {
                None => None,
                Some(path) => match f.message {
                    None => None,
                    Some(msg) => {
                        let iv: Option<String> = match f.invalid_value {
                            None => None,
                            Some(x) => x,
                        };
                        Some((ValidationError::from_parts(path, msg, iv), p))
                    },
                },
            },
        }
    } else {
        None
    }
}

/// The elements of the validation error array, from the first element.
pub open spec fn spec_validation_elems(
    s: Seq<char>,
    i: int,
    acc: Seq<ValidationErrorView>,
) -> Option<(Seq<ValidationErrorView>, int)>
    decreases s.len() - i,
{
    match spec_parse_validation_error(s, i) {
        None => None,
        Some((ve, p)) => if i < p <= s.len() {
            let q = spec_skip_ws(s, p);
            if q < s.len() && s[q] == ',' {
                let r2 = spec_skip_ws(s, q + 1);
                if i < r2 <= s.len() {
                    spec_validation_elems(s, r2, acc.push(ve))
                } else {
                    None
                }
            } else if q < s.len() && s[q] == ']' {
                Some((acc.push(ve), q + 1))
            } else {
                None
            }
        } else {
            None
        },
    }
}

fn validation_elems(s: &Vec<char>, i: usize, acc: Vec<ValidationError>) -> (r: Option<
    (Vec<ValidationError>, usize),
>)
    requires
        i <= s@.len(),
    ensures
        match r {
            Some((ves, j)) => spec_validation_elems(
                s@,
                i as int,
                acc@.map_values(|x: ValidationError| x@),
            ) == Some((ves@.map_values(|x: ValidationError| x@), j as int)) && i < j <= s@.len(),
            None => spec_validation_elems(
                s@,
                i as int,
                acc@.map_values(|x: ValidationError| x@),
            ) is None,
        },
    decreases s@.len() - i,
{
    match parse_validation_error(s, i) {
        None => None,
        Some((ve, p)) => {
            let q = skip_ws(s, p);
            if q < s.len() && s[q] == ',' {
                let r2 = skip_ws(s, q + 1);
                let ghost accv = acc@.map_values(|x: ValidationError| x@);
                let mut acc2 = acc;
                acc2.push(ve);
                proof {
                    assert(acc2@.map_values(|x: ValidationError| x@) =~= accv.push(ve@));
                }
                validation_elems(s, r2, acc2)
            } else if q < s.len() && s[q] == ']' {
                let ghost accv = acc@.map_values(|x: ValidationError| x@);
                let mut acc2 = acc;
                acc2.push(ve);
                proof {
                    assert(acc2@.map_values(|x: ValidationError| x@) =~= accv.push(ve@));
                }
                Some((acc2, q + 1))
            } else {
                None
            }
        },
    }
}

/// The validation error array: zero or more validation error objects.
pub open spec fn spec_parse_validation_errors(s: Seq<char>, i: int) -> Option<
    (Seq<ValidationErrorView>, int),
> {
    if 0 <= i < s.len() && s[i] == '[' {
        let j = spec_skip_ws(s, i + 1);
        if j < s.len() && s[j] == ']' {
            Some((Seq::empty(), j + 1))
        } else {
            spec_validation_elems(s, j, Seq::empty())
        }
    } else {
        None
    }
}

fn parse_validation_errors(s: &Vec<char>, i: usize) -> (r: Option<(Vec<ValidationError>, usize)>)
    requires
        i <= s@.len(),
    ensures
        match r {
            Some((ves, j)) => spec_parse_validation_errors(s@, i as int) == Some(
                (ves@.map_values(|x: ValidationError| x@), j as int),
            ) && i < j <= s@.len(),
            None => spec_parse_validation_errors(s@, i as int) is None,
        },
{
    if i < s.len() && s[i] == '[' {
        let j = skip_ws(s, i + 1);
        if j < s.len() && s[j] == ']' {
            let ves: Vec<ValidationError> = Vec::new();
            proof {
                assert(ves@.map_values(|x: ValidationError| x@) =~= Seq::<
                    ValidationErrorView,
                >::empty());
            }
            Some((ves, j + 1))
        } else {
            let empty: Vec<ValidationError> = Vec::new();
            proof {
                assert(empty@.map_values(|x: ValidationError| x@) =~= Seq::<
                    ValidationErrorView,
                >::empty());
            }
            validation_elems(s, j, empty)
        }
    } else {
        None
    }
}

/// Spec-level record of which members of the error response have been seen,
/// and their values.
pub ghost struct ErrorResponseFields {
    pub status: Option<u16>,
    pub code: Option<Option<Seq<char>>>,
    pub message: Option<Seq<char>>,
    pub instance: Option<Option<Seq<char>>>,
    pub retryable: Option<bool>,
    pub validation_errors: Option<Seq<ValidationErrorView>>,
}

struct ErrorResponseAcc {
    status: Option<u16>,
    code: Option<Option<String>>,
    message: Option<String>,
    instance: Option<Option<String>>,
    retryable: Option<bool>,
    validation_errors: Option<Vec<ValidationError>>,
}

impl View for ErrorResponseAcc {
    type V = ErrorResponseFields;

    closed spec fn view(&self) -> ErrorResponseFields {
        ErrorResponseFields {
            status: self.status,
            code: match self.code {
                Some(x) => Some(opt_view(x)),
                None => None,
            },
            message: opt_view(self.message),
            instance: match self.instance {
                Some(x) => Some(opt_view(x)),
                None => None,
            },
            retryable: self.retryable,
            validation_errors: match self.validation_errors {
                Some(v) => Some(v@.map_values(|x: ValidationError| x@)),
                None => None,
            },
        }
    }
}

/// Walks the error response object's members from the first key:
/// `"status"` holds a sixteen-bit integer, `"message"` a string, `"code"`
/// and `"instance"` a string or null, `"retryable"` a boolean and
/// `"validationErrors"` the validation error array. A recognized member
/// seen twice is an error; unknown members are skipped.
pub open spec fn spec_er_members(s: Seq<char>, i: int, f: ErrorResponseFields) -> Option<
    (ErrorResponseFields, int),
>
    decreases s.len() - i,
{
    match spec_parse_string(s, i) {
        None => None,
        Some((key, k)) => {
            let m = spec_skip_ws(s, k);
            if m < s.len() && s[m] == ':' {
                let n = spec_skip_ws(s, m + 1);
                let step: Option<(ErrorResponseFields, int)> = if key == "status"@ {
                    if f.status is Some {
                        None
                    } else {
                        match spec_parse_status(s, n) {
                            None => None,
                            Some((v, p)) => Some((ErrorResponseFields { status: Some(v), ..f }, p)),
                        }
                    }
                } else if key == "code"@ {
                    if f.code is Some {
                        None
                    } else {
                        match spec_parse_opt_string(s, n) {
                            None => None,
                            Some((v, p)) => Some((ErrorResponseFields { code: Some(v), ..f }, p)),
                        }
                    }
                } else if key == "message"@ {
                    if f.message is Some {
                        None
                    } else {
                        match spec_parse_string(s, n) {
                            None => None,
                            Some((v, p)) => Some(
                                (ErrorResponseFields { message: Some(v), ..f }, p),
                            ),
                        }
                    }
                } else if key == "instance"@ {
                    if f.instance is Some {
                        None
                    } else {
                        match spec_parse_opt_string(s, n) {
                            None => None,
                            Some((v, p)) => Some(
                                (ErrorResponseFields { instance: Some(v), ..f }, p),
                            ),
                        }
                    }
                } else if key == "retryable"@ {
                    if f.retryable is Some {
                        None
                    } else {
                        match spec_parse_bool(s, n) {
                            None => None,
                            Some((v, p)) => Some(
                                (ErrorResponseFields { retryable: Some(v), ..f }, p),
                            ),
                        }
                    }
                } else if key == "validationErrors"@ {
                    if f.validation_errors is Some {
                        None
                    } else {
                        match spec_parse_validation_errors(s, n) {
                            None => None,
                            Some((v, p)) => Some(
                                (ErrorResponseFields { validation_errors: Some(v), ..f }, p),
                            ),
                        }
                    }
                } else {
                    match spec_skip_value(s, n) {
                        None => None,
                        Some(p) => Some((f, p)),
                    }
                };
                match step {
                    None => None,
                    Some((f2, p)) => {
                        let q = spec_skip_ws(s, p);
                        if q < s.len() && s[q] == ',' {
                            let r2 = spec_skip_ws(s, q + 1);
                            if i < r2 <= s.len() {
                                spec_er_members(s, r2, f2)
                            } else {
                                None
                            }
                        } else if q < s.len() && s[q] == '}' {
                            Some((f2, q + 1))
                        } else {
                            None
                        }
                    },
                }
            } else {
                None
            }
        },
    }
}

fn er_members(s: &Vec<char>, i: usize, f: ErrorResponseAcc) -> (r: Option<
    (ErrorResponseAcc, usize),
>)
    requires
        i <= s@.len(),
    ensures
        match r {
            Some((f2, j)) => spec_er_members(s@, i as int, f@) == Some((f2@, j as int)) && j
                <= s@.len(),
            None => spec_er_members(s@, i as int, f@) is None,
        },
    decreases s@.len() - i,
{
    match parse_string(s, i) {
        None => None,
        Some((key, k)) => {
            let m = skip_ws(s, k);
            if m < s.len() && s[m] == ':' {
                let n = skip_ws(s, m + 1);
                let step: Option<(ErrorResponseAcc, usize)> = if chars_eq_str(&key, "status") {
                    if f.status.is_some() {
                        None
                    } else {
                        match parse_status(s, n) {
                            None => None,
                            Some((v, p)) => Some((ErrorResponseAcc { status: Some(v), ..f }, p)),
                        }
                    }
                } else if chars_eq_str(&key, "code") {
                    if f.code.is_some() {
                        None
                    } else {
                        match parse_opt_string(s, n) {
                            None => None,
                            Some((v, p)) => Some((ErrorResponseAcc { code: Some(v), ..f }, p)),
                        }
                    }
                } else if chars_eq_str(&key, "message") {
                    if f.message.is_some() {
                        None
                    } else {
                        match parse_string(s, n) {
                            None => None,
                            Some((v, p)) => Some(
                                (ErrorResponseAcc { message: Some(chars_string(&v)), ..f }, p),
                            ),
                        }
                    }
                } else if chars_eq_str(&key, "instance") {
                    if f.instance.is_some() {
                        None
                    } else {
                        match parse_opt_string(s, n) {
                            None => None,
                            Some((v, p)) => Some((ErrorResponseAcc { instance: Some(v), ..f }, p)),
                        }
                    }
                } else if chars_eq_str(&key, "retryable") {
                    if f.retryable.is_some() {
                        None
                    } else {
                        match parse_bool(s, n) {
                            None => None,
                            Some((v, p)) => Some((ErrorResponseAcc { retryable: Some(v), ..f }, p)),
                        }
                    }
                } else if chars_eq_str(&key, "validationErrors") {
                    if f.validation_errors.is_some() {
                        None
                    } else {
                        match parse_validation_errors(s, n) {
                            None => None,
                            Some((v, p)) => Some(
                                (ErrorResponseAcc { validation_errors: Some(v), ..f }, p),
                            ),
                        }
                    }
                } else {
                    match skip_value(s, n) {
                        None => None,
                        Some(p) => Some((f, p)),
                    }
                };
                match step {
                    None => None,
                    Some((f2, p)) => {
                        let q = skip_ws(s, p);
                        if q < s.len() && s[q] == ',' {
                            let r2 = skip_ws(s, q + 1);
                            er_members(s, r2, f2)
                        } else if q < s.len() && s[q] == '}' {
                            Some((f2, q + 1))
                        } else {
                            None
                        }
                    },
                }
            } else {
                None
            }
        },
    }
}

/// The error response a complete JSON document yields: an object whose
/// required members are `"status"`, `"message"`, `"retryable"` and
/// `"validationErrors"`, with optional `"code"` and `"instance"`.
pub open spec fn spec_parse_error_response(s: Seq<char>) -> Option<ErrorResponseView> {
    let i = spec_skip_ws(s, 0);
    if i < s.len() && s[i] == '{' {
        let j = spec_skip_ws(s, i + 1);
        let empty = ErrorResponseFields {
            status: None,
            code: None,
            message: None,
            instance: None,
            retryable: None,
            validation_errors: None,
        };
        let walked: Option<(ErrorResponseFields, int)> = if j < s.len() && s[j] == '}' {
            Some((empty, j + 1))
        } else {
            spec_er_members(s, j, empty)
        };
        match walked {
            None => None,
            Some((f, p)) => if spec_skip_ws(s, p) == s.len() {
                match f.status {
                    None => None,
                    Some(st) => match f.message {
                        None => None,
                        Some(msg) => match f.retryable {
                            None => None,
                            Some(rt) => match f.validation_errors {
                                None => None,
                                Some(ves) => Some(
                                    ErrorResponseView {
                                        status: st,
                                        code: match f.code {
                                            None => None,
                                            Some(x) => x,
                                        },
                                        message: msg,
                                        instance: match f.instance {
                                            None => None,
                                            Some(x) => x,
                                        },
                                        retryable: rt,
                                        validation_errors: ves,
                                    },
                                ),
                            },
                        },
                    },
                }
            } else {
                None
            },
        }
    } else {
        None
    }
}

/// What a byte body yields when read as an error response: nothing unless
/// it is valid UTF-8 whose text parses.
pub open spec fn spec_parse_error_response_bytes(body: Seq<u8>) -> Option<ErrorResponseView> {
    if valid_utf8(body) {
        spec_parse_error_response(decode_utf8(body))
    } else {
        None
    }
}

pub(crate) fn parse_error_response_chars(s: &Vec<char>) -> (r: Option<ErrorResponse>)
    ensures
        match r {
            Some(er) => spec_parse_error_response(s@) == Some(er@),
            None => spec_parse_error_response(s@) is None,
        },
{
    let i = skip_ws(s, 0);
    if i < s.len() && s[i] == '{' {
        let j = skip_ws(s, i + 1);
        let empty = ErrorResponseAcc {
            status: None,
            code: None,
            message: None,
            instance: None,
            retryable: None,
            validation_errors: None,
        };
        let walked: Option<(ErrorResponseAcc, usize)> = if j < s.len() && s[j] == '}' {
            Some((empty, j + 1))
        } else {
            er_members(s, j, empty)
        };
        match walked {
            None => None,
            Some((f, p)) => {
                let e = skip_ws(s, p);
                if e == s.len() {
                    match f.status {
                        None => None,
                        Some(st) => match f.message {
                            None => None,
                            Some(msg) => match f.retryable {
                                None => None,
                                Some(rt) => match f.validation_errors {
                                    None => None,
                                    Some(ves) => {
                                        let code: Option<String> = match f.code {
                                            None => None,
                                            Some(x) => x,
                                        };
                                        let instance: Option<String> = match f.instance {
                                            None => None,
                                            Some(x) => x,
                                        };
                                        Some(
                                            ErrorResponse::from_parts(
                                                st,
                                                code,
                                                msg,
                                                instance,
                                                rt,
                                                ves,
                                            ),
                                        )
                                    },
                                },
                            },
                        },
                    }
                } else {
                    None
                }
            },
        }
    } else {
        None
    }
}

/// Reads a byte body as an error response, if it is valid UTF-8 whose text
/// parses as one.
pub(crate) fn parse_error_response(body: &Vec<u8>) -> (r: Option<ErrorResponse>)
    ensures
        match r {
            Some(er) => spec_parse_error_response_bytes(body@) == Some(er@),
            None => spec_parse_error_response_bytes(body@) is None,
        },
{
    match crate::text::utf8_to_string(body) {
        None => None,
        Some(s) => {
            let cs = str_chars(s.as_str());
            parse_error_response_chars(&cs)
        },
    }
}

} // verus!
