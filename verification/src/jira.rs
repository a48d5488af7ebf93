use vstd::prelude::*;
use crate::json::{
    field_index, json_entries, json_items, json_text, json_view, lemma_obj_index, lemma_view_parts, obj_get, obj_index,
    to_json_text, Json, JsonValue,
};
use vstd::string::StringExecFns;
use crate::client::{query_view, Client, HttpRequest};
use crate::config::str_opt_view;
use crate::json::{json_object, json_object1, json_str, obj1, opt_entry, opt_str, push_entry};
use crate::text::{
    bool_text, chars_eq, chars_of, decimal, i64_to_decimal, join_strs, join_with, push_char, signed_decimal, string_of, strs_view,
    trim_end_char, u64_to_decimal,
};

verus! {

// ---------------------------------------------------------------------------
// Atlassian Document Format (ADF) <-> plain text
// ---------------------------------------------------------------------------

/// The string stored under `key` in an object's entries, if it is a string.
pub open spec fn obj_str(m: Seq<(Seq<char>, Json)>, key: Seq<char>) -> Option<Seq<char>> {
    match obj_get(m, key) {
        Some(Json::Str(s)) => Some(s),
        _ => None,
    }
}

/// The node's `type`, or the empty string.
pub open spec fn node_type(m: Seq<(Seq<char>, Json)>) -> Seq<char> {
    match obj_str(m, seq!['t', 'y', 'p', 'e']) {
        Some(s) => s,
        None => seq![],
    }
}

/// `attrs.<key>` of a node when it is a string, else `fallback`.
pub open spec fn node_attr(m: Seq<(Seq<char>, Json)>, key: Seq<char>, fallback: Seq<char>) -> Seq<char> {
    match obj_get(m, seq!['a', 't', 't', 'r', 's']) {
        Some(Json::Object(a)) => match obj_str(a, key) {
            Some(s) => s,
            None => fallback,
        },
        _ => fallback,
    }
}

/// `s` without its trailing newlines.
pub open spec fn trim_newlines(s: Seq<char>) -> Seq<char> {
    trim_end_char(s, '\n')
}

/// `s` without one trailing newline.
pub open spec fn drop_one_newline(s: Seq<char>) -> Seq<char> {
    if s.len() > 0 && s.last() == '\n' {
        s.drop_last()
    } else {
        s
    }
}

/// Texts joined with a separator.
pub open spec fn join(parts: Seq<Seq<char>>, sep: char) -> Seq<char>
    decreases parts.len(),
{
    if parts.len() == 0 {
        seq![]
    } else if parts.len() == 1 {
        parts[0]
    } else {
        join(parts.drop_last(), sep).push(sep) + parts.last()
    }
}

/// Plain text of one ADF node (an object); other values give nothing.
pub open spec fn render_node(j: Json) -> Seq<char>
    decreases j,
{
    match j {
        Json::Object(m) => {
            let t = node_type(m);
            let k = obj_index(m, seq!['c', 'o', 'n', 't', 'e', 'n', 't']);
            let has_items = 0 <= k < m.len() && m[k].1 is Array;
            let children = if has_items { render_items(m[k].1->Array_0) } else { seq![] };
            if t == seq!['d', 'o', 'c'] || t == seq!['b', 'l', 'o', 'c', 'k', 'q', 'u', 'o', 't', 'e'] || t == seq!['p', 'a', 'n', 'e', 'l'] || t == seq!['e', 'x', 'p', 'a', 'n', 'd'] || t == seq!['t', 'a', 'b', 'l', 'e'] {
                children
            } else if t == seq!['p', 'a', 'r', 'a', 'g', 'r', 'a', 'p', 'h'] || t == seq!['h', 'e', 'a', 'd', 'i', 'n', 'g'] || t == seq!['c', 'o', 'd', 'e', 'B', 'l', 'o', 'c', 'k'] {
                children.push('\n')
            } else if t == seq!['b', 'u', 'l', 'l', 'e', 't', 'L', 'i', 's', 't'] {
                if has_items { render_bullets(m[k].1->Array_0) } else { seq![] }
            } else if t == seq!['o', 'r', 'd', 'e', 'r', 'e', 'd', 'L', 'i', 's', 't'] {
                if has_items { render_numbered(m[k].1->Array_0) } else { seq![] }
            } else if t == seq!['l', 'i', 's', 't', 'I', 't', 'e', 'm'] {
                if has_items { render_item_lines(m[k].1->Array_0) } else { seq![] }
            } else if t == seq!['t', 'e', 'x', 't'] {
                match obj_str(m, seq!['t', 'e', 'x', 't']) {
                    Some(s) => s,
                    None => seq![],
                }
            } else if t == seq!['h', 'a', 'r', 'd', 'B', 'r', 'e', 'a', 'k'] {
                seq!['\n']
            } else if t == seq!['r', 'u', 'l', 'e'] {
                seq!['-', '-', '-', '\n']
            } else if t == seq!['t', 'a', 'b', 'l', 'e', 'R', 'o', 'w'] {
                (if has_items { join(render_cells(m[k].1->Array_0), '\t') } else { seq![] }).push('\n')
            } else if t == seq!['t', 'a', 'b', 'l', 'e', 'H', 'e', 'a', 'd', 'e', 'r'] || t == seq!['t', 'a', 'b', 'l', 'e', 'C', 'e', 'l', 'l'] {
                drop_one_newline(children)
            } else if t == seq!['m', 'e', 'n', 't', 'i', 'o', 'n'] {
                node_attr(m, seq!['t', 'e', 'x', 't'], seq!['@', 'u', 'n', 'k', 'n', 'o', 'w', 'n'])
            } else if t == seq!['i', 'n', 'l', 'i', 'n', 'e', 'C', 'a', 'r', 'd'] {
                node_attr(m, seq!['u', 'r', 'l'], seq![])
            } else if t == seq!['e', 'm', 'o', 'j', 'i'] {
                let text = node_attr(m, seq!['t', 'e', 'x', 't'], seq![]);
                if text.len() > 0 { text } else { node_attr(m, seq!['s', 'h', 'o', 'r', 't', 'N', 'a', 'm', 'e'], seq![]) }
            } else if t == seq!['d', 'a', 't', 'e'] {
                node_attr(m, seq!['t', 'i', 'm', 'e', 's', 't', 'a', 'm', 'p'], seq![])
            } else if t == seq!['s', 't', 'a', 't', 'u', 's'] {
                node_attr(m, seq!['t', 'e', 'x', 't'], seq![])
            } else if t == seq!['m', 'e', 'd', 'i', 'a', 'S', 'i', 'n', 'g', 'l', 'e'] || t == seq!['m', 'e', 'd', 'i', 'a', 'I', 'n', 'l', 'i', 'n', 'e'] || t == seq!['m', 'e', 'd', 'i', 'a'] || t == seq!['m', 'e', 'd', 'i', 'a', 'G', 'r', 'o', 'u', 'p'] {
                seq![]
            } else {
                children
            }
        },
        _ => seq![],
    }
}

/// The object nodes of `items`, rendered one after another.
pub open spec fn render_items(items: Seq<Json>) -> Seq<char>
    decreases items,
{
    if items.len() == 0 {
        seq![]
    } else {
        render_items(items.drop_last()) + (if items.last() is Object { render_node(items.last()) } else { seq![] })
    }
}

/// Bullet-list lines `* <item>` for the object nodes of `items`.
pub open spec fn render_bullets(items: Seq<Json>) -> Seq<char>
    decreases items,
{
    if items.len() == 0 {
        seq![]
    } else {
        render_bullets(items.drop_last()) + (if items.last() is Object {
            seq!['*', ' '] + trim_newlines(render_node(items.last())) + seq!['\n']
        } else {
            seq![]
        })
    }
}

/// Numbered lines `<n>. <item>` for the object nodes of `items`, where `n` is
/// the item's position in `items` counted from one.
pub open spec fn render_numbered(items: Seq<Json>) -> Seq<char>
    decreases items,
{
    if items.len() == 0 {
        seq![]
    } else {
        render_numbered(items.drop_last()) + (if items.last() is Object {
            decimal(items.len()) + seq!['.', ' '] + trim_newlines(render_node(items.last())) + seq!['\n']
        } else {
            seq![]
        })
    }
}

/// A list item's non-empty children, each without trailing newlines, one per line.
pub open spec fn render_item_lines(items: Seq<Json>) -> Seq<char>
    decreases items,
{
    if items.len() == 0 {
        seq![]
    } else {
        let prev = render_item_lines(items.drop_last());
        let t = if items.last() is Object { trim_newlines(render_node(items.last())) } else { seq![] };
        if t.len() == 0 {
            prev
        } else if prev.len() == 0 {
            t
        } else {
            prev.push('\n') + t
        }
    }
}

/// The rendered cells of a table row (its object nodes).
pub open spec fn render_cells(items: Seq<Json>) -> Seq<Seq<char>>
    decreases items,
{
    if items.len() == 0 {
        seq![]
    } else {
        let prev = render_cells(items.drop_last());
        if items.last() is Object { prev.push(render_node(items.last())) } else { prev }
    }
}

/// Plain text of an Atlassian Document Format value: a string is itself, an
/// object is rendered node by node (without its final newline), anything else
/// is its JSON text.
pub open spec fn render_adf_spec(doc: Json) -> Seq<char> {
    match doc {
        Json::Str(s) => s,
        Json::Object(_) => drop_one_newline(render_node(doc)),
        _ => json_text(doc),
    }
}


/// The characters of a string value stored under `key`, if there is one.
fn field_str(m: &Vec<(String, JsonValue)>, key: &[char]) -> (r: Option<Vec<char>>)
    ensures
        r matches Some(c) ==> obj_str(json_entries(m@), key@) == Some(c@),
        r is None ==> obj_str(json_entries(m@), key@) is None,
{
    proof {
        lemma_obj_index(json_entries(m@), key@);
    }
    match field_index(m, key) {
        Some(i) => {
            proof {
                lemma_view_parts(m@[i as int].1);
            }
            match &m[i].1 {
                JsonValue::Str(s) => Some(chars_of(s.as_str())),
                _ => None,
            }
        },
        None => None,
    }
}


fn attr_of(m: &Vec<(String, JsonValue)>, key: &[char], fallback: &[char]) -> (r: Vec<char>)
    ensures
        r@ == node_attr(json_entries(m@), key@, fallback@),
{
    proof {
        lemma_obj_index(json_entries(m@), seq!['a', 't', 't', 'r', 's']);
    }
    let mut r: Vec<char> = Vec::new();
    match field_index(m, &['a', 't', 't', 'r', 's']) {
        Some(i) => {
            proof {
                lemma_view_parts(m@[i as int].1);
            }
            match &m[i].1 {
                JsonValue::Object(a) => {
                    match field_str(a, key) {
                        Some(c) => {
                            crate::text::push_chars(&mut r, c.as_slice());
                        },
                        None => {
                            crate::text::push_chars(&mut r, fallback);
                        },
                    }
                },
                _ => {
                    crate::text::push_chars(&mut r, fallback);
                },
            }
        },
        None => {
            crate::text::push_chars(&mut r, fallback);
        },
    }
    r
}

/// Removes all trailing newlines.
fn trim_newlines_exec(s: &mut Vec<char>)
    ensures
        final(s)@ == trim_newlines(old(s)@),
    decreases old(s)@.len(),
{
    if s.len() > 0 && s[s.len() - 1] == '\n' {
        let ghost before = s@;
        s.pop();
        assert(s@ =~= before.drop_last());
        trim_newlines_exec(s);
    }
}

/// Removes one trailing newline.
fn drop_one_newline_exec(s: &mut Vec<char>)
    ensures
        final(s)@ == drop_one_newline(old(s)@),
{
    if s.len() > 0 && s[s.len() - 1] == '\n' {
        let ghost before = s@;
        s.pop();
        assert(s@ =~= before.drop_last());
    }
}

fn render_node_exec(v: &JsonValue) -> (r: Vec<char>)
    ensures
        r@ == render_node(v@),
    decreases v, 0nat,
{
    proof {
        lemma_view_parts(*v);
    }
    match v {
        JsonValue::Object(m) => {
            let ghost e = json_entries(m@);
            proof {
                lemma_obj_index(e, seq!['t', 'y', 'p', 'e']);
                lemma_obj_index(e, seq!['c', 'o', 'n', 't', 'e', 'n', 't']);
                assert(e.len() == m@.len());
            }
            let t: Vec<char> = match field_str(m, &['t', 'y', 'p', 'e']) {
                Some(c) => c,
                None => Vec::new(),
            };
            assert(t@ == node_type(e));
            let k = field_index(m, &['c', 'o', 'n', 't', 'e', 'n', 't']);
            let mut items: Option<&Vec<JsonValue>> = None;
            match k {
                Some(i) => {
                    proof {
                        lemma_view_parts(m@[i as int].1);
                    }
                    match &m[i].1 {
                        JsonValue::Array(a) => {
                            proof {
                                assert(decreases_to!(*v => *m));
                                assert(decreases_to!(*m => m@));
                                assert(decreases_to!(m@ => m@[i as int]));
                                assert(decreases_to!(m@[i as int] => m@[i as int].1));
                                assert(decreases_to!(m@[i as int].1 => *a));
                            }
                            items = Some(a);
                        },
                        _ => {},
                    }
                },
                None => {},
            }
            let ghost has_items = {
                let kk = obj_index(e, seq!['c', 'o', 'n', 't', 'e', 'n', 't']);
                0 <= kk < e.len() && e[kk].1 is Array
            };
            assert(items is Some <==> has_items);
            assert(items matches Some(a) ==> decreases_to!(*v => *a) && e[obj_index(e, seq!['c', 'o', 'n', 't', 'e', 'n', 't'])].1->Array_0 == json_items(a@));
            let children: Vec<char> = match items {
                Some(a) => render_items_exec(a),
                None => Vec::new(),
            };
            let mut r: Vec<char> = Vec::new();
            if chars_eq(&t, &['d', 'o', 'c']) || chars_eq(&t, &['b', 'l', 'o', 'c', 'k', 'q', 'u', 'o', 't', 'e']) || chars_eq(&t, &['p', 'a', 'n', 'e', 'l'])
                || chars_eq(&t, &['e', 'x', 'p', 'a', 'n', 'd']) || chars_eq(&t, &['t', 'a', 'b', 'l', 'e']) {
                r = children;
            } else if chars_eq(&t, &['p', 'a', 'r', 'a', 'g', 'r', 'a', 'p', 'h']) || chars_eq(&t, &['h', 'e', 'a', 'd', 'i', 'n', 'g']) || chars_eq(&t, &['c', 'o', 'd', 'e', 'B', 'l', 'o', 'c', 'k']) {
                r = children;
                r.push('\n');
            } else if chars_eq(&t, &['b', 'u', 'l', 'l', 'e', 't', 'L', 'i', 's', 't']) {
                match items {
                    Some(a) => { r = render_bullets_exec(a); },
                    None => {},
                }
            } else if chars_eq(&t, &['o', 'r', 'd', 'e', 'r', 'e', 'd', 'L', 'i', 's', 't']) {
                match items {
                    Some(a) => { r = render_numbered_exec(a); },
                    None => {},
                }
            } else if chars_eq(&t, &['l', 'i', 's', 't', 'I', 't', 'e', 'm']) {
                match items {
                    Some(a) => { r = render_item_lines_exec(a); },
                    None => {},
                }
            } else if chars_eq(&t, &['t', 'e', 'x', 't']) {
                match field_str(m, &['t', 'e', 'x', 't']) {
                    Some(c) => { r = c; },
                    None => {},
                }
            } else if chars_eq(&t, &['h', 'a', 'r', 'd', 'B', 'r', 'e', 'a', 'k']) {
                r.push('\n');
            } else if chars_eq(&t, &['r', 'u', 'l', 'e']) {
                crate::text::push_chars(&mut r, &['-', '-', '-', '\n']);
            } else if chars_eq(&t, &['t', 'a', 'b', 'l', 'e', 'R', 'o', 'w']) {
                match items {
                    Some(a) => {
                        let cells = render_cells_exec(a);
                        r = join_exec(&cells, '\t');
                    },
                    None => {},
                }
                r.push('\n');
            } else if chars_eq(&t, &['t', 'a', 'b', 'l', 'e', 'H', 'e', 'a', 'd', 'e', 'r']) || chars_eq(&t, &['t', 'a', 'b', 'l', 'e', 'C', 'e', 'l', 'l']) {
                r = children;
                drop_one_newline_exec(&mut r);
            } else if chars_eq(&t, &['m', 'e', 'n', 't', 'i', 'o', 'n']) {
                r = attr_of(m, &['t', 'e', 'x', 't'], &['@', 'u', 'n', 'k', 'n', 'o', 'w', 'n']);
            } else if chars_eq(&t, &['i', 'n', 'l', 'i', 'n', 'e', 'C', 'a', 'r', 'd']) {
                r = attr_of(m, &['u', 'r', 'l'], &[]);
            } else if chars_eq(&t, &['e', 'm', 'o', 'j', 'i']) {
                r = attr_of(m, &['t', 'e', 'x', 't'], &[]);
                if r.len() == 0 {
                    r = attr_of(m, &['s', 'h', 'o', 'r', 't', 'N', 'a', 'm', 'e'], &[]);
                }
            } else if chars_eq(&t, &['d', 'a', 't', 'e']) {
                r = attr_of(m, &['t', 'i', 'm', 'e', 's', 't', 'a', 'm', 'p'], &[]);
            } else if chars_eq(&t, &['s', 't', 'a', 't', 'u', 's']) {
                r = attr_of(m, &['t', 'e', 'x', 't'], &[]);
            } else if chars_eq(&t, &['m', 'e', 'd', 'i', 'a', 'S', 'i', 'n', 'g', 'l', 'e']) || chars_eq(&t, &['m', 'e', 'd', 'i', 'a', 'I', 'n', 'l', 'i', 'n', 'e']) || chars_eq(&t, &['m', 'e', 'd', 'i', 'a'])
                || chars_eq(&t, &['m', 'e', 'd', 'i', 'a', 'G', 'r', 'o', 'u', 'p']) {
            } else {
                r = children;
            }
            r
        },
        _ => Vec::new(),
    }
}

fn render_items_exec(a: &Vec<JsonValue>) -> (r: Vec<char>)
    ensures
        r@ == render_items(json_items(a@)),
    decreases a, 1nat,
{
    let ghost items = json_items(a@);
    let mut r: Vec<char> = Vec::new();
    let n = a.len();
    assert(items.take(0) =~= Seq::<Json>::empty());
    for i in 0..n
        invariant
            n == a@.len(),
            items == json_items(a@),
            r@ == render_items(items.take(i as int)),
    {
        proof {
            assert(decreases_to!(*a => a@));
            assert(decreases_to!(a@ => a@[i as int]));
            lemma_view_parts(a@[i as int]);
            assert(items.take(i + 1).drop_last() =~= items.take(i as int));
            assert(items.take(i + 1).last() == json_view(a@[i as int]));
        }
        match &a[i] {
            JsonValue::Object(_) => {
                let mut t = render_node_exec(&a[i]);
                r.append(&mut t);
            },
            _ => {},
        }
    }
    assert(items.take(n as int) =~= items);
    r
}

fn render_bullets_exec(a: &Vec<JsonValue>) -> (r: Vec<char>)
    ensures
        r@ == render_bullets(json_items(a@)),
    decreases a, 1nat,
{
    let ghost items = json_items(a@);
    let mut r: Vec<char> = Vec::new();
    let n = a.len();
    assert(items.take(0) =~= Seq::<Json>::empty());
    for i in 0..n
        invariant
            n == a@.len(),
            items == json_items(a@),
            r@ == render_bullets(items.take(i as int)),
    {
        proof {
            assert(decreases_to!(*a => a@));
            assert(decreases_to!(a@ => a@[i as int]));
            lemma_view_parts(a@[i as int]);
            assert(items.take(i + 1).drop_last() =~= items.take(i as int));
            assert(items.take(i + 1).last() == json_view(a@[i as int]));
        }
        match &a[i] {
            JsonValue::Object(_) => {
                let ghost before = r@;
                let mut t = render_node_exec(&a[i]);
                trim_newlines_exec(&mut t);
                crate::text::push_chars(&mut r, &['*', ' ']);
                r.append(&mut t);
                r.push('\n');
                assert(r@ =~= before + (seq!['*', ' '] + trim_newlines(render_node(items[i as int])) + seq!['\n']));
            },
            _ => {},
        }
    }
    assert(items.take(n as int) =~= items);
    r
}

fn render_numbered_exec(a: &Vec<JsonValue>) -> (r: Vec<char>)
    ensures
        r@ == render_numbered(json_items(a@)),
    decreases a, 1nat,
{
    let ghost items = json_items(a@);
    let mut r: Vec<char> = Vec::new();
    let n = a.len();
    assert(items.take(0) =~= Seq::<Json>::empty());
    for i in 0..n
        invariant
            n == a@.len(),
            items == json_items(a@),
            r@ == render_numbered(items.take(i as int)),
    {
        proof {
            assert(decreases_to!(*a => a@));
            assert(decreases_to!(a@ => a@[i as int]));
            lemma_view_parts(a@[i as int]);
            assert(items.take(i + 1).drop_last() =~= items.take(i as int));
            assert(items.take(i + 1).last() == json_view(a@[i as int]));
        }
        match &a[i] {
            JsonValue::Object(_) => {
                let ghost before = r@;
                let mut t = render_node_exec(&a[i]);
                trim_newlines_exec(&mut t);
                let num = u64_to_decimal((i + 1) as u64);
                let numc = chars_of(num.as_str());
                crate::text::push_chars(&mut r, numc.as_slice());
                crate::text::push_chars(&mut r, &['.', ' ']);
                r.append(&mut t);
                r.push('\n');
                assert(r@ =~= before + (decimal(items.take(i + 1).len()) + seq!['.', ' '] + trim_newlines(render_node(items[i as int])) + seq!['\n']));
            },
            _ => {},
        }
    }
    assert(items.take(n as int) =~= items);
    r
}

fn render_item_lines_exec(a: &Vec<JsonValue>) -> (r: Vec<char>)
    ensures
        r@ == render_item_lines(json_items(a@)),
    decreases a, 1nat,
{
    let ghost items = json_items(a@);
    let mut r: Vec<char> = Vec::new();
    let n = a.len();
    assert(items.take(0) =~= Seq::<Json>::empty());
    for i in 0..n
        invariant
            n == a@.len(),
            items == json_items(a@),
            r@ == render_item_lines(items.take(i as int)),
    {
        proof {
            assert(decreases_to!(*a => a@));
            assert(decreases_to!(a@ => a@[i as int]));
            lemma_view_parts(a@[i as int]);
            assert(items.take(i + 1).drop_last() =~= items.take(i as int));
            assert(items.take(i + 1).last() == json_view(a@[i as int]));
        }
        match &a[i] {
            JsonValue::Object(_) => {
                let ghost before = r@;
                let mut t = render_node_exec(&a[i]);
                trim_newlines_exec(&mut t);
                if t.len() > 0 {
                    if r.len() > 0 {
                        r.push('\n');
                    }
                    r.append(&mut t);
                }
            },
            _ => {},
        }
    }
    assert(items.take(n as int) =~= items);
    r
}

fn render_cells_exec(a: &Vec<JsonValue>) -> (r: Vec<Vec<char>>)
    ensures
        r@.len() == render_cells(json_items(a@)).len(),
        forall|j: int| 0 <= j < r@.len() ==> #[trigger] r@[j]@ == render_cells(json_items(a@))[j],
    decreases a, 1nat,
{
    let ghost items = json_items(a@);
    let mut r: Vec<Vec<char>> = Vec::new();
    let n = a.len();
    assert(items.take(0) =~= Seq::<Json>::empty());
    for i in 0..n
        invariant
            n == a@.len(),
            items == json_items(a@),
            r@.len() == render_cells(items.take(i as int)).len(),
            forall|j: int| 0 <= j < r@.len() ==> #[trigger] r@[j]@ == render_cells(items.take(i as int))[j],
    {
        proof {
            assert(decreases_to!(*a => a@));
            assert(decreases_to!(a@ => a@[i as int]));
            lemma_view_parts(a@[i as int]);
            assert(items.take(i + 1).drop_last() =~= items.take(i as int));
            assert(items.take(i + 1).last() == json_view(a@[i as int]));
        }
        match &a[i] {
            JsonValue::Object(_) => {
                let t = render_node_exec(&a[i]);
                r.push(t);
            },
            _ => {},
        }
    }
    assert(items.take(n as int) =~= items);
    r
}

fn join_exec(parts: &Vec<Vec<char>>, sep: char) -> (r: Vec<char>)
    ensures
        forall|q: Seq<Seq<char>>| q.len() == parts@.len() && (forall|j: int| 0 <= j < q.len() ==> #[trigger] q[j] == parts@[j]@) ==> r@ == join(q, sep),
{
    let ghost q = Seq::new(parts@.len(), |j: int| parts@[j]@);
    let mut r: Vec<char> = Vec::new();
    let n = parts.len();
    for i in 0..n
        invariant
            n == parts@.len(),
            q == Seq::new(parts@.len(), |j: int| parts@[j]@),
            r@ == join(q.take(i as int), sep),
    {
        assert(q.take(i + 1).drop_last() =~= q.take(i as int));
        if i > 0 {
            r.push(sep);
        } else {
            assert(q.take(0) =~= Seq::<Seq<char>>::empty());
        }
        crate::text::push_chars(&mut r, parts[i].as_slice());
    }
    assert(q.take(n as int) =~= q);
    assert forall|q2: Seq<Seq<char>>| q2.len() == parts@.len() && (forall|j: int| 0 <= j < q2.len() ==> #[trigger] q2[j] == parts@[j]@) implies r@ == join(q2, sep) by {
        assert(q2 =~= q);
    }
    r
}

/// Renders an Atlassian Document Format value as plain text.
pub fn render_adf(doc: &JsonValue) -> (r: String)
    ensures
        r@ == render_adf_spec(doc@),
{
    match doc {
        JsonValue::Str(s) => s.clone(),
        JsonValue::Object(_) => {
            let mut r = render_node_exec(doc);
            drop_one_newline_exec(&mut r);
            string_of(r.as_slice())
        },
        _ => to_json_text(doc),
    }
}


/// The pieces of `s` between newlines, as `str::split('\n')` yields them
/// (an empty string gives one empty piece).
pub open spec fn split_lines(s: Seq<char>) -> Seq<Seq<char>>
    decreases s.len(),
{
    if s.len() == 0 {
        seq![seq![]]
    } else if s.last() == '\n' {
        split_lines(s.drop_last()).push(seq![])
    } else {
        let l = split_lines(s.drop_last());
        l.update(l.len() - 1, l.last().push(s.last()))
    }
}

pub proof fn lemma_split_lines_nonempty(s: Seq<char>)
    ensures
        split_lines(s).len() >= 1,
    decreases s.len(),
{
    if s.len() > 0 {
        lemma_split_lines_nonempty(s.drop_last());
    }
}

/// An ADF text node.
pub open spec fn adf_text_node(line: Seq<char>) -> Json {
    Json::Object(seq![(seq!['t', 'e', 'x', 't'], Json::Str(line)), (seq!['t', 'y', 'p', 'e'], Json::Str(seq!['t', 'e', 'x', 't']))])
}

/// An ADF paragraph holding one line of text.
pub open spec fn adf_paragraph(line: Seq<char>) -> Json {
    Json::Object(seq![(seq!['c', 'o', 'n', 't', 'e', 'n', 't'], Json::Array(seq![adf_text_node(line)])), (seq!['t', 'y', 'p', 'e'], Json::Str(seq!['p', 'a', 'r', 'a', 'g', 'r', 'a', 'p', 'h']))])
}

/// The ADF document that `text_to_adf` builds: one paragraph per line, entries
/// in key order as a JSON map holds them.
pub open spec fn text_to_adf_spec(text: Seq<char>) -> Json {
    let lines = split_lines(text);
    Json::Object(
        seq![
            (seq!['c', 'o', 'n', 't', 'e', 'n', 't'], Json::Array(Seq::new(lines.len(), |i: int| adf_paragraph(lines[i])))),
            (seq!['t', 'y', 'p', 'e'], Json::Str(seq!['d', 'o', 'c'])),
            (seq!['v', 'e', 'r', 's', 'i', 'o', 'n'], Json::Number(seq!['1'])),
        ],
    )
}

fn key(k: &[char]) -> (s: String)
    ensures
        s@ == k@,
{
    string_of(k)
}

fn text_node(line: String) -> (v: JsonValue)
    ensures
        v@ == adf_text_node(line@),
{
    let e = vec![(key(&['t', 'e', 'x', 't']), JsonValue::Str(line)), (key(&['t', 'y', 'p', 'e']), JsonValue::Str(key(&['t', 'e', 'x', 't'])))];
    let v = JsonValue::Object(e);
    proof {
        lemma_view_parts(v);
        assert(json_entries(e@) =~= seq![(seq!['t', 'e', 'x', 't'], Json::Str(line@)), (seq!['t', 'y', 'p', 'e'], Json::Str(seq!['t', 'e', 'x', 't']))]);
    }
    v
}

fn paragraph(line: String) -> (v: JsonValue)
    ensures
        v@ == adf_paragraph(line@),
{
    let t = text_node(line);
    let ghost tv = t@;
    let content = vec![t];
    let c = JsonValue::Array(content);
    proof {
        lemma_view_parts(c);
        assert(json_items(content@) =~= seq![tv]);
    }
    let ghost cv = c@;
    let e = vec![(key(&['c', 'o', 'n', 't', 'e', 'n', 't']), c), (key(&['t', 'y', 'p', 'e']), JsonValue::Str(key(&['p', 'a', 'r', 'a', 'g', 'r', 'a', 'p', 'h'])))];
    let v = JsonValue::Object(e);
    proof {
        lemma_view_parts(v);
        assert(json_entries(e@) =~= seq![(seq!['c', 'o', 'n', 't', 'e', 'n', 't'], cv), (seq!['t', 'y', 'p', 'e'], Json::Str(seq!['p', 'a', 'r', 'a', 'g', 'r', 'a', 'p', 'h']))]);
    }
    v
}

/// Converts plain text to a minimal ADF document: one paragraph per line.
pub fn text_to_adf(text: &str) -> (r: JsonValue)
    ensures
        r@ == text_to_adf_spec(text@),
{
    let cs = chars_of(text);
    let n = cs.len();
    let mut lines: Vec<String> = Vec::new();
    let mut cur = String::new();
    assert(cs@.take(0) =~= Seq::<char>::empty());
    for i in 0..n
        invariant
            n == cs@.len(),
            cs@ == text@,
            lines@.len() + 1 == split_lines(cs@.take(i as int)).len(),
            forall|j: int| 0 <= j < lines@.len() ==> #[trigger] lines@[j]@ == split_lines(cs@.take(i as int))[j],
            cur@ == split_lines(cs@.take(i as int)).last(),
    {
        let ghost prev = split_lines(cs@.take(i as int));
        assert(cs@.take(i + 1).drop_last() =~= cs@.take(i as int));
        if cs[i] == '\n' {
            let done = cur;
            lines.push(done);
            cur = String::new();
        } else {
            push_char(&mut cur, cs[i]);
        }
    }
    assert(cs@.take(n as int) =~= cs@);
    let ghost ls = split_lines(cs@);
    lines.push(cur);
    assert(lines@.len() == ls.len());
    let mut paras: Vec<JsonValue> = Vec::new();
    let m = lines.len();
    let mut k: usize = 0;
    while k < m
        invariant
            k <= m,
            m == lines@.len(),
            m == ls.len(),
            forall|j: int| 0 <= j < m ==> #[trigger] lines@[j]@ == ls[j],
            paras@.len() == k,
            forall|j: int| 0 <= j < k ==> #[trigger] json_view(paras@[j]) == adf_paragraph(ls[j]),
        decreases m - k,
    {
        let line = lines[k].clone();
        let p = paragraph(line);
        paras.push(p);
        k = k + 1;
    }
    let content = JsonValue::Array(paras);
    proof {
        lemma_view_parts(content);
        assert(json_items(paras@) =~= Seq::new(ls.len(), |i: int| adf_paragraph(ls[i])));
    }
    let ghost cv = content@;
    let k1 = key(&['c', 'o', 'n', 't', 'e', 'n', 't']);
    let k2 = key(&['t', 'y', 'p', 'e']);
    let v2 = JsonValue::Str(key(&['d', 'o', 'c']));
    let k3 = key(&['v', 'e', 'r', 's', 'i', 'o', 'n']);
    let mut one = String::new();
    push_char(&mut one, '1');
    assert(one@ =~= seq!['1']);
    let v3 = JsonValue::Number(one);
    assert(v2@ == Json::Str(seq!['d', 'o', 'c']));
    assert(v3@ == Json::Number(seq!['1']));
    let e = vec![(k1, content), (k2, v2), (k3, v3)];
    let r = JsonValue::Object(e);
    proof {
        lemma_view_parts(r);
        assert(json_entries(e@) =~= seq![(seq!['c', 'o', 'n', 't', 'e', 'n', 't'], cv), (seq!['t', 'y', 'p', 'e'], Json::Str(seq!['d', 'o', 'c'])), (seq!['v', 'e', 'r', 's', 'i', 'o', 'n'], Json::Number(seq!['1']))]);
    }
    r
}


/// Each line followed by a newline.
pub open spec fn lines_text(lines: Seq<Seq<char>>) -> Seq<char>
    decreases lines.len(),
{
    if lines.len() == 0 {
        seq![]
    } else {
        lines_text(lines.drop_last()) + lines.last().push('\n')
    }
}

proof fn lemma_render_text_node(l: Seq<char>)
    ensures
        render_node(adf_text_node(l)) == l,
{
    let m = seq![(seq!['t', 'e', 'x', 't'], Json::Str(l)), (seq!['t', 'y', 'p', 'e'], Json::Str(seq!['t', 'e', 'x', 't']))];
    assert(m[0].0 != seq!['t', 'y', 'p', 'e']);
    assert(m.drop_first()[0].0 == seq!['t', 'y', 'p', 'e']);
    assert(obj_get(m.drop_first(), seq!['t', 'y', 'p', 'e']) == Some(Json::Str(seq!['t', 'e', 'x', 't'])));
    assert(obj_get(m, seq!['t', 'y', 'p', 'e']) == Some(Json::Str(seq!['t', 'e', 'x', 't'])));
    assert(node_type(m) == seq!['t', 'e', 'x', 't']);
    assert(obj_get(m, seq!['t', 'e', 'x', 't']) == Some(Json::Str(l)));
    lemma_obj_index(m, seq!['c', 'o', 'n', 't', 'e', 'n', 't']);
    assert(seq!['t', 'e', 'x', 't'] != seq!['d', 'o', 'c']);
    assert(seq!['t', 'e', 'x', 't'] != seq!['b', 'l', 'o', 'c', 'k', 'q', 'u', 'o', 't', 'e']);
    assert(seq!['t', 'e', 'x', 't'] != seq!['p', 'a', 'n', 'e', 'l']);
    assert(seq!['t', 'e', 'x', 't'] != seq!['e', 'x', 'p', 'a', 'n', 'd']);
    assert(seq!['t', 'e', 'x', 't'] != seq!['t', 'a', 'b', 'l', 'e']);
    assert(seq!['t', 'e', 'x', 't'] != seq!['p', 'a', 'r', 'a', 'g', 'r', 'a', 'p', 'h']);
    assert(seq!['t', 'e', 'x', 't'] != seq!['h', 'e', 'a', 'd', 'i', 'n', 'g']);
    assert(seq!['t', 'e', 'x', 't'] != seq!['c', 'o', 'd', 'e', 'B', 'l', 'o', 'c', 'k']);
    assert(seq!['t', 'e', 'x', 't'] != seq!['b', 'u', 'l', 'l', 'e', 't', 'L', 'i', 's', 't']);
    assert(seq!['t', 'e', 'x', 't'] != seq!['o', 'r', 'd', 'e', 'r', 'e', 'd', 'L', 'i', 's', 't']);
    assert(seq!['t', 'e', 'x', 't'] != seq!['l', 'i', 's', 't', 'I', 't', 'e', 'm']);
}

proof fn lemma_render_paragraph(l: Seq<char>)
    ensures
        render_node(adf_paragraph(l)) == l.push('\n'),
{
    let items = seq![adf_text_node(l)];
    let m = seq![(seq!['c', 'o', 'n', 't', 'e', 'n', 't'], Json::Array(items)), (seq!['t', 'y', 'p', 'e'], Json::Str(seq!['p', 'a', 'r', 'a', 'g', 'r', 'a', 'p', 'h']))];
    assert(m[0].0 != seq!['t', 'y', 'p', 'e']);
    assert(m.drop_first()[0].0 == seq!['t', 'y', 'p', 'e']);
    assert(obj_get(m.drop_first(), seq!['t', 'y', 'p', 'e']) == Some(Json::Str(seq!['p', 'a', 'r', 'a', 'g', 'r', 'a', 'p', 'h'])));
    assert(node_type(m) == seq!['p', 'a', 'r', 'a', 'g', 'r', 'a', 'p', 'h']);
    assert(obj_index(m, seq!['c', 'o', 'n', 't', 'e', 'n', 't']) == 0);
    lemma_render_text_node(l);
    assert(items.drop_last() =~= Seq::<Json>::empty());
    assert(render_items(items.drop_last()) =~= Seq::<char>::empty());
    assert(items.last() == adf_text_node(l));
    assert(render_items(items) =~= l);
    assert(seq!['p', 'a', 'r', 'a', 'g', 'r', 'a', 'p', 'h'] != seq!['d', 'o', 'c']);
    assert(seq!['p', 'a', 'r', 'a', 'g', 'r', 'a', 'p', 'h'] != seq!['b', 'l', 'o', 'c', 'k', 'q', 'u', 'o', 't', 'e']);
    assert(seq!['p', 'a', 'r', 'a', 'g', 'r', 'a', 'p', 'h'] != seq!['p', 'a', 'n', 'e', 'l']);
    assert(seq!['p', 'a', 'r', 'a', 'g', 'r', 'a', 'p', 'h'] != seq!['e', 'x', 'p', 'a', 'n', 'd']);
    assert(seq!['p', 'a', 'r', 'a', 'g', 'r', 'a', 'p', 'h'] != seq!['t', 'a', 'b', 'l', 'e']);
}

proof fn lemma_render_paragraphs(lines: Seq<Seq<char>>)
    ensures
        render_items(Seq::new(lines.len(), |i: int| adf_paragraph(lines[i]))) == lines_text(lines),
    decreases lines.len(),
{
    let items = Seq::new(lines.len(), |i: int| adf_paragraph(lines[i]));
    if lines.len() > 0 {
        let prev = lines.drop_last();
        lemma_render_paragraphs(prev);
        assert(items.drop_last() =~= Seq::new(prev.len(), |i: int| adf_paragraph(prev[i])));
        lemma_render_paragraph(lines.last());
    }
}

proof fn lemma_lines_text_join(lines: Seq<Seq<char>>)
    requires
        lines.len() >= 1,
    ensures
        lines_text(lines) == join(lines, '\n').push('\n'),
    decreases lines.len(),
{
    if lines.len() == 1 {
        assert(lines.drop_last() =~= Seq::<Seq<char>>::empty());
        assert(lines_text(lines.drop_last()) =~= Seq::<char>::empty());
        assert(lines_text(lines) =~= lines[0].push('\n'));
    } else {
        lemma_lines_text_join(lines.drop_last());
        assert(lines_text(lines) =~= join(lines, '\n').push('\n'));
    }
}

proof fn lemma_join_split(s: Seq<char>)
    ensures
        join(split_lines(s), '\n') == s,
    decreases s.len(),
{
    if s.len() > 0 {
        let prev = s.drop_last();
        lemma_join_split(prev);
        lemma_split_lines_nonempty(prev);
        let l = split_lines(prev);
        if s.last() == '\n' {
            assert(l.push(seq![]).drop_last() =~= l);
            assert(join(l.push(seq![]), '\n') =~= s);
        } else {
            let u = l.update(l.len() - 1, l.last().push(s.last()));
            assert(u.drop_last() =~= l.drop_last());
            if l.len() == 1 {
                assert(u.len() == 1);
                assert(join(l, '\n') == l[0]);
                assert(u[0] == l[0].push(s.last()));
                assert(join(u, '\n') == u[0]);
                assert(s =~= prev.push(s.last()));
                assert(join(u, '\n') =~= s);
            } else {
                assert(u.len() == l.len());
                assert(u.last() == l.last().push(s.last()));
                assert(join(u, '\n') == join(u.drop_last(), '\n').push('\n') + u.last());
                assert(join(l, '\n') == join(l.drop_last(), '\n').push('\n') + l.last());
                assert(join(u, '\n') =~= join(l, '\n').push(s.last()));
                assert(s =~= prev.push(s.last()));
            }
        }
    } else {
        assert(join(seq![seq![]], '\n') =~= s);
    }
}

/// Rendering the ADF document that `text_to_adf` builds from a text gives
/// back that text, for every text.
pub proof fn law_text_adf_roundtrip(text: Seq<char>)
    ensures
        render_adf_spec(text_to_adf_spec(text)) == text,
{
    let lines = split_lines(text);
    let items = Seq::new(lines.len(), |i: int| adf_paragraph(lines[i]));
    let m = seq![
        (seq!['c', 'o', 'n', 't', 'e', 'n', 't'], Json::Array(items)),
        (seq!['t', 'y', 'p', 'e'], Json::Str(seq!['d', 'o', 'c'])),
        (seq!['v', 'e', 'r', 's', 'i', 'o', 'n'], Json::Number(seq!['1'])),
    ];
    assert(m[0].0 != seq!['t', 'y', 'p', 'e']);
    assert(m.drop_first()[0].0 == seq!['t', 'y', 'p', 'e']);
    assert(obj_get(m.drop_first(), seq!['t', 'y', 'p', 'e']) == Some(Json::Str(seq!['d', 'o', 'c'])));
    assert(node_type(m) == seq!['d', 'o', 'c']);
    assert(obj_index(m, seq!['c', 'o', 'n', 't', 'e', 'n', 't']) == 0);
    lemma_render_paragraphs(lines);
    lemma_split_lines_nonempty(text);
    lemma_lines_text_join(lines);
    lemma_join_split(text);
    assert(render_node(text_to_adf_spec(text)) == text.push('\n'));
    assert(text.push('\n').drop_last() =~= text);
}

/// Whether an object node is a block of text: a paragraph, a heading or a
/// code block.
pub open spec fn is_text_block(m: Seq<(Seq<char>, Json)>) -> bool {
    ||| node_type(m) == seq!['p', 'a', 'r', 'a', 'g', 'r', 'a', 'p', 'h']
    ||| node_type(m) == seq!['h', 'e', 'a', 'd', 'i', 'n', 'g']
    ||| node_type(m) == seq!['c', 'o', 'd', 'e', 'B', 'l', 'o', 'c', 'k']
}

/// The text of a node's children (its `content` array), nothing when it has none.
pub open spec fn children_text(m: Seq<(Seq<char>, Json)>) -> Seq<char> {
    match obj_get(m, seq!['c', 'o', 'n', 't', 'e', 'n', 't']) {
        Some(Json::Array(c)) => render_items(c),
        _ => seq![],
    }
}

/// Every paragraph, heading and code block renders as the text of its
/// children followed by exactly one newline.
pub proof fn law_text_block(m: Seq<(Seq<char>, Json)>)
    requires
        is_text_block(m),
    ensures
        render_node(Json::Object(m)) == children_text(m).push('\n'),
{
    lemma_obj_index(m, seq!['c', 'o', 'n', 't', 'e', 'n', 't']);
    let t = node_type(m);
    assert(t.len() == 9 || t.len() == 7);
    assert(t != seq!['d', 'o', 'c']);
    assert(t != seq!['b', 'l', 'o', 'c', 'k', 'q', 'u', 'o', 't', 'e']);
    assert(t != seq!['p', 'a', 'n', 'e', 'l']);
    assert(t != seq!['e', 'x', 'p', 'a', 'n', 'd']);
    assert(t != seq!['t', 'a', 'b', 'l', 'e']);
}

/// Consecutive text blocks are always separated by a line break: two of them
/// side by side render as the first one's text, a newline, the second one's
/// text and a newline.
pub proof fn law_text_blocks_separated(m1: Seq<(Seq<char>, Json)>, m2: Seq<(Seq<char>, Json)>)
    requires
        is_text_block(m1),
        is_text_block(m2),
    ensures
        render_items(seq![Json::Object(m1), Json::Object(m2)])
            == children_text(m1) + seq!['\n'] + children_text(m2) + seq!['\n'],
{
    law_text_block(m1);
    law_text_block(m2);
    let items = seq![Json::Object(m1), Json::Object(m2)];
    assert(items.drop_last() =~= seq![Json::Object(m1)]);
    assert(seq![Json::Object(m1)].drop_last() =~= Seq::<Json>::empty());
    assert(render_items(Seq::<Json>::empty()) =~= Seq::<char>::empty());
    assert(render_items(seq![Json::Object(m1)]) =~= render_node(Json::Object(m1)));
    assert(render_items(items) =~= children_text(m1) + seq!['\n'] + children_text(m2) + seq!['\n']);
}

// ---------------------------------------------------------------------------
// Issue data
// ---------------------------------------------------------------------------

/// An issue type.
pub struct IssueType {
    pub name: String,
}

/// An issue status.
pub struct StatusDetails {
    pub name: String,
}

/// An issue priority.
pub struct Priority {
    pub name: String,
}

/// A user as an issue names one.
pub struct UserDetails {
    pub display_name: String,
}

/// A project component.
pub struct ProjectComponent {
    pub name: String,
}

/// A project version.
pub struct Version {
    pub name: String,
}

/// The fields of an issue; the description is an ADF document.
pub struct IssueFields {
    pub summary: String,
    pub description: Option<JsonValue>,
    pub issuetype: Option<IssueType>,
    pub status: Option<StatusDetails>,
    pub priority: Option<Priority>,
    pub assignee: Option<UserDetails>,
    pub reporter: Option<UserDetails>,
    pub created: Option<String>,
    pub updated: Option<String>,
    pub labels: Vec<String>,
    pub components: Vec<ProjectComponent>,
    pub fix_versions: Vec<Version>,
}

/// An issue with its fields.
pub struct IssueDetailed {
    pub id: String,
    pub key: String,
    pub fields: IssueFields,
}

/// One page of search results.
pub struct SearchResults {
    pub start_at: i32,
    pub max_results: i32,
    pub total: i32,
    pub issues: Vec<IssueDetailed>,
}

/// What creating an issue answers.
pub struct CreateIssueResponse {
    pub id: String,
    pub key: String,
    pub self_url: Option<String>,
}

/// A workflow transition.
pub struct Transition {
    pub id: String,
    pub name: String,
}

/// The transitions an issue can take.
pub struct TransitionsResponse {
    pub transitions: Vec<Transition>,
}

/// The author of a comment.
pub struct CommentAuthor {
    pub display_name: String,
}

/// A comment; its body is an ADF document.
pub struct Comment {
    pub id: String,
    pub body: Option<JsonValue>,
    pub author: Option<CommentAuthor>,
    pub created: Option<String>,
    pub updated: Option<String>,
}

/// One page of comments.
pub struct CommentsResponse {
    pub start_at: i32,
    pub max_results: i32,
    pub total: i32,
    pub comments: Vec<Comment>,
}

/// The author of a worklog.
pub struct WorklogAuthor {
    pub display_name: String,
}

/// A worklog; its comment is an ADF document.
pub struct Worklog {
    pub id: String,
    pub time_spent: Option<String>,
    pub time_spent_seconds: Option<i64>,
    pub comment: Option<JsonValue>,
    pub author: Option<WorklogAuthor>,
    pub created: Option<String>,
    pub updated: Option<String>,
}

/// One page of worklogs.
pub struct WorklogsResponse {
    pub start_at: i32,
    pub max_results: i32,
    pub total: i32,
    pub worklogs: Vec<Worklog>,
}

// ---------------------------------------------------------------------------
// Issue API requests
// ---------------------------------------------------------------------------

/// The path of an issue's resource.
pub open spec fn issue_path(key: Seq<char>) -> Seq<char> {
    "/rest/api/3/issue/"@ + key
}

fn issue_path_exec(key: &str, suffix: &str) -> (r: String)
    ensures
        r@ == issue_path(key@) + suffix@,
{
    let mut p = String::from_str("/rest/api/3/issue/");
    p.append(key);
    p.append(suffix);
    p
}

/// Fetches one issue.
pub fn get_issue(client: &Client, key: &str) -> (r: HttpRequest)
    ensures
        r@ == client.request_spec("GET"@, issue_path(key@), None, None),
{
    let p = issue_path_exec(key, "");
    proof {
        reveal_strlit("");
    }
    assert(p@ =~= issue_path(key@));
    client.request("GET", p.as_str(), None, None)
}

/// The query parameters of a JQL search.
pub open spec fn search_query(jql: Seq<char>, start_at: i32, max_results: i32, fields: Seq<Seq<char>>) -> Seq<(Seq<char>, Seq<char>)> {
    seq![
        ("jql"@, jql),
        ("startAt"@, signed_decimal(start_at as int)),
        ("maxResults"@, signed_decimal(max_results as int)),
        ("fields"@, join_with(fields, ","@)),
    ]
}

/// Searches issues with JQL, asking for the given fields (comma-separated).
pub fn search_jql(client: &Client, jql: &str, start_at: i32, max_results: i32, fields: &[&str]) -> (r: HttpRequest)
    ensures
        r@ == client.request_spec(
            "GET"@,
            "/rest/api/3/search/jql"@,
            Some(search_query(jql@, start_at, max_results, strs_view(fields@))),
            None,
        ),
{
    let fields_str = join_strs(fields, ",");
    let start_str = i64_to_decimal(start_at as i64);
    let max_str = i64_to_decimal(max_results as i64);
    let q = [("jql", jql), ("startAt", start_str.as_str()), ("maxResults", max_str.as_str()), ("fields", fields_str.as_str())];
    let qs: &[(&str, &str)] = &q;
    assert(query_view(Some(qs))->0 =~= search_query(jql@, start_at, max_results, strs_view(fields@)));
    client.request("GET", "/rest/api/3/search/jql", Some(qs), None)
}

/// `{"name": n}`.
pub open spec fn name_obj(n: Seq<char>) -> Json {
    obj1("name"@, Json::Str(n))
}

/// The ADF document of an optional text.
pub open spec fn opt_adf(t: Option<Seq<char>>) -> Option<Json> {
    match t {
        Some(d) => Some(text_to_adf_spec(d)),
        None => None,
    }
}

/// The `name` object of an optional text.
pub open spec fn opt_name(t: Option<Seq<char>>) -> Option<Json> {
    match t {
        Some(n) => Some(name_obj(n)),
        None => None,
    }
}

/// The body that creates an issue (entries in key order).
pub open spec fn create_issue_body(
    project: Seq<char>,
    summary: Seq<char>,
    issue_type: Seq<char>,
    description: Option<Seq<char>>,
    priority: Option<Seq<char>>,
) -> Json {
    obj1(
        "fields"@,
        Json::Object(
            opt_entry("description"@, opt_adf(description)) + seq![("issuetype"@, name_obj(issue_type))] + opt_entry(
                "priority"@,
                opt_name(priority),
            ) + seq![("project"@, obj1("key"@, Json::Str(project))), ("summary"@, Json::Str(summary))],
        ),
    )
}

fn name_value(n: &str) -> (r: JsonValue)
    ensures
        r@ == name_obj(n@),
{
    json_object1("name", json_str(n))
}

/// Creates an issue; the description, if any, is sent as an ADF document.
pub fn create_issue(
    client: &Client,
    project: &str,
    summary: &str,
    issue_type: &str,
    description: Option<&str>,
    priority: Option<&str>,
) -> (r: HttpRequest)
    ensures
        r@ == client.request_spec(
            "POST"@,
            "/rest/api/3/issue"@,
            None,
            Some(create_issue_body(project@, summary@, issue_type@, str_opt_view(description), str_opt_view(priority))),
        ),
{
    let mut f: Vec<(String, JsonValue)> = Vec::new();
    let ghost e0 = json_entries(f@);
    match description {
        Some(d) => push_entry(&mut f, "description", text_to_adf(d)),
        None => {},
    }
    let ghost e1 = json_entries(f@);
    assert(e1 =~= e0 + opt_entry("description"@, opt_adf(str_opt_view(description))));
    push_entry(&mut f, "issuetype", name_value(issue_type));
    match priority {
        Some(p) => push_entry(&mut f, "priority", name_value(p)),
        None => {},
    }
    let ghost e2 = json_entries(f@);
    assert(e2 =~= e1 + seq![("issuetype"@, name_obj(issue_type@))] + opt_entry("priority"@, opt_name(str_opt_view(priority))));
    push_entry(&mut f, "project", json_object1("key", json_str(project)));
    push_entry(&mut f, "summary", json_str(summary));
    assert(json_entries(f@) =~= e2 + seq![("project"@, obj1("key"@, Json::Str(project@))), ("summary"@, Json::Str(summary@))]);
    let body = json_object1("fields", json_object(f));
    client.request("POST", "/rest/api/3/issue", None, Some(body))
}

/// The body that edits an issue's fields (entries in key order).
pub open spec fn edit_issue_body(summary: Option<Seq<char>>, description: Option<Seq<char>>, priority: Option<Seq<char>>) -> Json {
    obj1(
        "fields"@,
        Json::Object(
            opt_entry("description"@, opt_adf(description)) + opt_entry("priority"@, opt_name(priority)) + opt_entry(
                "summary"@,
                opt_str(summary),
            ),
        ),
    )
}

/// Edits an issue without notifying its watchers.
pub fn edit_issue(
    client: &Client,
    key: &str,
    summary: Option<&str>,
    description: Option<&str>,
    priority: Option<&str>,
) -> (r: HttpRequest)
    ensures
        r@ == client.request_spec(
            "PUT"@,
            issue_path(key@) + "?notifyUsers=false"@,
            None,
            Some(edit_issue_body(str_opt_view(summary), str_opt_view(description), str_opt_view(priority))),
        ),
{
    let mut f: Vec<(String, JsonValue)> = Vec::new();
    let ghost e0 = json_entries(f@);
    match description {
        Some(d) => push_entry(&mut f, "description", text_to_adf(d)),
        None => {},
    }
    let ghost e1 = json_entries(f@);
    assert(e1 =~= e0 + opt_entry("description"@, opt_adf(str_opt_view(description))));
    match priority {
        Some(p) => push_entry(&mut f, "priority", name_value(p)),
        None => {},
    }
    let ghost e2 = json_entries(f@);
    assert(e2 =~= e1 + opt_entry("priority"@, opt_name(str_opt_view(priority))));
    match summary {
        Some(s) => push_entry(&mut f, "summary", json_str(s)),
        None => {},
    }
    assert(json_entries(f@) =~= e2 + opt_entry("summary"@, opt_str(str_opt_view(summary))));
    let body = json_object1("fields", json_object(f));
    let p = issue_path_exec(key, "?notifyUsers=false");
    client.request("PUT", p.as_str(), None, Some(body))
}

/// Deletes an issue, and its subtasks when asked.
pub fn delete_issue(client: &Client, key: &str, delete_subtasks: bool) -> (r: HttpRequest)
    ensures
        r@ == client.request_spec("DELETE"@, issue_path(key@) + "?deleteSubtasks="@ + bool_text(delete_subtasks), None, None),
{
    let mut p = issue_path_exec(key, "?deleteSubtasks=");
    if delete_subtasks {
        p.append("true");
    } else {
        p.append("false");
    }
    client.request("DELETE", p.as_str(), None, None)
}

/// The body that assigns an issue (a null account unassigns it).
pub open spec fn assign_body(account_id: Option<Seq<char>>) -> Json {
    obj1(
        "accountId"@,
        match account_id {
            Some(id) => Json::Str(id),
            None => Json::Null,
        },
    )
}

/// Assigns an issue to an account, or unassigns it.
pub fn assign_issue(client: &Client, key: &str, account_id: Option<&str>) -> (r: HttpRequest)
    ensures
        r@ == client.request_spec("PUT"@, issue_path(key@) + "/assignee"@, None, Some(assign_body(str_opt_view(account_id)))),
{
    let v = match account_id {
        Some(id) => json_str(id),
        None => JsonValue::Null,
    };
    let body = json_object1("accountId", v);
    let p = issue_path_exec(key, "/assignee");
    client.request("PUT", p.as_str(), None, Some(body))
}

/// Lists the transitions an issue can take.
pub fn get_transitions(client: &Client, key: &str) -> (r: HttpRequest)
    ensures
        r@ == client.request_spec("GET"@, issue_path(key@) + "/transitions"@, None, None),
{
    let p = issue_path_exec(key, "/transitions");
    client.request("GET", p.as_str(), None, None)
}

/// Moves an issue along a transition.
pub fn do_transition(client: &Client, key: &str, transition_id: &str) -> (r: HttpRequest)
    ensures
        r@ == client.request_spec(
            "POST"@,
            issue_path(key@) + "/transitions"@,
            None,
            Some(obj1("transition"@, obj1("id"@, Json::Str(transition_id@)))),
        ),
{
    let body = json_object1("transition", json_object1("id", json_str(transition_id)));
    let p = issue_path_exec(key, "/transitions");
    client.request("POST", p.as_str(), None, Some(body))
}

/// Lists an issue's comments.
pub fn list_comments(client: &Client, key: &str) -> (r: HttpRequest)
    ensures
        r@ == client.request_spec("GET"@, issue_path(key@) + "/comment"@, None, None),
{
    let p = issue_path_exec(key, "/comment");
    client.request("GET", p.as_str(), None, None)
}

/// Adds a comment, sent as an ADF document.
pub fn add_comment(client: &Client, key: &str, body_text: &str) -> (r: HttpRequest)
    ensures
        r@ == client.request_spec("POST"@, issue_path(key@) + "/comment"@, None, Some(obj1("body"@, text_to_adf_spec(body_text@)))),
{
    let body = json_object1("body", text_to_adf(body_text));
    let p = issue_path_exec(key, "/comment");
    client.request("POST", p.as_str(), None, Some(body))
}

/// Deletes a comment.
pub fn delete_comment(client: &Client, key: &str, comment_id: &str) -> (r: HttpRequest)
    ensures
        r@ == client.request_spec("DELETE"@, issue_path(key@) + "/comment/"@ + comment_id@, None, None),
{
    let mut p = issue_path_exec(key, "/comment/");
    p.append(comment_id);
    client.request("DELETE", p.as_str(), None, None)
}

/// Lists an issue's worklogs.
pub fn list_worklogs(client: &Client, key: &str) -> (r: HttpRequest)
    ensures
        r@ == client.request_spec("GET"@, issue_path(key@) + "/worklog"@, None, None),
{
    let p = issue_path_exec(key, "/worklog");
    client.request("GET", p.as_str(), None, None)
}

/// The body that logs work (entries in key order).
pub open spec fn worklog_body(time_spent: Seq<char>, comment: Option<Seq<char>>) -> Json {
    Json::Object(opt_entry("comment"@, opt_adf(comment)) + seq![("timeSpent"@, Json::Str(time_spent))])
}

/// Logs work on an issue; the comment, if any, is sent as an ADF document.
pub fn add_worklog(client: &Client, key: &str, time_spent: &str, comment: Option<&str>) -> (r: HttpRequest)
    ensures
        r@ == client.request_spec("POST"@, issue_path(key@) + "/worklog"@, None, Some(worklog_body(time_spent@, str_opt_view(comment)))),
{
    let mut f: Vec<(String, JsonValue)> = Vec::new();
    let ghost e0 = json_entries(f@);
    match comment {
        Some(c) => push_entry(&mut f, "comment", text_to_adf(c)),
        None => {},
    }
    let ghost e1 = json_entries(f@);
    assert(e1 =~= e0 + opt_entry("comment"@, opt_adf(str_opt_view(comment))));
    push_entry(&mut f, "timeSpent", json_str(time_spent));
    assert(json_entries(f@) =~= e1 + seq![("timeSpent"@, Json::Str(time_spent@))]);
    let body = json_object(f);
    let p = issue_path_exec(key, "/worklog");
    client.request("POST", p.as_str(), None, Some(body))
}

/// Deletes a worklog.
pub fn delete_worklog(client: &Client, key: &str, worklog_id: &str) -> (r: HttpRequest)
    ensures
        r@ == client.request_spec("DELETE"@, issue_path(key@) + "/worklog/"@ + worklog_id@, None, None),
{
    let mut p = issue_path_exec(key, "/worklog/");
    p.append(worklog_id);
    client.request("DELETE", p.as_str(), None, None)
}

/// Uploads a file (its name and bytes) as an attachment of an issue.
pub fn attach_file(client: &Client, key: &str, file_name: &str, content: &[u8]) -> (r: HttpRequest)
    ensures
        r@ == client.multipart_spec("POST"@, issue_path(key@) + "/attachments"@, file_name@, content@),
{
    let p = issue_path_exec(key, "/attachments");
    client.request_multipart("POST", p.as_str(), file_name, content)
}

} // verus!
