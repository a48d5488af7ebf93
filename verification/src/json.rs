use vstd::prelude::*;
use vstd::string::StringExecFns;

verus! {

/// Mathematical model of a JSON document.
pub enum Json {
    Null,
    Bool(bool),
    Number(Seq<char>),
    Str(Seq<char>),
    Array(Seq<Json>),
    Object(Seq<(Seq<char>, Json)>),
}

/// A JSON document held as plain values.
pub enum JsonValue {
    Null,
    Bool(bool),
    Number(String),
    Str(String),
    Array(Vec<JsonValue>),
    Object(Vec<(String, JsonValue)>),
}

pub open spec fn json_view(v: JsonValue) -> Json
    decreases v,
{
    match v {
        JsonValue::Null => Json::Null,
        JsonValue::Bool(b) => Json::Bool(b),
        JsonValue::Number(n) => Json::Number(n@),
        JsonValue::Str(s) => Json::Str(s@),
        JsonValue::Array(a) => Json::Array(
            Seq::new(a@.len(), |i: int| if 0 <= i < a@.len() { json_view(a@[i]) } else { Json::Null }),
        ),
        JsonValue::Object(o) => Json::Object(
            Seq::new(o@.len(), |i: int| if 0 <= i < o@.len() { (o@[i].0@, json_view(o@[i].1)) } else { (Seq::empty(), Json::Null) }),
        ),
    }
}

impl View for JsonValue {
    type V = Json;

    open spec fn view(&self) -> Json {
        json_view(*self)
    }
}


/// The value stored under `key` in an object's entries (the first entry with that key).
pub open spec fn obj_get(m: Seq<(Seq<char>, Json)>, key: Seq<char>) -> Option<Json>
    decreases m.len(),
{
    if m.len() == 0 {
        None
    } else if m[0].0 == key {
        Some(m[0].1)
    } else {
        obj_get(m.drop_first(), key)
    }
}

/// Index of the first entry with the given key, or -1.
pub open spec fn obj_index(m: Seq<(Seq<char>, Json)>, key: Seq<char>) -> int
    decreases m.len(),
{
    if m.len() == 0 {
        -1
    } else if m[0].0 == key {
        0
    } else {
        let k = obj_index(m.drop_first(), key);
        if k < 0 { -1 } else { k + 1 }
    }
}

pub proof fn lemma_obj_index(m: Seq<(Seq<char>, Json)>, key: Seq<char>)
    ensures
        -1 <= obj_index(m, key) < m.len(),
        obj_index(m, key) >= 0 ==> m[obj_index(m, key)].0 == key && obj_get(m, key) == Some(m[obj_index(m, key)].1),
        obj_index(m, key) < 0 ==> obj_get(m, key) is None,
        forall|j: int| 0 <= j < obj_index(m, key) ==> m[j].0 != key,
        obj_index(m, key) < 0 ==> forall|j: int| 0 <= j < m.len() ==> m[j].0 != key,
    decreases m.len(),
{
    if m.len() > 0 && m[0].0 != key {
        lemma_obj_index(m.drop_first(), key);
        assert forall|j: int| 0 < j < m.len() implies m[j] == m.drop_first()[j - 1] by {}
    }
}

/// The model of an object's entries.
pub open spec fn json_entries(m: Seq<(String, JsonValue)>) -> Seq<(Seq<char>, Json)> {
    Seq::new(m.len(), |i: int| (m[i].0@, json_view(m[i].1)))
}

/// The model of an array's items.
pub open spec fn json_items(a: Seq<JsonValue>) -> Seq<Json> {
    Seq::new(a.len(), |i: int| json_view(a[i]))
}

pub proof fn lemma_view_parts(v: JsonValue)
    ensures
        v matches JsonValue::Array(a) ==> json_view(v) == Json::Array(json_items(a@)),
        v matches JsonValue::Object(m) ==> json_view(v) == Json::Object(json_entries(m@)),
{
    match v {
        JsonValue::Array(a) => {
            assert(json_view(v)->Array_0 =~= json_items(a@));
        },
        JsonValue::Object(m) => {
            assert(json_view(v)->Object_0 =~= json_entries(m@));
        },
        _ => {},
    }
}

/// Finds the first entry of an object with the given key.
pub fn object_index(m: &Vec<(String, JsonValue)>, key: &str) -> (r: Option<usize>)
    ensures
        -1 <= obj_index(json_entries(m@), key@) < m@.len(),
        obj_index(json_entries(m@), key@) < 0 ==> r is None,
        obj_index(json_entries(m@), key@) >= 0 ==> r is Some,
        r matches Some(i) ==> i as int == obj_index(json_entries(m@), key@),
{
    let ghost e = json_entries(m@);
    proof {
        lemma_obj_index(e, key@);
        assert(e.len() == m@.len());
    }
    let n = m.len();
    for i in 0..n
        invariant
            n == m@.len(),
            e == json_entries(m@),
            forall|j: int| 0 <= j < i ==> e[j].0 != key@,
            -1 <= obj_index(e, key@) < e.len(),
            obj_index(e, key@) >= 0 ==> e[obj_index(e, key@)].0 == key@,
            forall|j: int| 0 <= j < obj_index(e, key@) ==> e[j].0 != key@,
            obj_index(e, key@) < 0 ==> forall|j: int| 0 <= j < e.len() ==> e[j].0 != key@,
    {
        assert(e[i as int].0 == m@[i as int].0@);
        if crate::text::str_eq(m[i].0.as_str(), key) {
            return Some(i);
        }
    }
    None
}

/// Finds the first entry of an object whose key has the given characters.
pub fn field_index(m: &Vec<(String, JsonValue)>, key: &[char]) -> (r: Option<usize>)
    ensures
        -1 <= obj_index(json_entries(m@), key@) < m@.len(),
        obj_index(json_entries(m@), key@) < 0 ==> r is None,
        obj_index(json_entries(m@), key@) >= 0 ==> r is Some,
        r matches Some(i) ==> i as int == obj_index(json_entries(m@), key@),
{
    let ghost e = json_entries(m@);
    proof {
        lemma_obj_index(e, key@);
        assert(e.len() == m@.len());
    }
    let n = m.len();
    for i in 0..n
        invariant
            n == m@.len(),
            e == json_entries(m@),
            forall|j: int| 0 <= j < i ==> e[j].0 != key@,
            -1 <= obj_index(e, key@) < e.len(),
            obj_index(e, key@) >= 0 ==> e[obj_index(e, key@)].0 == key@,
            forall|j: int| 0 <= j < obj_index(e, key@) ==> e[j].0 != key@,
            obj_index(e, key@) < 0 ==> forall|j: int| 0 <= j < e.len() ==> e[j].0 != key@,
    {
        assert(e[i as int].0 == m@[i as int].0@);
        let k = crate::text::chars_of(m[i].0.as_str());
        if crate::text::chars_eq(&k, key) {
            return Some(i);
        }
    }
    None
}

/// The value stored under `key` in an object's entries (the first entry with that key).
pub fn object_get<'a>(m: &'a Vec<(String, JsonValue)>, key: &str) -> (r: Option<&'a JsonValue>)
    ensures
        obj_index(json_entries(m@), key@) < 0 ==> r is None,
        obj_index(json_entries(m@), key@) >= 0 ==> r == Some(&m@[obj_index(json_entries(m@), key@)].1),
{
    let idx = object_index(m, key);
    proof {
        lemma_obj_index(json_entries(m@), key@);
    }
    match idx {
        Some(i) => {
            let r = &m[i].1;
            assert(*r == m@[i as int].1);
            Some(r)
        },
        None => None,
    }
}

// ---------------------------------------------------------------------------
// Building documents
// ---------------------------------------------------------------------------

/// A JSON string holding `s`.
pub fn json_str(s: &str) -> (r: JsonValue)
    ensures
        r@ == Json::Str(s@),
{
    JsonValue::Str(String::from_str(s))
}

/// An object with the given entries, in their order.
pub fn json_object(entries: Vec<(String, JsonValue)>) -> (r: JsonValue)
    ensures
        r@ == Json::Object(json_entries(entries@)),
{
    let r = JsonValue::Object(entries);
    proof {
        lemma_view_parts(r);
    }
    r
}

/// An object with the one entry `key: value`.
pub fn json_object1(key: &str, value: JsonValue) -> (r: JsonValue)
    ensures
        r@ == Json::Object(seq![(key@, value@)]),
{
    let mut e: Vec<(String, JsonValue)> = Vec::new();
    push_entry(&mut e, key, value);
    assert(json_entries(e@) =~= seq![(key@, value@)]);
    json_object(e)
}

/// One entry `key: value` when there is a value, none otherwise.
pub open spec fn opt_entry(key: Seq<char>, value: Option<Json>) -> Seq<(Seq<char>, Json)> {
    match value {
        Some(v) => seq![(key, v)],
        None => seq![],
    }
}

/// The string value of an optional text.
pub open spec fn opt_str(s: Option<Seq<char>>) -> Option<Json> {
    match s {
        Some(t) => Some(Json::Str(t)),
        None => None,
    }
}

/// An object with one entry.
pub open spec fn obj1(key: Seq<char>, value: Json) -> Json {
    Json::Object(seq![(key, value)])
}

/// Appends the entry `key: value` to an object's entries.
pub fn push_entry(entries: &mut Vec<(String, JsonValue)>, key: &str, value: JsonValue)
    ensures
        json_entries(final(entries)@) == json_entries(old(entries)@).push((key@, value@)),
{
    entries.push((String::from_str(key), value));
    assert(json_entries(entries@) =~= json_entries(old(entries)@).push((key@, value@)));
}

// ---------------------------------------------------------------------------
// Compact JSON text
// ---------------------------------------------------------------------------

/// Lower-case hexadecimal digit.
pub open spec fn hex_lower(d: u32) -> char {
    if d < 10 {
        ((d + 48) as u8) as char
    } else {
        ((d + 87) as u8) as char
    }
}

/// How one character of a string is written inside JSON quotes.
pub open spec fn escape_char(c: char) -> Seq<char> {
    if c == '"' {
        seq!['\\', '"']
    } else if c == '\\' {
        seq!['\\', '\\']
    } else if c == '\u{8}' {
        seq!['\\', 'b']
    } else if c == '\u{c}' {
        seq!['\\', 'f']
    } else if c == '\n' {
        seq!['\\', 'n']
    } else if c == '\r' {
        seq!['\\', 'r']
    } else if c == '\t' {
        seq!['\\', 't']
    } else if (c as u32) < 0x20 {
        seq!['\\', 'u', '0', '0', hex_lower((c as u32) / 16), hex_lower((c as u32) % 16)]
    } else {
        seq![c]
    }
}

/// A string's characters as written inside JSON quotes.
pub open spec fn escape_str(s: Seq<char>) -> Seq<char>
    decreases s.len(),
{
    if s.len() == 0 {
        seq![]
    } else {
        escape_str(s.drop_last()) + escape_char(s.last())
    }
}

/// A JSON string literal.
pub open spec fn quoted(s: Seq<char>) -> Seq<char> {
    seq!['"'] + escape_str(s) + seq!['"']
}

/// Compact JSON text of a value, as `serde_json::Value`'s `Display` writes it
/// (object entries in the order they are held).
pub open spec fn json_text(j: Json) -> Seq<char>
    decreases j,
{
    match j {
        Json::Null => seq!['n', 'u', 'l', 'l'],
        Json::Bool(b) => if b { seq!['t', 'r', 'u', 'e'] } else { seq!['f', 'a', 'l', 's', 'e'] },
        Json::Number(t) => t,
        Json::Str(s) => quoted(s),
        Json::Array(a) => seq!['['] + items_text(a) + seq![']'],
        Json::Object(m) => seq!['{'] + entries_text(m) + seq!['}'],
    }
}

/// Array items, separated by commas.
pub open spec fn items_text(a: Seq<Json>) -> Seq<char>
    decreases a,
{
    if a.len() == 0 {
        seq![]
    } else if a.len() == 1 {
        json_text(a[0])
    } else {
        items_text(a.drop_last()) + seq![','] + json_text(a.last())
    }
}

/// Object entries `"key":value`, separated by commas.
pub open spec fn entries_text(m: Seq<(Seq<char>, Json)>) -> Seq<char>
    decreases m,
{
    if m.len() == 0 {
        seq![]
    } else if m.len() == 1 {
        quoted(m[0].0) + seq![':'] + json_text(m[0].1)
    } else {
        entries_text(m.drop_last()) + seq![','] + quoted(m.last().0) + seq![':'] + json_text(
            m.last().1,
        )
    }
}


fn hex_digit(d: u32) -> (c: char)
    requires
        d < 16,
    ensures
        c == hex_lower(d),
{
    if d < 10 {
        ((d as u8) + 48) as char
    } else {
        ((d as u8) + 87) as char
    }
}

fn write_escaped_char(out: &mut Vec<char>, c: char)
    ensures
        final(out)@ == old(out)@ + escape_char(c),
{
    if c == '"' {
        crate::text::push_chars(out, &['\\', '"']);
    } else if c == '\\' {
        crate::text::push_chars(out, &['\\', '\\']);
    } else if c == '\u{8}' {
        crate::text::push_chars(out, &['\\', 'b']);
    } else if c == '\u{c}' {
        crate::text::push_chars(out, &['\\', 'f']);
    } else if c == '\n' {
        crate::text::push_chars(out, &['\\', 'n']);
    } else if c == '\r' {
        crate::text::push_chars(out, &['\\', 'r']);
    } else if c == '\t' {
        crate::text::push_chars(out, &['\\', 't']);
    } else if (c as u32) < 0x20 {
        let code = c as u32;
        let hi = hex_digit(code / 16);
        let lo = hex_digit(code % 16);
        crate::text::push_chars(out, &['\\', 'u', '0', '0', hi, lo]);
    } else {
        out.push(c);
    }
}

fn write_quoted(out: &mut Vec<char>, s: &str)
    ensures
        final(out)@ == old(out)@ + quoted(s@),
{
    let cs = crate::text::chars_of(s);
    out.push('"');
    let ghost start = out@;
    let n = cs.len();
    for i in 0..n
        invariant
            n == cs@.len(),
            cs@ == s@,
            out@ == start + escape_str(cs@.take(i as int)),
    {
        write_escaped_char(out, cs[i]);
        assert(cs@.take(i + 1).drop_last() =~= cs@.take(i as int));
    }
    assert(cs@.take(n as int) =~= cs@);
    out.push('"');
    assert(out@ =~= old(out)@ + quoted(s@));
}

/// Appends the compact JSON text of `v` to `out`.
pub fn write_json(v: &JsonValue, out: &mut Vec<char>)
    ensures
        final(out)@ == old(out)@ + json_text(v@),
    decreases v,
{
    proof {
        lemma_view_parts(*v);
    }
    match v {
        JsonValue::Null => crate::text::push_chars(out, &['n', 'u', 'l', 'l']),
        JsonValue::Bool(b) => {
            if *b {
                crate::text::push_chars(out, &['t', 'r', 'u', 'e']);
            } else {
                crate::text::push_chars(out, &['f', 'a', 'l', 's', 'e']);
            }
        },
        JsonValue::Number(t) => {
            let cs = crate::text::chars_of(t.as_str());
            crate::text::push_chars(out, cs.as_slice());
        },
        JsonValue::Str(s) => write_quoted(out, s.as_str()),
        JsonValue::Array(a) => {
            proof {
                assert(decreases_to!(*v => *a));
            }
            out.push('[');
            let ghost start = out@;
            let ghost items = json_items(a@);
            let n = a.len();
            for i in 0..n
                invariant
                    n == a@.len(),
                    decreases_to!(*v => *a),
                    items == json_items(a@),
                    out@ == start + items_text(items.take(i as int)),
            {
                if i > 0 {
                    out.push(',');
                }
                proof {
                    assert(decreases_to!(a => a@));
                    assert(decreases_to!(a@ => a@[i as int]));
                    assert(decreases_to!(v => a@[i as int]));
                }
                write_json(&a[i], out);
                proof {
                    let t = items.take(i + 1);
                    assert(t.drop_last() =~= items.take(i as int));
                    assert(t.last() == json_view(a@[i as int]));
                    if i == 0 {
                        assert(items.take(0) =~= Seq::<Json>::empty());
                    }
                    assert(out@ =~= start + items_text(t));
                }
            }
            assert(items.take(n as int) =~= items);
            out.push(']');
            assert(out@ =~= old(out)@ + json_text(v@));
        },
        JsonValue::Object(m) => {
            proof {
                assert(decreases_to!(*v => *m));
            }
            out.push('{');
            let ghost start = out@;
            let ghost entries = json_entries(m@);
            let n = m.len();
            for i in 0..n
                invariant
                    n == m@.len(),
                    decreases_to!(*v => *m),
                    entries == json_entries(m@),
                    out@ == start + entries_text(entries.take(i as int)),
            {
                if i > 0 {
                    out.push(',');
                }
                write_quoted(out, m[i].0.as_str());
                out.push(':');
                proof {
                    assert(decreases_to!(m => m@));
                    assert(decreases_to!(m@ => m@[i as int]));
                    assert(decreases_to!(m@[i as int] => m@[i as int].1));
                    assert(decreases_to!(v => m@[i as int].1));
                }
                write_json(&m[i].1, out);
                proof {
                    let t = entries.take(i + 1);
                    assert(t.drop_last() =~= entries.take(i as int));
                    assert(t.last() == (m@[i as int].0@, json_view(m@[i as int].1)));
                    if i == 0 {
                        assert(entries.take(0) =~= Seq::<(Seq<char>, Json)>::empty());
                    }
                    assert(out@ =~= start + entries_text(t));
                }
            }
            assert(entries.take(n as int) =~= entries);
            out.push('}');
            assert(out@ =~= old(out)@ + json_text(v@));
        },
    }
}

/// The compact JSON text of `v`.
pub fn to_json_text(v: &JsonValue) -> (r: String)
    ensures
        r@ == json_text(v@),
{
    let mut out: Vec<char> = Vec::new();
    write_json(v, &mut out);
    crate::text::string_of(out.as_slice())
}

} // verus!
