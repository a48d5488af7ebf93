use vstd::prelude::*;
use vstd::utf8::is_scalar;
use vstd::string::StringExecFns;
use crate::client::{query_view, Client, HttpRequest};
use crate::config::str_opt_view;
use crate::json::{json_object, json_object1, json_str, obj1, opt_entry, push_entry, Json, JsonValue, json_entries};
use crate::text::{decimal, i64_to_decimal, is_whitespace, signed_decimal, trim, trim_end, trim_end_char, trim_start};

verus! {

// ---------------------------------------------------------------------------
// XHTML storage format -> plain text
// ---------------------------------------------------------------------------

/// The character a tag-name character stands for once lower-cased, where that
/// matters for recognising the tags below: ASCII capitals fold to lower case,
/// and KELVIN SIGN folds to `k` (the one non-ASCII character whose lower case
/// is ASCII).
pub open spec fn fold_tag_char(c: char) -> char {
    if 'A' <= c && c <= 'Z' {
        ((c as u32) + 32) as char
    } else if c == '\u{212a}' {
        'k'
    } else {
        c
    }
}

/// Whether the lower-cased tag name `name` is `t` (an ASCII lower-case word).
pub open spec fn tag_is(name: Seq<char>, t: Seq<char>) -> bool {
    &&& name.len() == t.len()
    &&& forall|i: int| 0 <= i < name.len() ==> fold_tag_char(#[trigger] name[i]) == t[i]
}

/// The tags that the renderer treats specially.
pub enum TagKind {
    H1,
    H2,
    H3,
    /// `h4`, `h5` and `h6`
    H4,
    /// `p`, `div`, `section`, `article`
    Block,
    Li,
    Ul,
    Ol,
    /// `td`, `th`
    Cell,
    Tr,
    Table,
    /// `pre`, `code`
    Pre,
    Br,
    /// `hr`, `ac:task-list`
    Rule,
    Other,
}

pub open spec fn tag_kind(name: Seq<char>) -> TagKind {
    if tag_is(name, seq!['h', '1']) {
        TagKind::H1
    } else if tag_is(name, seq!['h', '2']) {
        TagKind::H2
    } else if tag_is(name, seq!['h', '3']) {
        TagKind::H3
    } else if tag_is(name, seq!['h', '4']) || tag_is(name, seq!['h', '5']) || tag_is(name, seq!['h', '6']) {
        TagKind::H4
    } else if tag_is(name, seq!['p']) || tag_is(name, seq!['d', 'i', 'v']) || tag_is(
        name,
        seq!['s', 'e', 'c', 't', 'i', 'o', 'n'],
    ) || tag_is(name, seq!['a', 'r', 't', 'i', 'c', 'l', 'e']) {
        TagKind::Block
    } else if tag_is(name, seq!['l', 'i']) {
        TagKind::Li
    } else if tag_is(name, seq!['u', 'l']) {
        TagKind::Ul
    } else if tag_is(name, seq!['o', 'l']) {
        TagKind::Ol
    } else if tag_is(name, seq!['t', 'd']) || tag_is(name, seq!['t', 'h']) {
        TagKind::Cell
    } else if tag_is(name, seq!['t', 'r']) {
        TagKind::Tr
    } else if tag_is(name, seq!['t', 'a', 'b', 'l', 'e']) {
        TagKind::Table
    } else if tag_is(name, seq!['p', 'r', 'e']) || tag_is(name, seq!['c', 'o', 'd', 'e']) {
        TagKind::Pre
    } else if tag_is(name, seq!['b', 'r']) {
        TagKind::Br
    } else if tag_is(name, seq!['h', 'r']) || tag_is(
        name,
        seq!['a', 'c', ':', 't', 'a', 's', 'k', '-', 'l', 'i', 's', 't'],
    ) {
        TagKind::Rule
    } else {
        TagKind::Other
    }
}

/// Renderer state: the text so far, and one entry per open list
/// (`None` for a bullet list, `Some(n)` for an ordered list whose last item was `n`).
pub struct RenderState {
    pub out: Seq<char>,
    pub lists: Seq<Option<int>>,
}

/// `s` without its trailing spaces.
pub open spec fn trim_spaces(s: Seq<char>) -> Seq<char> {
    trim_end_char(s, ' ')
}

/// `s` followed by a blank line, unless it is empty or already ends in one.
pub open spec fn with_blank_line(s: Seq<char>) -> Seq<char> {
    if s.len() == 0 || (s.len() >= 2 && s[s.len() - 2] == '\n' && s.last() == '\n') {
        s
    } else if s.last() == '\n' {
        s.push('\n')
    } else {
        s + seq!['\n', '\n']
    }
}

/// `k` levels of list indentation (two spaces each).
pub open spec fn indent(k: nat) -> Seq<char> {
    Seq::new(2 * k, |i: int| ' ')
}

/// The state after an opening `<li>` tag.
pub open spec fn open_list_item(st: RenderState) -> RenderState {
    let depth = st.lists.len();
    let pad = indent(if depth >= 1 { (depth - 1) as nat } else { 0 });
    let o = trim_spaces(st.out);
    let o = if o.len() > 0 && o.last() == '\n' { o } else { o.push('\n') };
    if depth == 0 {
        RenderState { out: o + seq!['*', ' '], lists: st.lists }
    } else {
        match st.lists.last() {
            Some(n) => RenderState {
                out: o + pad + decimal((n + 1) as nat) + seq!['.', ' '],
                lists: st.lists.update(depth - 1, Some(n + 1)),
            },
            None => RenderState { out: o + pad + seq!['*', ' '], lists: st.lists },
        }
    }
}

/// The state after a tag of the given kind.
pub open spec fn apply_tag(st: RenderState, kind: TagKind, closing: bool, self_closing: bool) -> RenderState {
    if closing {
        match kind {
            TagKind::H1 | TagKind::H2 | TagKind::H3 | TagKind::H4 | TagKind::Table | TagKind::Pre =>
                RenderState { out: st.out.push('\n'), lists: st.lists },
            TagKind::Block | TagKind::Li | TagKind::Tr =>
                RenderState { out: trim_spaces(st.out).push('\n'), lists: st.lists },
            TagKind::Ul | TagKind::Ol => RenderState {
                out: st.out.push('\n'),
                lists: if st.lists.len() > 0 { st.lists.drop_last() } else { st.lists },
            },
            TagKind::Cell => RenderState { out: st.out.push('\t'), lists: st.lists },
            _ => st,
        }
    } else if self_closing {
        st
    } else {
        match kind {
            TagKind::H1 => RenderState { out: st.out + seq!['#', ' '], lists: st.lists },
            TagKind::H2 => RenderState { out: st.out + seq!['#', '#', ' '], lists: st.lists },
            TagKind::H3 => RenderState { out: st.out + seq!['#', '#', '#', ' '], lists: st.lists },
            TagKind::H4 => RenderState { out: st.out + seq!['#', '#', '#', '#', ' '], lists: st.lists },
            TagKind::Block => RenderState { out: with_blank_line(st.out), lists: st.lists },
            TagKind::Br => RenderState { out: st.out.push('\n'), lists: st.lists },
            TagKind::Li => open_list_item(st),
            TagKind::Ul => RenderState { out: st.out, lists: st.lists.push(None) },
            TagKind::Ol => RenderState { out: st.out, lists: st.lists.push(Some(0)) },
            TagKind::Rule => RenderState { out: st.out + seq!['-', '-', '-', '\n'], lists: st.lists },
            _ => st,
        }
    }
}

/// The value of a digit in the given radix (10 or 16).
pub open spec fn digit_value(c: char, radix: nat) -> Option<nat> {
    if '0' <= c && c <= '9' {
        Some((c as u32 - 48) as nat)
    } else if radix == 16 && 'a' <= c && c <= 'f' {
        Some((c as u32 - 87) as nat)
    } else if radix == 16 && 'A' <= c && c <= 'F' {
        Some((c as u32 - 55) as nat)
    } else {
        None
    }
}

/// The number that a string of digits denotes, if every character is a digit.
pub open spec fn digits_value(d: Seq<char>, radix: nat) -> Option<nat>
    decreases d.len(),
{
    if d.len() == 0 {
        Some(0)
    } else {
        match (digits_value(d.drop_last(), radix), digit_value(d.last(), radix)) {
            (Some(a), Some(b)) => Some(a * radix + b),
            _ => None,
        }
    }
}

/// `u32::from_str_radix(s, radix).ok()`: an optional `+`, then at least one
/// digit, and a value that fits in 32 bits.
pub open spec fn parse_u32(s: Seq<char>, radix: nat) -> Option<u32> {
    let d = if s.len() > 0 && s[0] == '+' { s.drop_first() } else { s };
    if d.len() == 0 {
        None
    } else {
        match digits_value(d, radix) {
            Some(v) => if v <= u32::MAX { Some(v as u32) } else { None },
            None => None,
        }
    }
}

/// The text that an HTML entity (the characters between `&` and `;`) stands for.
pub open spec fn decode_entity_spec(e: Seq<char>) -> Seq<char> {
    if e == seq!['a', 'm', 'p'] {
        seq!['&']
    } else if e == seq!['l', 't'] {
        seq!['<']
    } else if e == seq!['g', 't'] {
        seq!['>']
    } else if e == seq!['q', 'u', 'o', 't'] {
        seq!['"']
    } else if e == seq!['a', 'p', 'o', 's'] || e == seq!['#', '3', '9'] {
        seq!['\'']
    } else if e == seq!['n', 'b', 's', 'p'] {
        seq![' ']
    } else if e == seq!['n', 'd', 'a', 's', 'h'] {
        seq!['\u{2013}']
    } else if e == seq!['m', 'd', 'a', 's', 'h'] {
        seq!['\u{2014}']
    } else if e == seq!['h', 'e', 'l', 'l', 'i', 'p'] {
        seq!['\u{2026}']
    } else if e.len() > 0 && e[0] == '#' {
        let code = if e.len() > 1 && e[1] == 'x' {
            parse_u32(e.skip(2), 16)
        } else {
            parse_u32(e.skip(1), 10)
        };
        let v: u32 = match code {
            Some(v) => v,
            None => 0,
        };
        if is_scalar(v) {
            seq![v as char]
        } else {
            seq![]
        }
    } else {
        seq!['&'] + e + seq![';']
    }
}

/// Number of characters before the first `;` (or the whole length).
pub open spec fn entity_len(s: Seq<char>) -> nat
    decreases s.len(),
{
    if s.len() == 0 || s[0] == ';' {
        0
    } else {
        1 + entity_len(s.drop_first())
    }
}

/// Number of leading characters that make up a tag name.
pub open spec fn name_len(s: Seq<char>) -> nat
    decreases s.len(),
{
    if s.len() == 0 || is_whitespace(s[0]) || s[0] == '>' || s[0] == '/' {
        0
    } else {
        1 + name_len(s.drop_first())
    }
}

/// Number of characters before the first `>` (or the whole length).
pub open spec fn tail_len(s: Seq<char>) -> nat
    decreases s.len(),
{
    if s.len() == 0 || s[0] == '>' {
        0
    } else {
        1 + tail_len(s.drop_first())
    }
}

pub proof fn lemma_entity_len_bound(s: Seq<char>)
    ensures
        entity_len(s) <= s.len(),
        entity_len(s) < s.len() ==> s[entity_len(s) as int] == ';',
    decreases s.len(),
{
    if s.len() > 0 && s[0] != ';' {
        lemma_entity_len_bound(s.drop_first());
    }
}

pub proof fn lemma_name_len_bound(s: Seq<char>)
    ensures
        name_len(s) <= s.len(),
    decreases s.len(),
{
    if s.len() > 0 && !(is_whitespace(s[0]) || s[0] == '>' || s[0] == '/') {
        lemma_name_len_bound(s.drop_first());
    }
}

pub proof fn lemma_tail_len_bound(s: Seq<char>)
    ensures
        tail_len(s) <= s.len(),
        tail_len(s) < s.len() ==> s[tail_len(s) as int] == '>',
    decreases s.len(),
{
    if s.len() > 0 && s[0] != '>' {
        lemma_tail_len_bound(s.drop_first());
    }
}

/// Number of characters that the token at the front of `s` (a character,
/// an entity or a tag) takes up.
pub open spec fn token_len(s: Seq<char>) -> nat {
    if s.len() == 0 {
        0
    } else if s[0] == '&' {
        let e = entity_len(s.drop_first());
        if 1 + e < s.len() { e + 2 } else { e + 1 }
    } else if s[0] == '<' {
        let p: int = if s.len() > 1 && s[1] == '/' { 2 } else { 1 };
        let nl = name_len(s.skip(p)) as int;
        let t = tail_len(s.skip(p + nl)) as int;
        if p + nl + t < s.len() { (p + nl + t + 1) as nat } else { (p + nl + t) as nat }
    } else {
        1
    }
}

pub proof fn lemma_token_len_bound(s: Seq<char>)
    requires
        s.len() > 0,
    ensures
        1 <= token_len(s) <= s.len(),
{
    if s[0] == '&' {
        lemma_entity_len_bound(s.drop_first());
    } else if s[0] == '<' {
        let p: int = if s.len() > 1 && s[1] == '/' { 2 } else { 1 };
        lemma_name_len_bound(s.skip(p));
        let nl = name_len(s.skip(p)) as int;
        lemma_tail_len_bound(s.skip(p + nl));
    }
}

/// The state after the token at the front of `s`.
pub open spec fn apply_token(s: Seq<char>, st: RenderState) -> RenderState {
    if s.len() == 0 {
        st
    } else if s[0] == '&' {
        let e = entity_len(s.drop_first());
        RenderState { out: st.out + decode_entity_spec(s.subrange(1, 1 + e as int)), lists: st.lists }
    } else if s[0] == '<' {
        let closing = s.len() > 1 && s[1] == '/';
        let p: int = if closing { 2 } else { 1 };
        let nl = name_len(s.skip(p)) as int;
        let t = tail_len(s.skip(p + nl)) as int;
        let self_closing = s.subrange(p + nl, p + nl + t).contains('/');
        apply_tag(st, tag_kind(s.subrange(p, p + nl)), closing, self_closing)
    } else {
        RenderState { out: st.out.push(s[0]), lists: st.lists }
    }
}

/// The text produced from `s`, starting in state `st`, before newlines are collapsed.
pub open spec fn render_from(s: Seq<char>, st: RenderState) -> Seq<char>
    decreases s.len(),
{
    if s.len() == 0 {
        st.out
    } else {
        proof {
            lemma_token_len_bound(s);
        }
        render_from(s.skip(token_len(s) as int), apply_token(s, st))
    }
}

/// `s` with every run of three or more newlines cut to two; `run` newlines precede `s`.
pub open spec fn collapse_from(s: Seq<char>, run: nat) -> Seq<char>
    decreases s.len(),
{
    if s.len() == 0 {
        seq![]
    } else if s[0] == '\n' {
        if run + 1 <= 2 {
            seq!['\n'] + collapse_from(s.drop_first(), run + 1)
        } else {
            collapse_from(s.drop_first(), run + 1)
        }
    } else {
        seq![s[0]] + collapse_from(s.drop_first(), 0)
    }
}

/// What `render_storage` gives for the storage-format text `html`.
pub open spec fn render_storage_spec(html: Seq<char>) -> Seq<char> {
    trim(collapse_from(render_from(html, RenderState { out: seq![], lists: seq![] }), 0))
}


// ---------------------------------------------------------------------------
// Executable renderer
// ---------------------------------------------------------------------------

/// `char::from_u32`: the character with the given scalar value, if there is one.
/// The standard library documents that it returns `None` exactly for values that
/// are not Unicode scalar values (surrogates and values above `0x10FFFF`).
#[verifier::external_body]
fn char_from_u32(code: u32) -> (r: Option<char>)
    ensures
        r == (if is_scalar(code) { Some(code as char) } else { None::<char> }),
{
    char::from_u32(code)
}

/// The renderer state that the executable output and counters stand for.
pub open spec fn state_of(out: Seq<char>, lists: Seq<Option<usize>>) -> RenderState {
    RenderState { out: out, lists: counters(lists) }
}

/// Every list counter is at most `bound`.
pub open spec fn counters_at_most(v: Seq<Option<usize>>, bound: int) -> bool {
    forall|j: int| 0 <= j < v.len() ==> (#[trigger] v[j] matches Some(c) ==> c <= bound)
}

/// The list-counter model of the executable counters.
pub open spec fn counters(v: Seq<Option<usize>>) -> Seq<Option<int>> {
    Seq::new(
        v.len(),
        |j: int|
            match v[j] {
                Some(n) => Some(n as int),
                None => None,
            },
    )
}

fn fold_char(c: char) -> (r: char)
    ensures
        r == fold_tag_char(c),
{
    if 'A' <= c && c <= 'Z' {
        let b: u8 = c as u8;
        assert(b == c as u32);
        ((b + 32) as u8) as char
    } else if c == '\u{212a}' {
        'k'
    } else {
        c
    }
}

fn tag_matches(name: &Vec<char>, t: &[char]) -> (b: bool)
    ensures
        b == tag_is(name@, t@),
{
    if name.len() != t.len() {
        return false;
    }
    let n = name.len();
    for i in 0..n
        invariant
            n == name@.len(),
            n == t@.len(),
            forall|k: int| 0 <= k < i ==> fold_tag_char(#[trigger] name@[k]) == t@[k],
    {
        if fold_char(name[i]) != t[i] {
            return false;
        }
    }
    true
}

fn classify_tag(name: &Vec<char>) -> (k: TagKind)
    ensures
        k == tag_kind(name@),
{
    if tag_matches(name, &['h', '1']) {
        TagKind::H1
    } else if tag_matches(name, &['h', '2']) {
        TagKind::H2
    } else if tag_matches(name, &['h', '3']) {
        TagKind::H3
    } else if tag_matches(name, &['h', '4']) || tag_matches(name, &['h', '5']) || tag_matches(
        name,
        &['h', '6'],
    ) {
        TagKind::H4
    } else if tag_matches(name, &['p']) || tag_matches(name, &['d', 'i', 'v']) || tag_matches(
        name,
        &['s', 'e', 'c', 't', 'i', 'o', 'n'],
    ) || tag_matches(name, &['a', 'r', 't', 'i', 'c', 'l', 'e']) {
        TagKind::Block
    } else if tag_matches(name, &['l', 'i']) {
        TagKind::Li
    } else if tag_matches(name, &['u', 'l']) {
        TagKind::Ul
    } else if tag_matches(name, &['o', 'l']) {
        TagKind::Ol
    } else if tag_matches(name, &['t', 'd']) || tag_matches(name, &['t', 'h']) {
        TagKind::Cell
    } else if tag_matches(name, &['t', 'r']) {
        TagKind::Tr
    } else if tag_matches(name, &['t', 'a', 'b', 'l', 'e']) {
        TagKind::Table
    } else if tag_matches(name, &['p', 'r', 'e']) || tag_matches(name, &['c', 'o', 'd', 'e']) {
        TagKind::Pre
    } else if tag_matches(name, &['b', 'r']) {
        TagKind::Br
    } else if tag_matches(name, &['h', 'r']) || tag_matches(
        name,
        &['a', 'c', ':', 't', 'a', 's', 'k', '-', 'l', 'i', 's', 't'],
    ) {
        TagKind::Rule
    } else {
        TagKind::Other
    }
}

proof fn lemma_digits_value_saturate(d: Seq<char>, radix: nat)
    requires
        radix == 10 || radix == 16,
        d.len() > 0,
        digits_value(d.drop_last(), radix) is Some,
        digit_value(d.last(), radix) is Some,
    ensures
        ({
            let a = digits_value(d.drop_last(), radix)->0;
            let b = digit_value(d.last(), radix)->0;
            let a_sat: nat = if a < 0x1_0000_0000 { a } else { 0x1_0000_0000 };
            let v = a * radix + b;
            let v_sat: nat = if v < 0x1_0000_0000 { v } else { 0x1_0000_0000 };
            let w = a_sat * radix + b;
            let w_sat: nat = if w < 0x1_0000_0000 { w } else { 0x1_0000_0000 };
            v_sat == w_sat && b < radix
        }),
{
    let a = digits_value(d.drop_last(), radix)->0;
    let b = digit_value(d.last(), radix)->0;
    assert(b < radix);
    if a >= 0x1_0000_0000 {
        assert(a * radix >= 0x1_0000_0000 * radix) by (nonlinear_arith)
            requires
                a >= 0x1_0000_0000,
                radix >= 1,
        ;
        assert(0x1_0000_0000 * radix >= 0x1_0000_0000) by (nonlinear_arith)
            requires
                radix >= 1,
        ;
    }
}

/// `u32::from_str_radix(&d[start..], radix).ok()` for radix 10 or 16.
fn parse_u32_at(d: &Vec<char>, start: usize, radix: u64) -> (r: Option<u32>)
    requires
        start <= d@.len(),
        radix == 10 || radix == 16,
    ensures
        r == parse_u32(d@.skip(start as int), radix as nat),
{
    let ghost s = d@.skip(start as int);
    let n = d.len();
    let mut i = start;
    if i < n && d[i] == '+' {
        i = i + 1;
    }
    let ghost digits = d@.skip(i as int);
    assert(digits =~= (if s.len() > 0 && s[0] == '+' { s.drop_first() } else { s }));
    if i == n {
        return None;
    }
    let first = i;
    // value of the digits so far, saturated at 2^32
    let mut acc: u64 = 0;
    while i < n
        invariant
            first <= i <= n,
            first < n,
            n == d@.len(),
            radix == 10 || radix == 16,
            digits == d@.skip(first as int),
            s == d@.skip(start as int),
            digits == (if s.len() > 0 && s[0] == '+' { s.drop_first() } else { s }),
            digits_value(d@.subrange(first as int, i as int), radix as nat) is Some,
            acc == ({
                let v = digits_value(d@.subrange(first as int, i as int), radix as nat)->0;
                if v < 0x1_0000_0000 { v } else { 0x1_0000_0000 }
            }),
        decreases n - i,
    {
        let c = d[i];
        let dv: u64 = if '0' <= c && c <= '9' {
            (c as u64) - 48
        } else if radix == 16 && 'a' <= c && c <= 'f' {
            (c as u64) - 87
        } else if radix == 16 && 'A' <= c && c <= 'F' {
            (c as u64) - 55
        } else {
            proof {
                let p = d@.subrange(first as int, i + 1);
                assert(p.drop_last() =~= d@.subrange(first as int, i as int));
                assert(digits_value(p, radix as nat) is None);
                lemma_digits_value_none_extends(d@, first as int, i + 1, radix as nat);
                assert(d@.subrange(first as int, n as int) =~= digits);
            }
            return None;
        };
        proof {
            let p = d@.subrange(first as int, i + 1);
            assert(p.drop_last() =~= d@.subrange(first as int, i as int));
            assert(p.last() == c);
            lemma_digits_value_saturate(p, radix as nat);
        }
        assert(acc <= 0x1_0000_0000);
        assert(acc * radix <= 0x1_0000_0000 * 16) by (nonlinear_arith)
            requires
                acc <= 0x1_0000_0000,
                radix <= 16,
        ;
        let w: u64 = acc * radix + dv;
        acc = if w < 0x1_0000_0000 { w } else { 0x1_0000_0000 };
        i = i + 1;
    }
    assert(d@.subrange(first as int, n as int) =~= digits);
    if acc <= 0xffff_ffff {
        Some(acc as u32)
    } else {
        None
    }
}

proof fn lemma_digits_value_none_extends(d: Seq<char>, first: int, i: int, radix: nat)
    requires
        0 <= first <= i <= d.len(),
        digits_value(d.subrange(first, i), radix) is None,
    ensures
        digits_value(d.subrange(first, d.len() as int), radix) is None,
    decreases d.len() - i,
{
    if i < d.len() {
        let p = d.subrange(first, i + 1);
        assert(p.drop_last() =~= d.subrange(first, i));
        lemma_digits_value_none_extends(d, first, i + 1, radix);
    }
}


/// The text that the entity `e` (the characters between `&` and `;`) stands for.
fn decode_entity(e: &Vec<char>) -> (r: Vec<char>)
    ensures
        r@ == decode_entity_spec(e@),
{
    let mut r: Vec<char> = Vec::new();
    if crate::text::chars_eq(e, &['a', 'm', 'p']) {
        r.push('&');
    } else if crate::text::chars_eq(e, &['l', 't']) {
        r.push('<');
    } else if crate::text::chars_eq(e, &['g', 't']) {
        r.push('>');
    } else if crate::text::chars_eq(e, &['q', 'u', 'o', 't']) {
        r.push('"');
    } else if crate::text::chars_eq(e, &['a', 'p', 'o', 's']) || crate::text::chars_eq(e, &['#', '3', '9']) {
        r.push('\'');
    } else if crate::text::chars_eq(e, &['n', 'b', 's', 'p']) {
        r.push(' ');
    } else if crate::text::chars_eq(e, &['n', 'd', 'a', 's', 'h']) {
        r.push('\u{2013}');
    } else if crate::text::chars_eq(e, &['m', 'd', 'a', 's', 'h']) {
        r.push('\u{2014}');
    } else if crate::text::chars_eq(e, &['h', 'e', 'l', 'l', 'i', 'p']) {
        r.push('\u{2026}');
    } else if e.len() > 0 && e[0] == '#' {
        let code = if e.len() > 1 && e[1] == 'x' {
            parse_u32_at(e, 2, 16)
        } else {
            parse_u32_at(e, 1, 10)
        };
        let v: u32 = match code {
            Some(v) => v,
            None => 0,
        };
        match char_from_u32(v) {
            Some(c) => r.push(c),
            None => {},
        }
    } else {
        r.push('&');
        crate::text::push_chars(&mut r, e.as_slice());
        r.push(';');
    }
    r
}

/// Removes the trailing spaces of `s`.
fn trim_trailing_spaces(s: &mut Vec<char>)
    ensures
        final(s)@ == trim_spaces(old(s)@),
    decreases old(s)@.len(),
{
    if s.len() > 0 && s[s.len() - 1] == ' ' {
        let ghost before = s@;
        s.pop();
        assert(s@ =~= before.drop_last());
        trim_trailing_spaces(s);
    }
}

/// Makes `s` end in a blank line unless it is empty.
/// Whether a text ends in a blank line (`\n\n`).
pub open spec fn ends_blank(t: Seq<char>) -> bool {
    t.len() >= 2 && t[t.len() - 2] == '\n' && t.last() == '\n'
}

/// Making sure of a blank line is idempotent: a second call changes nothing.
/// A non-empty text comes out ending in a blank line (`\n\n`), with only
/// newlines appended and no more of them than that takes; an empty text stays
/// empty.
pub proof fn law_blank_line(s: Seq<char>)
    ensures
        with_blank_line(with_blank_line(s)) == with_blank_line(s),
        s.len() == 0 ==> with_blank_line(s) == s,
        s.len() > 0 ==> ({
            let r = with_blank_line(s);
            &&& ends_blank(r)
            &&& r.take(s.len() as int) == s
            &&& forall|i: int| s.len() <= i < r.len() ==> r[i] == '\n'
            &&& r.len() - s.len() <= 2
            &&& forall|k: int| 0 <= k < r.len() - s.len() ==> !ends_blank(#[trigger] r.take(s.len() + k))
        }),
{
    let r = with_blank_line(s);
    if s.len() > 0 {
        assert(r.take(s.len() as int) =~= s);
        assert forall|k: int| 0 <= k < r.len() - s.len() implies !ends_blank(#[trigger] r.take(s.len() + k)) by {
            let t = r.take(s.len() + k);
            if k == 0 {
                assert(t =~= s);
            } else {
                assert(t.last() == '\n');
                assert(t[t.len() - 2] == s.last());
            }
        }
    }
}

fn ensure_blank_line(s: &mut Vec<char>)
    ensures
        final(s)@ == with_blank_line(old(s)@),
{
    let n = s.len();
    if n > 0 && !(n >= 2 && s[n - 2] == '\n' && s[n - 1] == '\n') {
        if s[n - 1] != '\n' {
            s.push('\n');
        }
        s.push('\n');
    }
    proof {
        if n > 0 && !(n >= 2 && old(s)@[n - 2] == '\n' && old(s)@[n - 1] == '\n') && old(s)@[n - 1] != '\n' {
            assert(s@ =~= old(s)@ + seq!['\n', '\n']);
        }
    }
}

fn push_spaces(out: &mut Vec<char>, k: usize)
    ensures
        final(out)@ == old(out)@ + indent(k as nat),
{
    let mut i: usize = 0;
    while i < k
        invariant
            i <= k,
            out@ == old(out)@ + indent(i as nat),
        decreases k - i,
    {
        out.push(' ');
        out.push(' ');
        assert(indent((i + 1) as nat) =~= indent(i as nat) + seq![' ', ' ']);
        i = i + 1;
    }
}

fn push_decimal(out: &mut Vec<char>, n: usize)
    ensures
        final(out)@ == old(out)@ + decimal(n as nat),
{
    let s = crate::text::u64_to_decimal(n as u64);
    let v = crate::text::chars_of(s.as_str());
    crate::text::push_chars(out, v.as_slice());
}

/// Applies a tag of the given kind to the renderer state.
fn apply_tag_exec(
    out: &mut Vec<char>,
    lists: &mut Vec<Option<usize>>,
    kind: TagKind,
    closing: bool,
    self_closing: bool,
    Ghost(bound): Ghost<int>,
)
    requires
        0 <= bound < usize::MAX,
        counters_at_most(old(lists)@, bound),
    ensures
        state_of(final(out)@, final(lists)@) == apply_tag(state_of(old(out)@, old(lists)@), kind, closing, self_closing),
        final(lists)@.len() <= old(lists)@.len() + 1,
        counters_at_most(final(lists)@, bound + 1),
{
    if closing {
        match kind {
            TagKind::H1 | TagKind::H2 | TagKind::H3 | TagKind::H4 | TagKind::Table | TagKind::Pre => {
                out.push('\n');
            },
            TagKind::Block | TagKind::Li | TagKind::Tr => {
                trim_trailing_spaces(out);
                out.push('\n');
            },
            TagKind::Ul | TagKind::Ol => {
                let ghost before = lists@;
                if lists.len() > 0 {
                    lists.pop();
                    assert(counters(lists@) =~= counters(before).drop_last());
                    assert forall|j: int| 0 <= j < lists@.len() implies (#[trigger] lists@[j] matches Some(x) ==> x <= bound + 1) by {
                        assert(lists@[j] == before[j]);
                    }
                }
                out.push('\n');
            },
            TagKind::Cell => {
                out.push('\t');
            },
            _ => {},
        }
    } else if !self_closing {
        match kind {
            TagKind::H1 => crate::text::push_chars(out, &['#', ' ']),
            TagKind::H2 => crate::text::push_chars(out, &['#', '#', ' ']),
            TagKind::H3 => crate::text::push_chars(out, &['#', '#', '#', ' ']),
            TagKind::H4 => crate::text::push_chars(out, &['#', '#', '#', '#', ' ']),
            TagKind::Block => ensure_blank_line(out),
            TagKind::Br => out.push('\n'),
            TagKind::Li => {
                let depth = lists.len();
                let ghost before = lists@;
                trim_trailing_spaces(out);
                let m = out.len();
                if !(m > 0 && out[m - 1] == '\n') {
                    out.push('\n');
                }
                if depth == 0 {
                    crate::text::push_chars(out, &['*', ' ']);
                } else {
                    let last = lists[depth - 1];
                    match last {
                        Some(c) => {
                            push_spaces(out, depth - 1);
                            let next = c + 1;
                            lists.set(depth - 1, Some(next));
                            push_decimal(out, next);
                            crate::text::push_chars(out, &['.', ' ']);
                            assert(counters(lists@) =~= counters(before).update(depth - 1, Some(next as int)));
                            assert forall|j: int| 0 <= j < lists@.len() implies (#[trigger] lists@[j] matches Some(x) ==> x <= bound + 1) by {
                                if j != depth - 1 {
                                    assert(lists@[j] == before[j]);
                                }
                            }
                        },
                        None => {
                            push_spaces(out, depth - 1);
                            crate::text::push_chars(out, &['*', ' ']);
                        },
                    }
                }
            },
            TagKind::Ul => {
                let ghost before = lists@;
                lists.push(None);
                assert(counters(lists@) =~= counters(before).push(None));
                assert forall|j: int| 0 <= j < lists@.len() implies (#[trigger] lists@[j] matches Some(x) ==> x <= bound + 1) by {
                    if j < before.len() {
                        assert(lists@[j] == before[j]);
                    }
                }
            },
            TagKind::Ol => {
                let ghost before = lists@;
                lists.push(Some(0));
                assert(counters(lists@) =~= counters(before).push(Some(0)));
                assert forall|j: int| 0 <= j < lists@.len() implies (#[trigger] lists@[j] matches Some(x) ==> x <= bound + 1) by {
                    if j < before.len() {
                        assert(lists@[j] == before[j]);
                    }
                }
            },
            TagKind::Rule => crate::text::push_chars(out, &['-', '-', '-', '\n']),
            _ => {},
        }
    }
}


/// Reads an entity body from `start` up to (not including) the next `;`.
fn scan_entity(s: &Vec<char>, start: usize) -> (r: (usize, Vec<char>))
    requires
        start <= s@.len(),
    ensures
        r.0 == start + entity_len(s@.skip(start as int)),
        r.0 <= s@.len(),
        r.1@ == s@.subrange(start as int, r.0 as int),
{
    let n = s.len();
    let mut j = start;
    let mut ent: Vec<char> = Vec::new();
    while j < n && s[j] != ';'
        invariant
            start <= j <= n,
            n == s@.len(),
            entity_len(s@.skip(start as int)) == (j - start) + entity_len(s@.skip(j as int)),
            ent@ == s@.subrange(start as int, j as int),
        decreases n - j,
    {
        assert(s@.skip(j as int).drop_first() =~= s@.skip(j + 1));
        ent.push(s[j]);
        assert(s@.subrange(start as int, j + 1) =~= s@.subrange(start as int, j as int).push(s@[j as int]));
        j = j + 1;
    }
    (j, ent)
}

/// Reads a tag name from `start`, stopping at whitespace, `>` or `/`.
fn scan_name(s: &Vec<char>, start: usize) -> (r: (usize, Vec<char>))
    requires
        start <= s@.len(),
    ensures
        r.0 == start + name_len(s@.skip(start as int)),
        r.0 <= s@.len(),
        r.1@ == s@.subrange(start as int, r.0 as int),
{
    let n = s.len();
    let mut j = start;
    let mut name: Vec<char> = Vec::new();
    while j < n && !(crate::text::char_is_whitespace(s[j]) || s[j] == '>' || s[j] == '/')
        invariant
            start <= j <= n,
            n == s@.len(),
            name_len(s@.skip(start as int)) == (j - start) + name_len(s@.skip(j as int)),
            name@ == s@.subrange(start as int, j as int),
        decreases n - j,
    {
        assert(s@.skip(j as int).drop_first() =~= s@.skip(j + 1));
        name.push(s[j]);
        assert(s@.subrange(start as int, j + 1) =~= s@.subrange(start as int, j as int).push(s@[j as int]));
        j = j + 1;
    }
    (j, name)
}

/// Skips from `start` to the next `>`, noting whether a `/` comes before it.
fn scan_tail(s: &Vec<char>, start: usize) -> (r: (usize, bool))
    requires
        start <= s@.len(),
    ensures
        r.0 == start + tail_len(s@.skip(start as int)),
        r.0 <= s@.len(),
        r.1 == s@.subrange(start as int, r.0 as int).contains('/'),
{
    let n = s.len();
    let mut j = start;
    let mut slash = false;
    while j < n && s[j] != '>'
        invariant
            start <= j <= n,
            n == s@.len(),
            tail_len(s@.skip(start as int)) == (j - start) + tail_len(s@.skip(j as int)),
            slash == s@.subrange(start as int, j as int).contains('/'),
        decreases n - j,
    {
        assert(s@.skip(j as int).drop_first() =~= s@.skip(j + 1));
        let ghost before = s@.subrange(start as int, j as int);
        if s[j] == '/' {
            slash = true;
        }
        let ghost after = s@.subrange(start as int, j + 1);
        assert(after =~= before.push(s@[j as int]));
        assert(after.contains('/') == (before.contains('/') || s@[j as int] == '/')) by {
            if before.contains('/') {
                let k = choose|k: int| 0 <= k < before.len() && before[k] == '/';
                assert(after[k] == '/');
            }
            if s@[j as int] == '/' {
                assert(after[before.len() as int] == '/');
            }
            if after.contains('/') {
                let k = choose|k: int| 0 <= k < after.len() && after[k] == '/';
                if k < before.len() {
                    assert(before[k] == '/');
                }
            }
        }
        j = j + 1;
    }
    (j, slash)
}

/// Collapses every run of three or more newlines to two.
fn collapse_newlines(s: &Vec<char>) -> (r: Vec<char>)
    ensures
        r@ == collapse_from(s@, 0),
{
    let n = s.len();
    let mut r: Vec<char> = Vec::new();
    let mut run: usize = 0;
    let mut i: usize = 0;
    assert(s@.skip(0) =~= s@);
    while i < n
        invariant
            i <= n,
            n == s@.len(),
            run <= i,
            r@ + collapse_from(s@.skip(i as int), run as nat) == collapse_from(s@, 0),
        decreases n - i,
    {
        let ghost rest = s@.skip(i as int);
        assert(rest.drop_first() =~= s@.skip(i + 1));
        let c = s[i];
        if c == '\n' {
            run = run + 1;
            if run <= 2 {
                let ghost before = r@;
                r.push('\n');
                assert(r@ + collapse_from(s@.skip(i + 1), run as nat) =~= before + (seq!['\n'] + collapse_from(s@.skip(i + 1), run as nat)));
            }
        } else {
            run = 0;
            let ghost before = r@;
            r.push(c);
            assert(r@ + collapse_from(s@.skip(i + 1), 0) =~= before + (seq![c] + collapse_from(s@.skip(i + 1), 0)));
        }
        i = i + 1;
    }
    assert(s@.skip(n as int) =~= Seq::<char>::empty());
    assert(r@ + Seq::<char>::empty() =~= r@);
    r
}

/// Renders Confluence storage-format XHTML as plain text: headings become
/// `#` lines, list items get `*` or number markers, entities are decoded,
/// other tags are dropped, runs of blank lines are cut to one, and the
/// result is trimmed.
pub fn render_storage(html: &str) -> (r: String)
    ensures
        r@ == render_storage_spec(html@),
{
    let s = crate::text::chars_of(html);
    let n = s.len();
    let mut out: Vec<char> = Vec::new();
    let mut lists: Vec<Option<usize>> = Vec::new();
    let mut i: usize = 0;
    let ghost init = RenderState { out: seq![], lists: seq![] };
    assert(s@.skip(0) =~= s@);
    assert(counters(lists@) =~= Seq::<Option<int>>::empty());
    while i < n
        invariant
            i <= n,
            n == s@.len(),
            counters_at_most(lists@, i as int),
            render_from(s@.skip(i as int), state_of(out@, lists@)) == render_from(s@, init),
        decreases n - i,
    {
        let ghost x = s@.skip(i as int);
        let ghost st = state_of(out@, lists@);
        proof {
            lemma_token_len_bound(x);
        }
        let c = s[i];
        if c != '<' {
            if c == '&' {
                let (j, ent) = scan_entity(&s, i + 1);
                assert(x.drop_first() =~= s@.skip(i + 1));
                assert(ent@ =~= x.subrange(1, 1 + entity_len(x.drop_first()) as int));
                let mut decoded = decode_entity(&ent);
                out.append(&mut decoded);
                let k = if j < n { j + 1 } else { j };
                assert(x.skip(token_len(x) as int) =~= s@.skip(k as int));
                i = k;
            } else {
                out.push(c);
                assert(x.skip(1) =~= s@.skip(i + 1));
                i = i + 1;
            }
        } else {
            let closing = i + 1 < n && s[i + 1] == '/';
            let p = if closing { i + 2 } else { i + 1 };
            let (name_end, name) = scan_name(&s, p);
            let (tail_end, self_closing) = scan_tail(&s, name_end);
            let k = if tail_end < n { tail_end + 1 } else { tail_end };
            proof {
                let pp: int = if closing { 2 } else { 1 };
                assert(x.skip(pp) =~= s@.skip(p as int));
                let nl = name_len(x.skip(pp)) as int;
                assert(x.skip(pp + nl) =~= s@.skip(name_end as int));
                let t = tail_len(x.skip(pp + nl)) as int;
                assert(x.subrange(pp + nl, pp + nl + t) =~= s@.subrange(name_end as int, tail_end as int));
                assert(x.subrange(pp, pp + nl) =~= name@);
                assert(x.skip(token_len(x) as int) =~= s@.skip(k as int));
            }
            let kind = classify_tag(&name);
            apply_tag_exec(&mut out, &mut lists, kind, closing, self_closing, Ghost(i as int));
            i = k;
        }
    }
    assert(s@.skip(n as int) =~= Seq::<char>::empty());
    let collapsed = collapse_newlines(&out);
    crate::text::trimmed_string(collapsed.as_slice())
}


// ---------------------------------------------------------------------------
// Properties of the rendered text
// ---------------------------------------------------------------------------

/// Whether `s` holds three newlines in a row.
pub open spec fn has_triple_newline(s: Seq<char>) -> bool {
    exists|i: int| 0 <= i && i + 2 < s.len() && #[trigger] s[i] == '\n' && s[i + 1] == '\n' && s[i + 2] == '\n'
}

/// Number of newlines at the front of `s`.
pub open spec fn leading_newlines(s: Seq<char>) -> nat
    decreases s.len(),
{
    if s.len() > 0 && s[0] == '\n' {
        1 + leading_newlines(s.drop_first())
    } else {
        0
    }
}

proof fn lemma_leading_newlines_two(s: Seq<char>)
    requires
        s.len() >= 2,
        s[0] == '\n',
        s[1] == '\n',
    ensures
        leading_newlines(s) >= 2,
{
    assert(s.drop_first()[0] == '\n');
    assert(leading_newlines(s.drop_first()) >= 1);
}

proof fn lemma_collapse_shape(s: Seq<char>, run: nat)
    ensures
        !has_triple_newline(collapse_from(s, run)),
        leading_newlines(collapse_from(s, run)) <= (if run <= 2 { 2 - run } else { 0 }),
    decreases s.len(),
{
    if s.len() > 0 {
        let rest = s.drop_first();
        if s[0] == '\n' {
            lemma_collapse_shape(rest, run + 1);
            if run + 1 <= 2 {
                let c = collapse_from(rest, run + 1);
                let r = seq!['\n'] + c;
                assert(r.drop_first() =~= c);
                assert forall|i: int| 0 <= i && i + 2 < r.len() implies !(#[trigger] r[i] == '\n' && r[i + 1] == '\n' && r[i + 2] == '\n') by {
                    if i == 0 {
                        if r[1] == '\n' && r[2] == '\n' {
                            lemma_leading_newlines_two(c);
                        }
                    } else {
                        assert(r[i] == c[i - 1] && r[i + 1] == c[i] && r[i + 2] == c[i + 1]);
                    }
                }
            }
        } else {
            lemma_collapse_shape(rest, 0);
            let c = collapse_from(rest, 0);
            let r = seq![s[0]] + c;
            assert forall|i: int| 0 <= i && i + 2 < r.len() implies !(#[trigger] r[i] == '\n' && r[i + 1] == '\n' && r[i + 2] == '\n') by {
                if i > 0 {
                    assert(r[i] == c[i - 1] && r[i + 1] == c[i] && r[i + 2] == c[i + 1]);
                }
            }
        }
    }
}

proof fn lemma_trim_start_shape(s: Seq<char>)
    requires
        !has_triple_newline(s),
    ensures
        !has_triple_newline(trim_start(s)),
        trim_start(s).len() > 0 ==> !is_whitespace(trim_start(s)[0]),
    decreases s.len(),
{
    if s.len() > 0 && is_whitespace(s[0]) {
        let t = s.drop_first();
        assert forall|i: int| 0 <= i && i + 2 < t.len() implies !(#[trigger] t[i] == '\n' && t[i + 1] == '\n' && t[i + 2] == '\n') by {
            assert(t[i] == s[i + 1] && t[i + 1] == s[i + 2] && t[i + 2] == s[i + 3]);
        }
        lemma_trim_start_shape(t);
    }
}

proof fn lemma_trim_end_shape(s: Seq<char>)
    requires
        !has_triple_newline(s),
        s.len() > 0 ==> !is_whitespace(s[0]),
    ensures
        !has_triple_newline(trim_end(s)),
        trim_end(s).len() > 0 ==> !is_whitespace(trim_end(s)[0]) && !is_whitespace(trim_end(s).last()),
    decreases s.len(),
{
    if s.len() > 0 && is_whitespace(s.last()) {
        let t = s.drop_last();
        assert forall|i: int| 0 <= i && i + 2 < t.len() implies !(#[trigger] t[i] == '\n' && t[i + 1] == '\n' && t[i + 2] == '\n') by {
            assert(t[i] == s[i] && t[i + 1] == s[i + 1] && t[i + 2] == s[i + 2]);
        }
        lemma_trim_end_shape(t);
    }
}

/// The rendered text never holds three newlines in a row (runs of blank lines
/// are cut to one), and it neither starts nor ends with whitespace.
pub proof fn law_render_storage_shape(html: Seq<char>)
    ensures
        !has_triple_newline(render_storage_spec(html)),
        render_storage_spec(html).len() > 0 ==> !is_whitespace(render_storage_spec(html)[0])
            && !is_whitespace(render_storage_spec(html).last()),
{
    let c = collapse_from(render_from(html, RenderState { out: seq![], lists: seq![] }), 0);
    lemma_collapse_shape(render_from(html, RenderState { out: seq![], lists: seq![] }), 0);
    lemma_trim_start_shape(c);
    lemma_trim_end_shape(trim_start(c));
}

// ---------------------------------------------------------------------------
// Headings
// ---------------------------------------------------------------------------

/// Whether `t` is plain text: no tag, no entity and no line break in it.
pub open spec fn plain_text(t: Seq<char>) -> bool {
    forall|i: int| 0 <= i < t.len() ==> #[trigger] t[i] != '<' && t[i] != '&' && t[i] != '\n'
}

/// The marks that a heading of level `d` (a digit from `1` to `6`) opens
/// with: one `#` per level, at most four, then a space.
pub open spec fn heading_marks(d: char) -> Seq<char> {
    let level = d as int - '0' as int;
    Seq::new((if level < 4 { level } else { 4 }) as nat, |i: int| '#') + seq![' ']
}

proof fn lemma_render_plain(t: Seq<char>, rest: Seq<char>, st: RenderState)
    requires
        plain_text(t),
    ensures
        render_from(t + rest, st) == render_from(rest, RenderState { out: st.out + t, lists: st.lists }),
    decreases t.len(),
{
    let s = t + rest;
    if t.len() == 0 {
        assert(s =~= rest);
        assert(st.out + t =~= st.out);
    } else {
        assert(s[0] == t[0]);
        assert(token_len(s) == 1);
        assert(s.skip(1) =~= t.drop_first() + rest);
        let st1 = RenderState { out: st.out.push(t[0]), lists: st.lists };
        assert(apply_token(s, st) == st1);
        assert forall|i: int| 0 <= i < t.drop_first().len() implies #[trigger] t.drop_first()[i] != '<'
            && t.drop_first()[i] != '&' && t.drop_first()[i] != '\n' by {
            assert(t.drop_first()[i] == t[i + 1]);
        }
        lemma_render_plain(t.drop_first(), rest, st1);
        assert(st1.out + t.drop_first() =~= st.out + t);
    }
}

proof fn lemma_tag_is_h(h: char, d: char, c: char)
    requires
        h == 'h' || h == 'H',
        '0' <= d <= '9',
    ensures
        tag_is(seq![h, d], seq!['h', c]) <==> d == c,
{
    let name = seq![h, d];
    assert(fold_tag_char(h) == 'h');
    assert(fold_tag_char(d) == d);
    if d != c {
        assert(fold_tag_char(name[1]) != seq!['h', c][1]);
    } else {
        assert forall|i: int| 0 <= i < name.len() implies fold_tag_char(#[trigger] name[i]) == seq!['h', c][i] by {}
    }
}

proof fn lemma_heading_kind(h: char, d: char)
    requires
        h == 'h' || h == 'H',
        '1' <= d <= '6',
    ensures
        d == '1' ==> tag_kind(seq![h, d]) == TagKind::H1,
        d == '2' ==> tag_kind(seq![h, d]) == TagKind::H2,
        d == '3' ==> tag_kind(seq![h, d]) == TagKind::H3,
        d >= '4' ==> tag_kind(seq![h, d]) == TagKind::H4,
{
    lemma_tag_is_h(h, d, '1');
    lemma_tag_is_h(h, d, '2');
    lemma_tag_is_h(h, d, '3');
    lemma_tag_is_h(h, d, '4');
    lemma_tag_is_h(h, d, '5');
    lemma_tag_is_h(h, d, '6');
}

proof fn lemma_open_tag(h: char, d: char, rest: Seq<char>, st: RenderState)
    requires
        h == 'h' || h == 'H',
        '1' <= d <= '6',
    ensures
        render_from(seq!['<', h, d, '>'] + rest, st) == render_from(rest, apply_tag(st, tag_kind(seq![h, d]), false, false)),
{
    let s = seq!['<', h, d, '>'] + rest;
    assert(s[0] == '<' && s[1] == h && s[2] == d && s[3] == '>');
    assert(!is_whitespace(h) && !is_whitespace(d));
    assert(s.skip(1).drop_first() =~= s.skip(2));
    assert(s.skip(2).drop_first() =~= s.skip(3));
    assert(name_len(s.skip(3)) == 0);
    assert(name_len(s.skip(2)) == 1);
    assert(name_len(s.skip(1)) == 2);
    assert(tail_len(s.skip(3)) == 0);
    assert(token_len(s) == 4);
    assert(s.subrange(1, 3) =~= seq![h, d]);
    assert(!s.subrange(3, 3).contains('/'));
    assert(s.skip(4) =~= rest);
}

proof fn lemma_close_tag(h: char, d: char, rest: Seq<char>, st: RenderState)
    requires
        h == 'h' || h == 'H',
        '1' <= d <= '6',
    ensures
        render_from(seq!['<', '/', h, d, '>'] + rest, st) == render_from(rest, apply_tag(st, tag_kind(seq![h, d]), true, false)),
{
    let s = seq!['<', '/', h, d, '>'] + rest;
    assert(s[0] == '<' && s[1] == '/' && s[2] == h && s[3] == d && s[4] == '>');
    assert(!is_whitespace(h) && !is_whitespace(d));
    assert(s.skip(2).drop_first() =~= s.skip(3));
    assert(s.skip(3).drop_first() =~= s.skip(4));
    assert(name_len(s.skip(4)) == 0);
    assert(name_len(s.skip(3)) == 1);
    assert(name_len(s.skip(2)) == 2);
    assert(tail_len(s.skip(4)) == 0);
    assert(token_len(s) == 5);
    assert(s.subrange(2, 4) =~= seq![h, d]);
    assert(!s.subrange(4, 4).contains('/'));
    assert(s.skip(5) =~= rest);
}

proof fn lemma_collapse_line(s: Seq<char>)
    requires
        forall|i: int| 0 <= i < s.len() ==> #[trigger] s[i] != '\n',
    ensures
        collapse_from(s.push('\n'), 0) == s.push('\n'),
    decreases s.len(),
{
    if s.len() == 0 {
        assert(s.push('\n')[0] == '\n');
        assert(s.push('\n').drop_first() =~= Seq::<char>::empty());
        assert(collapse_from(Seq::<char>::empty(), 1) == Seq::<char>::empty());
        assert(collapse_from(s.push('\n'), 0) =~= s.push('\n'));
    } else {
        assert(s.push('\n')[0] == s[0]);
        assert(s.push('\n').drop_first() =~= s.drop_first().push('\n'));
        assert forall|i: int| 0 <= i < s.drop_first().len() implies #[trigger] s.drop_first()[i] != '\n' by {
            assert(s.drop_first()[i] == s[i + 1]);
        }
        lemma_collapse_line(s.drop_first());
        assert(collapse_from(s.push('\n'), 0) =~= s.push('\n'));
    }
}

/// A heading of level `d` (`<hd>` to `</hd>`, the tag name in either case)
/// around plain text renders as that text behind one `#` per level (four
/// from level four on) and a space: `<h1>` gives `# `, `<h2>` gives `## `,
/// `<h3>` gives `### `, and `<h4>` to `<h6>` give `#### `.
pub proof fn law_heading(h: char, d: char, t: Seq<char>)
    requires
        h == 'h' || h == 'H',
        '1' <= d <= '6',
        plain_text(t),
    ensures
        render_storage_spec(seq!['<', h, d, '>'] + t + seq!['<', '/', h, d, '>']) == trim(heading_marks(d) + t),
{
    let open = seq!['<', h, d, '>'];
    let close = seq!['<', '/', h, d, '>'];
    let st0 = RenderState { out: seq![], lists: seq![] };
    let kind = tag_kind(seq![h, d]);
    let m = heading_marks(d);
    lemma_heading_kind(h, d);
    assert(open + t + close =~= open + (t + close));
    lemma_open_tag(h, d, t + close, st0);
    let st1 = apply_tag(st0, kind, false, false);
    if d == '1' {
        assert(st1.out =~= m);
    } else if d == '2' {
        assert(st1.out =~= m);
    } else if d == '3' {
        assert(st1.out =~= m);
    } else {
        assert(st1.out =~= m);
    }
    assert(st1.lists == Seq::<Option<int>>::empty());
    lemma_render_plain(t, close, st1);
    let st2 = RenderState { out: m + t, lists: st1.lists };
    assert(close + Seq::<char>::empty() =~= close);
    lemma_close_tag(h, d, Seq::<char>::empty(), st2);
    let x = m + t;
    assert(render_from(open + t + close, st0) == x.push('\n'));
    assert forall|i: int| 0 <= i < x.len() implies #[trigger] x[i] != '\n' by {
        if i >= m.len() {
            assert(x[i] == t[i - m.len()]);
        }
    }
    lemma_collapse_line(x);
    assert(x.len() > 0);
    assert(!is_whitespace('#'));
    assert(m[0] == '#');
    assert(x[0] == '#');
    assert(x.push('\n')[0] == '#');
    assert(trim_start(x.push('\n')) == x.push('\n'));
    assert(trim_start(x) == x);
    assert(x.push('\n').drop_last() =~= x);
    assert(trim_end(x.push('\n')) == trim_end(x));
}

// ---------------------------------------------------------------------------
// Spaces and pages
// ---------------------------------------------------------------------------

/// A Confluence space.
pub struct Space {
    pub id: String,
    pub key: Option<String>,
    pub name: String,
    pub space_type: Option<String>,
    pub status: Option<String>,
    pub homepage_id: Option<String>,
}

/// One page of spaces.
pub struct SpacesResponse {
    pub results: Vec<Space>,
    pub links: Option<PaginationLinks>,
}

/// Where the next page of results is.
pub struct PaginationLinks {
    pub next: Option<String>,
}

/// A page body in some representation.
pub struct PageBody {
    pub representation: Option<String>,
    pub value: Option<String>,
}

/// A page's version.
pub struct PageVersion {
    pub number: i32,
    pub message: Option<String>,
}

/// A Confluence page.
pub struct Page {
    pub id: String,
    pub title: String,
    pub space_id: Option<String>,
    pub status: Option<String>,
    pub version: Option<PageVersion>,
    pub body: Option<PageBody>,
    pub created_at: Option<String>,
    pub author_id: Option<String>,
    pub parent_id: Option<String>,
}

/// One page of pages.
pub struct PagesResponse {
    pub results: Vec<Page>,
    pub links: Option<PaginationLinks>,
}

/// What creating a page answers.
pub struct CreatePageResponse {
    pub id: String,
    pub title: String,
    pub space_id: Option<String>,
}

/// One parameter `name=value` when there is a value, none otherwise.
pub open spec fn opt_param(name: Seq<char>, value: Option<Seq<char>>) -> Seq<(Seq<char>, Seq<char>)> {
    match value {
        Some(v) => seq![(name, v)],
        None => seq![],
    }
}

/// Lists spaces, optionally of one type.
pub fn list_spaces(client: &Client, limit: i32, space_type: Option<&str>) -> (r: HttpRequest)
    ensures
        r@ == client.request_spec(
            "GET"@,
            "/wiki/api/v2/spaces"@,
            Some(seq![("limit"@, signed_decimal(limit as int))] + opt_param("type"@, str_opt_view(space_type))),
            None,
        ),
{
    let limit_str = i64_to_decimal(limit as i64);
    let mut q: Vec<(&str, &str)> = Vec::new();
    q.push(("limit", limit_str.as_str()));
    match space_type {
        Some(t) => q.push(("type", t)),
        None => {},
    }
    let qs = q.as_slice();
    assert(query_view(Some(qs))->0 =~= seq![("limit"@, signed_decimal(limit as int))] + opt_param("type"@, str_opt_view(space_type)));
    client.request("GET", "/wiki/api/v2/spaces", Some(qs), None)
}

fn path2(a: &str, b: &str, c: &str) -> (r: String)
    ensures
        r@ == a@ + b@ + c@,
{
    let mut p = String::from_str(a);
    p.append(b);
    p.append(c);
    p
}

/// Fetches one space.
pub fn get_space(client: &Client, id: &str) -> (r: HttpRequest)
    ensures
        r@ == client.request_spec("GET"@, "/wiki/api/v2/spaces/"@ + id@, None, None),
{
    let mut p = String::from_str("/wiki/api/v2/spaces/");
    p.append(id);
    client.request("GET", p.as_str(), None, None)
}

/// The body that creates a space (entries in key order).
pub open spec fn create_space_body(name: Seq<char>, key: Option<Seq<char>>, description: Option<Seq<char>>) -> Json {
    Json::Object(
        opt_entry(
            "description"@,
            match description {
                Some(d) => Some(Json::Object(seq![("representation"@, Json::Str("plain"@)), ("value"@, Json::Str(d))])),
                None => None,
            },
        ) + opt_entry(
            "key"@,
            match key {
                Some(k) => Some(Json::Str(k)),
                None => None,
            },
        ) + seq![("name"@, Json::Str(name))],
    )
}

fn representation(kind: &str, value: &str) -> (r: JsonValue)
    ensures
        r@ == Json::Object(seq![("representation"@, Json::Str(kind@)), ("value"@, Json::Str(value@))]),
{
    let mut e: Vec<(String, JsonValue)> = Vec::new();
    push_entry(&mut e, "representation", json_str(kind));
    push_entry(&mut e, "value", json_str(value));
    assert(json_entries(e@) =~= seq![("representation"@, Json::Str(kind@)), ("value"@, Json::Str(value@))]);
    json_object(e)
}

/// Creates a space; a description is sent in plain representation.
pub fn create_space(client: &Client, name: &str, key: Option<&str>, description: Option<&str>) -> (r: HttpRequest)
    ensures
        r@ == client.request_spec(
            "POST"@,
            "/wiki/api/v2/spaces"@,
            None,
            Some(create_space_body(name@, str_opt_view(key), str_opt_view(description))),
        ),
{
    let mut e: Vec<(String, JsonValue)> = Vec::new();
    match description {
        Some(d) => push_entry(&mut e, "description", representation("plain", d)),
        None => {},
    }
    match key {
        Some(k) => push_entry(&mut e, "key", json_str(k)),
        None => {},
    }
    push_entry(&mut e, "name", json_str(name));
    proof {
        reveal_strlit("plain");
    }
    assert(json_entries(e@) =~= create_space_body(name@, str_opt_view(key), str_opt_view(description))->Object_0);
    let body = json_object(e);
    client.request("POST", "/wiki/api/v2/spaces", None, Some(body))
}

/// Lists the pages of a space, optionally only those with a title.
pub fn list_space_pages(client: &Client, space_id: &str, title: Option<&str>, limit: i32) -> (r: HttpRequest)
    ensures
        r@ == client.request_spec(
            "GET"@,
            "/wiki/api/v2/spaces/"@ + space_id@ + "/pages"@,
            Some(seq![("limit"@, signed_decimal(limit as int))] + opt_param("title"@, str_opt_view(title))),
            None,
        ),
{
    let limit_str = i64_to_decimal(limit as i64);
    let mut q: Vec<(&str, &str)> = Vec::new();
    q.push(("limit", limit_str.as_str()));
    match title {
        Some(t) => q.push(("title", t)),
        None => {},
    }
    let qs = q.as_slice();
    assert(query_view(Some(qs))->0 =~= seq![("limit"@, signed_decimal(limit as int))] + opt_param("title"@, str_opt_view(title)));
    let p = path2("/wiki/api/v2/spaces/", space_id, "/pages");
    client.request("GET", p.as_str(), Some(qs), None)
}

/// Lists pages, optionally of one space and with one title.
pub fn list_pages(client: &Client, space_id: Option<&str>, title: Option<&str>, limit: i32) -> (r: HttpRequest)
    ensures
        r@ == client.request_spec(
            "GET"@,
            "/wiki/api/v2/pages"@,
            Some(
                seq![("limit"@, signed_decimal(limit as int))] + opt_param("space-id"@, str_opt_view(space_id)) + opt_param(
                    "title"@,
                    str_opt_view(title),
                ),
            ),
            None,
        ),
{
    let limit_str = i64_to_decimal(limit as i64);
    let mut q: Vec<(&str, &str)> = Vec::new();
    q.push(("limit", limit_str.as_str()));
    match space_id {
        Some(s) => q.push(("space-id", s)),
        None => {},
    }
    match title {
        Some(t) => q.push(("title", t)),
        None => {},
    }
    let qs = q.as_slice();
    assert(query_view(Some(qs))->0 =~= seq![("limit"@, signed_decimal(limit as int))] + opt_param(
        "space-id"@,
        str_opt_view(space_id),
    ) + opt_param("title"@, str_opt_view(title)));
    client.request("GET", "/wiki/api/v2/pages", Some(qs), None)
}

/// Fetches one page, with its body in storage format when asked.
pub fn get_page(client: &Client, id: &str, with_body: bool) -> (r: HttpRequest)
    ensures
        r@ == client.request_spec(
            "GET"@,
            "/wiki/api/v2/pages/"@ + id@,
            Some(
                if with_body {
                    seq![("body-format"@, "storage"@)]
                } else {
                    seq![]
                },
            ),
            None,
        ),
{
    let mut q: Vec<(&str, &str)> = Vec::new();
    if with_body {
        q.push(("body-format", "storage"));
    }
    let qs = q.as_slice();
    assert(query_view(Some(qs))->0 =~= if with_body {
        seq![("body-format"@, "storage"@)]
    } else {
        seq![]
    });
    let mut p = String::from_str("/wiki/api/v2/pages/");
    p.append(id);
    client.request("GET", p.as_str(), Some(qs), None)
}

/// A body in storage representation.
pub open spec fn storage_body(html: Seq<char>) -> Json {
    Json::Object(seq![("representation"@, Json::Str("storage"@)), ("value"@, Json::Str(html))])
}

/// The body that creates a page (entries in key order).
pub open spec fn create_page_body(space_id: Seq<char>, title: Seq<char>, body_html: Option<Seq<char>>, parent_id: Option<Seq<char>>) -> Json {
    Json::Object(
        opt_entry(
            "body"@,
            match body_html {
                Some(h) => Some(storage_body(h)),
                None => None,
            },
        ) + opt_entry(
            "parentId"@,
            match parent_id {
                Some(p) => Some(Json::Str(p)),
                None => None,
            },
        ) + seq![("spaceId"@, Json::Str(space_id)), ("status"@, Json::Str("current"@)), ("title"@, Json::Str(title))],
    )
}

/// Creates a page, optionally under a parent and with a storage-format body.
pub fn create_page(client: &Client, space_id: &str, title: &str, body_html: Option<&str>, parent_id: Option<&str>) -> (r: HttpRequest)
    ensures
        r@ == client.request_spec(
            "POST"@,
            "/wiki/api/v2/pages"@,
            None,
            Some(create_page_body(space_id@, title@, str_opt_view(body_html), str_opt_view(parent_id))),
        ),
{
    let mut e: Vec<(String, JsonValue)> = Vec::new();
    match body_html {
        Some(h) => push_entry(&mut e, "body", representation("storage", h)),
        None => {},
    }
    match parent_id {
        Some(p) => push_entry(&mut e, "parentId", json_str(p)),
        None => {},
    }
    push_entry(&mut e, "spaceId", json_str(space_id));
    push_entry(&mut e, "status", json_str("current"));
    push_entry(&mut e, "title", json_str(title));
    assert(json_entries(e@) =~= create_page_body(space_id@, title@, str_opt_view(body_html), str_opt_view(parent_id))->Object_0);
    let body = json_object(e);
    client.request("POST", "/wiki/api/v2/pages", None, Some(body))
}

/// The body that updates a page to a new version (entries in key order).
pub open spec fn update_page_body(id: Seq<char>, title: Seq<char>, version_number: i32, body_html: Option<Seq<char>>) -> Json {
    Json::Object(
        opt_entry(
            "body"@,
            match body_html {
                Some(h) => Some(storage_body(h)),
                None => None,
            },
        ) + seq![
            ("id"@, Json::Str(id)),
            ("status"@, Json::Str("current"@)),
            ("title"@, Json::Str(title)),
            ("version"@, obj1("number"@, Json::Number(signed_decimal(version_number as int)))),
        ],
    )
}

/// Updates a page's title (and body, when given) as the given version.
pub fn update_page(client: &Client, id: &str, title: &str, version_number: i32, body_html: Option<&str>) -> (r: HttpRequest)
    ensures
        r@ == client.request_spec(
            "PUT"@,
            "/wiki/api/v2/pages/"@ + id@,
            None,
            Some(update_page_body(id@, title@, version_number, str_opt_view(body_html))),
        ),
{
    let mut e: Vec<(String, JsonValue)> = Vec::new();
    match body_html {
        Some(h) => push_entry(&mut e, "body", representation("storage", h)),
        None => {},
    }
    push_entry(&mut e, "id", json_str(id));
    push_entry(&mut e, "status", json_str("current"));
    push_entry(&mut e, "title", json_str(title));
    let n = i64_to_decimal(version_number as i64);
    push_entry(&mut e, "version", json_object1("number", JsonValue::Number(n)));
    assert(json_entries(e@) =~= update_page_body(id@, title@, version_number, str_opt_view(body_html))->Object_0);
    let body = json_object(e);
    let mut p = String::from_str("/wiki/api/v2/pages/");
    p.append(id);
    client.request("PUT", p.as_str(), None, Some(body))
}

/// Deletes a page.
pub fn delete_page(client: &Client, id: &str) -> (r: HttpRequest)
    ensures
        r@ == client.request_spec("DELETE"@, "/wiki/api/v2/pages/"@ + id@, None, None),
{
    let mut p = String::from_str("/wiki/api/v2/pages/");
    p.append(id);
    client.request("DELETE", p.as_str(), None, None)
}

} // verus!
