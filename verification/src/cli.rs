use vstd::prelude::*;
use vstd::string::StringExecFns;
use crate::config::{clone_opt_string, opt_view};
use crate::confluence::digits_value;
use crate::client::{has_prefix, starts_with};
use crate::text::{chars_of, str_eq, string_of, strings_view, strs_view};

verus! {

// ---------------------------------------------------------------------------
// Numbers given on the command line
// ---------------------------------------------------------------------------

/// The integer a string denotes as `str::parse` reads it: an optional `+` or
/// `-`, then one or more ASCII digits.
pub open spec fn parse_int(s: Seq<char>) -> Option<int> {
    let signed = s.len() > 0 && (s[0] == '+' || s[0] == '-');
    let d = if signed { s.drop_first() } else { s };
    if d.len() == 0 {
        None
    } else {
        match digits_value(d, 10) {
            Some(v) => Some(if s[0] == '-' { -v } else { v as int }),
            None => None,
        }
    }
}

/// `s.parse::<i32>().ok()`.
pub open spec fn parse_i32(s: Seq<char>) -> Option<i32> {
    match parse_int(s) {
        Some(v) => if i32::MIN <= v <= i32::MAX { Some(v as i32) } else { None },
        None => None,
    }
}

/// `s.parse::<i64>().ok()`.
pub open spec fn parse_i64(s: Seq<char>) -> Option<i64> {
    match parse_int(s) {
        Some(v) => if i64::MIN <= v <= i64::MAX { Some(v as i64) } else { None },
        None => None,
    }
}

/// A magnitude larger than any `i64` can have.
pub open spec fn cap() -> nat {
    0x8000_0000_0000_0001
}

pub open spec fn capped(v: nat) -> nat {
    if v < cap() { v } else { cap() }
}

proof fn lemma_capped_step(a: nat, b: nat)
    requires
        b < 10,
    ensures
        capped(capped(a) * 10 + b) == capped(a * 10 + b),
{
    if a >= cap() {
        assert(a * 10 >= cap() * 10) by (nonlinear_arith)
            requires
                a >= cap(),
        ;
    }
}

proof fn lemma_digits_none_extends(d: Seq<char>, first: int, i: int)
    requires
        0 <= first <= i <= d.len(),
        digits_value(d.subrange(first, i), 10) is None,
    ensures
        digits_value(d.subrange(first, d.len() as int), 10) is None,
    decreases d.len() - i,
{
    if i < d.len() {
        assert(d.subrange(first, i + 1).drop_last() =~= d.subrange(first, i));
        lemma_digits_none_extends(d, first, i + 1);
    }
}

/// Reads a signed decimal integer as `str::parse` does, when it fits in an `i64`.
pub fn parse_i64_text(s: &str) -> (r: Option<i64>)
    ensures
        r == parse_i64(s@),
{
    let d = chars_of(s);
    let n = d.len();
    let mut i: usize = 0;
    let neg = n > 0 && d[0] == '-';
    if n > 0 && (d[0] == '+' || d[0] == '-') {
        i = 1;
    }
    let first = i;
    let ghost digits = d@.skip(first as int);
    assert(digits =~= (if s@.len() > 0 && (s@[0] == '+' || s@[0] == '-') { s@.drop_first() } else { s@ }));
    if first == n {
        return None;
    }
    let mut acc: u128 = 0;
    while i < n
        invariant
            first <= i <= n,
            first < n,
            n == d@.len(),
            d@ == s@,
            digits == d@.skip(first as int),
            digits == (if s@.len() > 0 && (s@[0] == '+' || s@[0] == '-') { s@.drop_first() } else { s@ }),
            neg == (s@.len() > 0 && s@[0] == '-'),
            digits_value(d@.subrange(first as int, i as int), 10) is Some,
            acc == capped(digits_value(d@.subrange(first as int, i as int), 10)->0),
        decreases n - i,
    {
        let c = d[i];
        let p = Ghost(d@.subrange(first as int, i + 1));
        assert(p@.drop_last() =~= d@.subrange(first as int, i as int));
        assert(p@.last() == c);
        if c < '0' || c > '9' {
            proof {
                lemma_digits_none_extends(d@, first as int, i + 1);
                assert(d@.subrange(first as int, n as int) =~= digits);
            }
            return None;
        }
        let dv: u128 = (c as u128) - 48;
        proof {
            lemma_capped_step(digits_value(d@.subrange(first as int, i as int), 10)->0, dv as nat);
        }
        let w: u128 = acc * 10 + dv;
        acc = if w < 0x8000_0000_0000_0001 { w } else { 0x8000_0000_0000_0001 };
        i = i + 1;
    }
    assert(d@.subrange(first as int, n as int) =~= digits);
    if neg {
        if acc <= 0x8000_0000_0000_0000 {
            let m: i128 = -(acc as i128);
            Some(m as i64)
        } else {
            None
        }
    } else {
        if acc <= 0x7fff_ffff_ffff_ffff {
            Some(acc as i64)
        } else {
            None
        }
    }
}

/// Reads a signed decimal integer as `str::parse` does, when it fits in an `i32`.
pub fn parse_i32_text(s: &str) -> (r: Option<i32>)
    ensures
        r == parse_i32(s@),
{
    match parse_i64_text(s) {
        Some(v) => if -2147483648 <= v && v <= 2147483647 {
            Some(v as i32)
        } else {
            None
        },
        None => {
            assert(parse_i32(s@) is None);
            None
        },
    }
}

/// A count given as a flag, or the default when it is absent or not a number
/// (`s.parse().unwrap_or(default)`).
pub open spec fn count_or(v: Option<Seq<char>>, default: i32) -> i32 {
    match v {
        Some(s) => match parse_i32(s) {
            Some(n) => n,
            None => default,
        },
        None => default,
    }
}

/// Executable form of [`count_or`].
pub fn count_or_exec(v: &Option<String>, default: i32) -> (r: i32)
    ensures
        r == count_or(opt_view(*v), default),
{
    match v {
        Some(s) => match parse_i32_text(s.as_str()) {
            Some(n) => n,
            None => default,
        },
        None => default,
    }
}

// ---------------------------------------------------------------------------
// Flags
// ---------------------------------------------------------------------------

/// The position of the first occurrence of `a` in `names`, or -1.
pub open spec fn first_index(names: Seq<Seq<char>>, a: Seq<char>) -> int
    decreases names.len(),
{
    if names.len() == 0 {
        -1
    } else if names[0] == a {
        0
    } else {
        let k = first_index(names.drop_first(), a);
        if k < 0 { -1 } else { k + 1 }
    }
}

proof fn lemma_first_index(names: Seq<Seq<char>>, a: Seq<char>)
    ensures
        -1 <= first_index(names, a) < names.len(),
        first_index(names, a) >= 0 ==> names[first_index(names, a)] == a,
        first_index(names, a) < 0 ==> forall|j: int| 0 <= j < names.len() ==> names[j] != a,
        forall|j: int| 0 <= j < first_index(names, a) ==> names[j] != a,
    decreases names.len(),
{
    if names.len() > 0 && names[0] != a {
        lemma_first_index(names.drop_first(), a);
        assert forall|j: int| 0 < j < names.len() implies names[j] == names.drop_first()[j - 1] by {}
    }
}

/// Scans arguments from position `i` the way the command handlers do: a
/// value flag (one of `names`) followed by another argument takes that
/// argument as its value and both are consumed; a switch (one of `switches`)
/// is recorded on its own; anything else is skipped. A later occurrence
/// overrides an earlier one. `acc` holds the values of `names` followed by
/// those of `switches` (a switch's value is its own text).
pub open spec fn scan(
    args: Seq<Seq<char>>,
    i: int,
    names: Seq<Seq<char>>,
    switches: Seq<Seq<char>>,
    acc: Seq<Option<Seq<char>>>,
) -> Seq<Option<Seq<char>>>
    decreases args.len() - i,
{
    if i < 0 || i >= args.len() {
        acc
    } else if i + 1 < args.len() && first_index(names, args[i]) >= 0 {
        scan(args, i + 2, names, switches, acc.update(first_index(names, args[i]), Some(args[i + 1])))
    } else if first_index(switches, args[i]) >= 0 {
        scan(args, i + 1, names, switches, acc.update(names.len() + first_index(switches, args[i]), Some(args[i])))
    } else {
        scan(args, i + 1, names, switches, acc)
    }
}

/// The values of the value flags `names`, then of the switches, found from
/// position `start` on.
pub open spec fn flags_from(args: Seq<Seq<char>>, start: int, names: Seq<Seq<char>>, switches: Seq<Seq<char>>) -> Seq<Option<Seq<char>>> {
    scan(args, start, names, switches, Seq::new(names.len() + switches.len(), |k: int| None))
}

proof fn lemma_scan_len(
    args: Seq<Seq<char>>,
    i: int,
    names: Seq<Seq<char>>,
    switches: Seq<Seq<char>>,
    acc: Seq<Option<Seq<char>>>,
)
    requires
        acc.len() == names.len() + switches.len(),
    ensures
        scan(args, i, names, switches, acc).len() == acc.len(),
    decreases args.len() - i,
{
    if 0 <= i < args.len() {
        lemma_first_index(names, args[i]);
        lemma_first_index(switches, args[i]);
        if i + 1 < args.len() && first_index(names, args[i]) >= 0 {
            lemma_scan_len(args, i + 2, names, switches, acc.update(first_index(names, args[i]), Some(args[i + 1])));
        } else if first_index(switches, args[i]) >= 0 {
            lemma_scan_len(args, i + 1, names, switches, acc.update(names.len() + first_index(switches, args[i]), Some(args[i])));
        } else {
            lemma_scan_len(args, i + 1, names, switches, acc);
        }
    }
}

/// The model of optional strings.
pub open spec fn opt_strings_view(v: Seq<Option<String>>) -> Seq<Option<Seq<char>>> {
    Seq::new(v.len(), |k: int| opt_view(v[k]))
}

fn find_name(names: &[&str], a: &str) -> (r: Option<usize>)
    ensures
        -1 <= first_index(strs_view(names@), a@) < names@.len(),
        r matches Some(k) ==> k as int == first_index(strs_view(names@), a@),
        r is None ==> first_index(strs_view(names@), a@) == -1,
{
    let ghost nv = strs_view(names@);
    proof {
        lemma_first_index(nv, a@);
    }
    let n = names.len();
    for k in 0..n
        invariant
            n == names@.len(),
            nv == strs_view(names@),
            forall|j: int| 0 <= j < k ==> nv[j] != a@,
            -1 <= first_index(nv, a@) < nv.len(),
            first_index(nv, a@) >= 0 ==> nv[first_index(nv, a@)] == a@,
            forall|j: int| 0 <= j < first_index(nv, a@) ==> nv[j] != a@,
            first_index(nv, a@) < 0 ==> forall|j: int| 0 <= j < nv.len() ==> nv[j] != a@,
    {
        if str_eq(names[k], a) {
            assert(nv[k as int] == a@);
            return Some(k);
        }
    }
    None
}

/// Scans the arguments from `start` for the value flags `names` and the
/// switches `switches` (see [`scan`]).
pub fn scan_flags(args: &Vec<String>, start: usize, names: &[&str], switches: &[&str]) -> (r: Vec<Option<String>>)
    requires
        names@.len() + switches@.len() <= usize::MAX,
    ensures
        r@.len() == names@.len() + switches@.len(),
        opt_strings_view(r@) == flags_from(strings_view(args@), start as int, strs_view(names@), strs_view(switches@)),
{
    let ghost a = strings_view(args@);
    let ghost nv = strs_view(names@);
    let ghost sv = strs_view(switches@);
    let mut acc: Vec<Option<String>> = Vec::new();
    let total = names.len() + switches.len();
    for k in 0..total
        invariant
            acc@.len() == k,
            forall|j: int| 0 <= j < k ==> acc@[j] is None,
    {
        acc.push(None);
    }
    assert(opt_strings_view(acc@) =~= Seq::new(nv.len() + sv.len(), |k: int| None::<Seq<char>>));
    let n = args.len();
    let mut i = start;
    while i < n
        invariant
            n == args@.len(),
            a == strings_view(args@),
            nv == strs_view(names@),
            sv == strs_view(switches@),
            acc@.len() == nv.len() + sv.len(),
            nv.len() == names@.len(),
            sv.len() == switches@.len(),
            names@.len() + switches@.len() <= usize::MAX,
            scan(a, i as int, nv, sv, opt_strings_view(acc@)) == flags_from(a, start as int, nv, sv),
        decreases n - i,
    {
        let ghost before = opt_strings_view(acc@);
        let k = if i + 1 < n {
            find_name(names, args[i].as_str())
        } else {
            None
        };
        match k {
            Some(k) => {
                acc.set(k, Some(args[i + 1].clone()));
                assert(opt_strings_view(acc@) =~= before.update(k as int, Some(a[i + 1])));
                i = i + 2;
            },
            None => {
                proof {
                    lemma_first_index(nv, a[i as int]);
                }
                match find_name(switches, args[i].as_str()) {
                    Some(s) => {
                        acc.set(names.len() + s, Some(args[i].clone()));
                        assert(opt_strings_view(acc@) =~= before.update(nv.len() + s, Some(a[i as int])));
                    },
                    None => {},
                }
                    i = i + 1;
            },
        }
    }
    proof {
        lemma_scan_len(a, start as int, nv, sv, Seq::new(nv.len() + sv.len(), |k: int| None::<Seq<char>>));
    }
    acc
}

/// The value of the one flag `name` found from position `start` on.
pub open spec fn flag1(args: Seq<Seq<char>>, start: int, name: Seq<char>) -> Option<Seq<char>> {
    flags_from(args, start, seq![name], seq![])[0]
}

/// The value of the one flag `name` found from position `start` on.
pub fn flag1_exec(args: &Vec<String>, start: usize, name: &str) -> (r: Option<String>)
    ensures
        opt_view(r) == flag1(strings_view(args@), start as int, name@),
{
    let names = [name];
    let none: Vec<&str> = Vec::new();
    let f = scan_flags(args, start, &names, none.as_slice());
    assert(strs_view(names@) =~= seq![name@]);
    assert(strs_view(none@) =~= Seq::<Seq<char>>::empty());
    let r = clone_opt_string(&f[0]);
    assert(opt_strings_view(f@)[0] == opt_view(f@[0]));
    r
}

/// The value of flag `k` of a scan.
pub fn flag_at(f: &Vec<Option<String>>, k: usize) -> (r: Option<String>)
    requires
        k < f@.len(),
    ensures
        opt_view(r) == opt_strings_view(f@)[k as int],
{
    clone_opt_string(&f[k])
}

/// Whether any argument is exactly `flag`.
pub open spec fn has_arg(args: Seq<Seq<char>>, flag: Seq<char>) -> bool {
    exists|i: int| 0 <= i < args.len() && #[trigger] args[i] == flag
}

/// Whether any argument is exactly `flag`.
pub fn any_arg(args: &Vec<String>, flag: &str) -> (r: bool)
    ensures
        r == has_arg(strings_view(args@), flag@),
{
    let ghost a = strings_view(args@);
    let n = args.len();
    for i in 0..n
        invariant
            n == args@.len(),
            a == strings_view(args@),
            forall|k: int| 0 <= k < i ==> a[k] != flag@,
    {
        if str_eq(args[i].as_str(), flag) {
            assert(a[i as int] == flag@);
            return true;
        }
    }
    false
}

// ---------------------------------------------------------------------------
// Global flags
// ---------------------------------------------------------------------------

/// What follows `prefix` in `s`, when `s` starts with it.
pub fn strip_prefix_str(s: &str, prefix: &str) -> (r: Option<String>)
    ensures
        starts_with(s@, prefix@) ==> opt_view(r) == Some(s@.skip(prefix@.len() as int)),
        !starts_with(s@, prefix@) ==> r is None,
{
    let c = chars_of(s);
    let p = chars_of(prefix);
    if has_prefix(&c, p.as_slice()) {
        let n = c.len();
        let k = p.len();
        let mut out: Vec<char> = Vec::new();
        let mut i = k;
        while i < n
            invariant
                k <= i <= n,
                n == c@.len(),
                out@ == c@.subrange(k as int, i as int),
            decreases n - i,
        {
            out.push(c[i]);
            assert(c@.subrange(k as int, i + 1) =~= c@.subrange(k as int, i as int).push(c@[i as int]));
            i = i + 1;
        }
        assert(out@ =~= s@.skip(prefix@.len() as int));
        Some(string_of(out.as_slice()))
    } else {
        None
    }
}

/// The profile, the output format and the remaining arguments (the program
/// name first) of a command line.
pub struct GlobalArgs {
    pub profile: Option<String>,
    pub output: String,
    pub command: Vec<String>,
}

/// The model of [`GlobalArgs`].
pub struct GlobalView {
    pub profile: Option<Seq<char>>,
    pub output: Seq<char>,
    pub command: Seq<Seq<char>>,
}

impl View for GlobalArgs {
    type V = GlobalView;

    open spec fn view(&self) -> GlobalView {
        GlobalView { profile: opt_view(self.profile), output: self.output@, command: strings_view(self.command@) }
    }
}

/// Takes the global flags out of the arguments from position `i` on:
/// `-p`/`--profile` (followed by a value, or as `--profile=`/`-p=`) and
/// `-o`/`--output` (likewise); every other argument is kept, in order.
pub open spec fn global_scan(args: Seq<Seq<char>>, i: int, g: GlobalView) -> GlobalView
    decreases args.len() - i,
{
    if i < 0 || i >= args.len() {
        g
    } else {
        let a = args[i];
        if (a == "-p"@ || a == "--profile"@) && i + 1 < args.len() {
            global_scan(args, i + 2, GlobalView { profile: Some(args[i + 1]), ..g })
        } else if starts_with(a, "--profile="@) {
            global_scan(args, i + 1, GlobalView { profile: Some(a.skip("--profile="@.len() as int)), ..g })
        } else if starts_with(a, "-p="@) {
            global_scan(args, i + 1, GlobalView { profile: Some(a.skip("-p="@.len() as int)), ..g })
        } else if (a == "-o"@ || a == "--output"@) && i + 1 < args.len() {
            global_scan(args, i + 2, GlobalView { output: args[i + 1], ..g })
        } else if starts_with(a, "--output="@) {
            global_scan(args, i + 1, GlobalView { output: a.skip("--output="@.len() as int), ..g })
        } else if starts_with(a, "-o="@) {
            global_scan(args, i + 1, GlobalView { output: a.skip("-o="@.len() as int), ..g })
        } else {
            global_scan(args, i + 1, GlobalView { command: g.command.push(a), ..g })
        }
    }
}

/// The global flags of a command line whose first argument is the program name.
pub open spec fn global_spec(args: Seq<Seq<char>>) -> GlobalView {
    global_scan(args, 1, GlobalView { profile: None, output: "text"@, command: seq![args[0]] })
}

/// Separates the global flags from the command (see [`global_scan`]); the
/// output format is `text` unless given.
pub fn split_global_flags(args: &Vec<String>) -> (r: GlobalArgs)
    requires
        args@.len() > 0,
    ensures
        r@ == global_spec(strings_view(args@)),
{
    let ghost a = strings_view(args@);
    let mut g = GlobalArgs { profile: None, output: String::from_str("text"), command: Vec::new() };
    g.command.push(args[0].clone());
    assert(g@.command =~= seq![a[0]]);
    let n = args.len();
    let mut i: usize = 1;
    while i < n
        invariant
            n == args@.len(),
            a == strings_view(args@),
            1 <= i,
            global_scan(a, i as int, g@) == global_spec(a),
        decreases n - i,
    {
        let s = args[i].as_str();
        let ghost before = g@;
        if (str_eq(s, "-p") || str_eq(s, "--profile")) && i + 1 < n {
            g.profile = Some(args[i + 1].clone());
            assert(g@ == GlobalView { profile: Some(a[i + 1]), ..before });
            i = i + 2;
        } else {
            match strip_prefix_str(s, "--profile=") {
                Some(v) => {
                    g.profile = Some(v);
                    assert(g@ == GlobalView { profile: Some(a[i as int].skip("--profile="@.len() as int)), ..before });
                    i = i + 1;
                },
                None => match strip_prefix_str(s, "-p=") {
                    Some(v) => {
                        g.profile = Some(v);
                        assert(g@ == GlobalView { profile: Some(a[i as int].skip("-p="@.len() as int)), ..before });
                        i = i + 1;
                    },
                    None => {
                        if (str_eq(s, "-o") || str_eq(s, "--output")) && i + 1 < n {
                            g.output = args[i + 1].clone();
                            assert(g@ == GlobalView { output: a[i + 1], ..before });
                            i = i + 2;
                        } else {
                            match strip_prefix_str(s, "--output=") {
                                Some(v) => {
                                    g.output = v;
                                    assert(g@ == GlobalView { output: a[i as int].skip("--output="@.len() as int), ..before });
                                },
                                None => match strip_prefix_str(s, "-o=") {
                                    Some(v) => {
                                        g.output = v;
                                        assert(g@ == GlobalView { output: a[i as int].skip("-o="@.len() as int), ..before });
                                    },
                                    None => {
                                        g.command.push(args[i].clone());
                                        assert(g@.command =~= before.command.push(a[i as int]));
                                    },
                                },
                            }
                            i = i + 1;
                        }
                    },
                },
            }
        }
    }
    g
}


// ---------------------------------------------------------------------------
// Laws of the global flags
// ---------------------------------------------------------------------------

/// What the global flags give from position `i` on depends only on the
/// arguments from there on.
proof fn lemma_scan_suffix(a: Seq<Seq<char>>, i: int, b: Seq<Seq<char>>, j: int, g: GlobalView)
    requires
        0 <= i <= a.len(),
        0 <= j <= b.len(),
        a.skip(i) == b.skip(j),
    ensures
        global_scan(a, i, g) == global_scan(b, j, g),
    decreases a.len() - i,
{
    if i < a.len() {
        let sa = a.skip(i);
        let sb = b.skip(j);
        assert(sa.len() == a.len() - i);
        assert(sb.len() == b.len() - j);
        assert(sa.len() == sb.len());
        assert(a[i] == sa[0]);
        assert(b[j] == sb[0]);
        assert(a[i] == b[j]);
        assert(a.skip(i + 1) =~= a.skip(i).drop_first());
        assert(b.skip(j + 1) =~= b.skip(j).drop_first());
        let g1 = GlobalView { profile: Some(a[i + 1]), ..g };
        let g2 = GlobalView { output: a[i + 1], ..g };
        let g3 = GlobalView { command: g.command.push(a[i]), ..g };
        let g4 = GlobalView { profile: Some(a[i].skip("--profile="@.len() as int)), ..g };
        let g5 = GlobalView { profile: Some(a[i].skip("-p="@.len() as int)), ..g };
        let g6 = GlobalView { output: a[i].skip("--output="@.len() as int), ..g };
        let g7 = GlobalView { output: a[i].skip("-o="@.len() as int), ..g };
        lemma_scan_suffix(a, i + 1, b, j + 1, g3);
        lemma_scan_suffix(a, i + 1, b, j + 1, g4);
        lemma_scan_suffix(a, i + 1, b, j + 1, g5);
        lemma_scan_suffix(a, i + 1, b, j + 1, g6);
        lemma_scan_suffix(a, i + 1, b, j + 1, g7);
        if i + 1 < a.len() {
            assert(a[i + 1] == sa[1]);
            assert(b[j + 1] == sb[1]);
            assert(a.skip(i + 2) =~= a.skip(i).skip(2));
            assert(b.skip(j + 2) =~= b.skip(j).skip(2));
            lemma_scan_suffix(a, i + 2, b, j + 2, g1);
            lemma_scan_suffix(a, i + 2, b, j + 2, g2);
        }
    } else {
        assert(b.skip(j).len() == 0);
    }
}

/// The profile that the scan starts with survives only where no profile flag
/// follows: otherwise the last one given wins.
proof fn lemma_scan_profile(args: Seq<Seq<char>>, i: int, g: GlobalView, p: Option<Seq<char>>)
    ensures
        ({
            let r = global_scan(args, i, GlobalView { profile: None, ..g });
            global_scan(args, i, GlobalView { profile: p, ..g })
                == GlobalView { profile: if r.profile is Some { r.profile } else { p }, ..r }
        }),
    decreases args.len() - i,
{
    let r = global_scan(args, i, GlobalView { profile: None, ..g });
    if 0 <= i < args.len() {
        let x = args[i];
        if (x == "-p"@ || x == "--profile"@) && i + 1 < args.len() {
            lemma_scan_profile(args, i + 2, g, Some(args[i + 1]));
        } else if starts_with(x, "--profile="@) {
            lemma_scan_profile(args, i + 1, g, Some(x.skip("--profile="@.len() as int)));
        } else if starts_with(x, "-p="@) {
            lemma_scan_profile(args, i + 1, g, Some(x.skip("-p="@.len() as int)));
        } else if (x == "-o"@ || x == "--output"@) && i + 1 < args.len() {
            lemma_scan_profile(args, i + 2, GlobalView { output: args[i + 1], ..g }, p);
        } else if starts_with(x, "--output="@) {
            lemma_scan_profile(args, i + 1, GlobalView { output: x.skip("--output="@.len() as int), ..g }, p);
        } else if starts_with(x, "-o="@) {
            lemma_scan_profile(args, i + 1, GlobalView { output: x.skip("-o="@.len() as int), ..g }, p);
        } else {
            lemma_scan_profile(args, i + 1, GlobalView { command: g.command.push(x), ..g }, p);
        }
    }
}

/// At any position, `-p v` and `--profile v` mean the same: either sets the
/// profile to `v`, takes both words out of the command, and the scan goes on
/// after the value.
pub proof fn law_profile_spellings(args: Seq<Seq<char>>, i: int, g: GlobalView)
    requires
        0 <= i,
        i + 1 < args.len(),
    ensures
        global_scan(args.update(i, "--profile"@), i, g) == global_scan(args.update(i, "-p"@), i, g),
        global_scan(args.update(i, "--profile"@), i, g)
            == global_scan(args, i + 2, GlobalView { profile: Some(args[i + 1]), ..g }),
{
    let g1 = GlobalView { profile: Some(args[i + 1]), ..g };
    let l = args.update(i, "--profile"@);
    let s = args.update(i, "-p"@);
    assert(l[i + 1] == args[i + 1]);
    assert(s[i + 1] == args[i + 1]);
    assert(l.skip(i + 2) =~= args.skip(i + 2));
    assert(s.skip(i + 2) =~= args.skip(i + 2));
    lemma_scan_suffix(l, i + 2, args, i + 2, g1);
    lemma_scan_suffix(s, i + 2, args, i + 2, g1);
}

/// At any position, `-o v` and `--output v` mean the same: either sets the
/// output format to `v`, takes both words out of the command, and the scan
/// goes on after the value.
pub proof fn law_output_spellings(args: Seq<Seq<char>>, i: int, g: GlobalView)
    requires
        0 <= i,
        i + 1 < args.len(),
    ensures
        global_scan(args.update(i, "--output"@), i, g) == global_scan(args.update(i, "-o"@), i, g),
        global_scan(args.update(i, "--output"@), i, g)
            == global_scan(args, i + 2, GlobalView { output: args[i + 1], ..g }),
{
    reveal_strlit("--output");
    reveal_strlit("-o");
    reveal_strlit("-p");
    reveal_strlit("--profile");
    reveal_strlit("--profile=");
    reveal_strlit("-p=");
    let g1 = GlobalView { output: args[i + 1], ..g };
    let l = args.update(i, "--output"@);
    let s = args.update(i, "-o"@);
    assert(l[i] == "--output"@);
    assert(s[i] == "-o"@);
    assert("--output"@.len() == 8 && "-o"@.len() == 2 && "-p"@.len() == 2 && "--profile"@.len() == 9);
    assert("--profile="@.len() == 10 && "-p="@.len() == 3);
    assert("--output"@ != "-p"@ && "--output"@ != "--profile"@);
    assert("-o"@ != "--profile"@);
    assert("-o"@ != "-p"@) by {
        assert("-o"@[1] != "-p"@[1]);
    }
    assert(!starts_with("--output"@, "-p="@)) by {
        assert("--output"@.take(3)[1] != "-p="@[1]);
    }
    assert(l[i + 1] == args[i + 1]);
    assert(s[i + 1] == args[i + 1]);
    assert(l.skip(i + 2) =~= args.skip(i + 2));
    assert(s.skip(i + 2) =~= args.skip(i + 2));
    lemma_scan_suffix(l, i + 2, args, i + 2, g1);
    lemma_scan_suffix(s, i + 2, args, i + 2, g1);
}

/// A command line that begins `prog --profile v` (or `prog -p v`) reads as
/// `prog` followed by the rest, with `v` as the profile unless the rest names
/// another one; the two words never reach the command.
pub proof fn law_profile_flag(prog: Seq<char>, v: Seq<char>, rest: Seq<Seq<char>>)
    ensures
        global_spec(seq![prog, "--profile"@, v] + rest) == global_spec(seq![prog, "-p"@, v] + rest),
        ({
            let r = global_spec(seq![prog] + rest);
            global_spec(seq![prog, "--profile"@, v] + rest)
                == GlobalView { profile: if r.profile is Some { r.profile } else { Some(v) }, ..r }
        }),
{
    let a = seq![prog, "--profile"@, v] + rest;
    let b = seq![prog, "-p"@, v] + rest;
    let c = seq![prog] + rest;
    let g0 = GlobalView { profile: None, output: "text"@, command: seq![prog] };
    let g1 = GlobalView { profile: Some(v), ..g0 };
    assert(a[0] == prog && b[0] == prog && c[0] == prog);
    assert(a.update(1, "--profile"@) =~= a);
    assert(b =~= a.update(1, "-p"@));
    law_profile_spellings(a, 1, g0);
    assert(a[2] == v);
    assert(a.skip(3) =~= c.skip(1));
    lemma_scan_suffix(a, 3, c, 1, g1);
    lemma_scan_profile(c, 1, g0, Some(v));
    assert(GlobalView { profile: None, ..g0 } == g0);
}

/// A command line that begins `prog --output v` (or `prog -o v`) reads as
/// `prog` followed by the rest with `v` as the output format to start from;
/// the two words never reach the command.
pub proof fn law_output_flag(prog: Seq<char>, v: Seq<char>, rest: Seq<Seq<char>>)
    ensures
        global_spec(seq![prog, "--output"@, v] + rest) == global_spec(seq![prog, "-o"@, v] + rest),
        global_spec(seq![prog, "--output"@, v] + rest)
            == global_scan(seq![prog] + rest, 1, GlobalView { profile: None, output: v, command: seq![prog] }),
{
    let a = seq![prog, "--output"@, v] + rest;
    let b = seq![prog, "-o"@, v] + rest;
    let c = seq![prog] + rest;
    let g0 = GlobalView { profile: None, output: "text"@, command: seq![prog] };
    let g1 = GlobalView { output: v, ..g0 };
    assert(a[0] == prog && b[0] == prog && c[0] == prog);
    assert(a.update(1, "--output"@) =~= a);
    assert(b =~= a.update(1, "-o"@));
    law_output_spellings(a, 1, g0);
    assert(a[2] == v);
    assert(a.skip(3) =~= c.skip(1));
    lemma_scan_suffix(a, 3, c, 1, g1);
}

} // verus!
