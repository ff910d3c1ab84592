//! TOON (Token-Oriented Object Notation): a compact, indentation-based text
//! form of JSON values, with tabular arrays of uniform objects and explicit
//! array lengths.

use vstd::prelude::*;

use crate::order::{lex_le, str_lex_le, strings_view};
use crate::text::{ascii_upper, is_ascii_alnum, is_ascii_alpha, decimal, all_digits, chars_of, digit_of, digit_value, is_whitespace, push_char, unicode_whitespace};

verus! {

// ---------------------------------------------------------------------------
// Characters and words
// ---------------------------------------------------------------------------

/// The ASCII uppercase form of a lowercase ASCII letter (other characters unchanged).
fn ascii_upper_exec(c: char) -> (u: char)
    ensures
        u == ascii_upper(c),
{
    match c {
        'a' => 'A',
        'b' => 'B',
        'c' => 'C',
        'd' => 'D',
        'e' => 'E',
        'f' => 'F',
        'g' => 'G',
        'h' => 'H',
        'i' => 'I',
        'j' => 'J',
        'k' => 'K',
        'l' => 'L',
        'm' => 'M',
        'n' => 'N',
        'o' => 'O',
        'p' => 'P',
        'q' => 'Q',
        'r' => 'R',
        's' => 'S',
        't' => 'T',
        'u' => 'U',
        'v' => 'V',
        'w' => 'W',
        'x' => 'X',
        'y' => 'Y',
        'z' => 'Z',
        _ => c,
    }
}

/// `c` is `lower` or its ASCII uppercase form.
pub open spec fn ci_char(c: char, lower: char) -> bool {
    c == lower || c == ascii_upper(lower)
}

/// `s` spells the word `w`, ignoring ASCII case.
pub open spec fn ci_word(s: Seq<char>, w: Seq<char>) -> bool {
    s.len() == w.len() && forall|i: int| 0 <= i < s.len() ==> ci_char(#[trigger] s[i], w[i])
}

/// Whether `s` spells `w`, ignoring ASCII case.
fn ci_word_exec(s: &[char], w: &str) -> (r: bool)
    ensures
        r == ci_word(s@, w@),
{
    let wv = chars_of(w);
    if s.len() != wv.len() {
        return false;
    }
    let n = s.len();
    for i in 0..n
        invariant
            n == s@.len(),
            n == wv@.len(),
            wv@ == w@,
            forall|j: int| 0 <= j < i ==> ci_char(s@[j], w@[j]),
    {
        let c = s[i];
        let l = wv[i];
        if !(c == l || c == ascii_upper_exec(l)) {
            return false;
        }
    }
    true
}

// ---------------------------------------------------------------------------
// What `str::parse::<f64>` accepts
// ---------------------------------------------------------------------------

/// An ASCII `e` or `E`.
pub open spec fn is_e(c: char) -> bool {
    c == 'e' || c == 'E'
}

/// Position of the first `e`/`E` in `s`, or its length.
pub open spec fn find_e(s: Seq<char>) -> nat
    decreases s.len(),
{
    if s.len() == 0 {
        0
    } else if is_e(s[0]) {
        0
    } else {
        1 + find_e(s.drop_first())
    }
}

/// Position of the first `.` in `s`, or its length.
pub open spec fn find_dot(s: Seq<char>) -> nat
    decreases s.len(),
{
    if s.len() == 0 {
        0
    } else if s[0] == '.' {
        0
    } else {
        1 + find_dot(s.drop_first())
    }
}

/// `Digit+ | Digit+ '.' Digit* | Digit* '.' Digit+`.
pub open spec fn mantissa_ok(m: Seq<char>) -> bool {
    let d = find_dot(m) as int;
    if d >= m.len() {
        m.len() > 0 && all_digits(m)
    } else {
        all_digits(m.subrange(0, d)) && all_digits(m.subrange(d + 1, m.len() as int)) && (d > 0 || d + 1
            < m.len())
    }
}

/// `'e' Sign? Digit+`, ignoring case.
pub open spec fn exponent_ok(e: Seq<char>) -> bool {
    e.len() >= 2 && is_e(e[0]) && {
        let r = e.subrange(1, e.len() as int);
        if r[0] == '+' || r[0] == '-' {
            r.len() >= 2 && all_digits(r.subrange(1, r.len() as int))
        } else {
            all_digits(r)
        }
    }
}

/// `Number ::= (Digit+ | Digit+ '.' Digit* | Digit* '.' Digit+) Exp?`.
pub open spec fn number_ok(t: Seq<char>) -> bool {
    let p = find_e(t) as int;
    mantissa_ok(t.subrange(0, if p <= t.len() { p } else { t.len() as int })) && (p >= t.len()
        || exponent_ok(t.subrange(p, t.len() as int)))
}

/// `'inf' | 'infinity' | 'nan' | Number`, ignoring case.
pub open spec fn float_body(t: Seq<char>) -> bool {
    ci_word(t, "inf"@) || ci_word(t, "infinity"@) || ci_word(t, "nan"@) || number_ok(t)
}

/// Whether `str::parse::<f64>` accepts `s`: its documented grammar
/// `Sign? ('inf' | 'infinity' | 'nan' | Number)`, case-insensitive, with no
/// surrounding whitespace.
pub open spec fn parses_as_float(s: Seq<char>) -> bool {
    float_body(s) || (s.len() > 0 && (s[0] == '+' || s[0] == '-') && float_body(s.drop_first()))
}

/// Position of the first character of `s` from `from` on that `is_e` (or, when
/// `dot`, that is `.`), or the length.
fn find_from(s: &[char], from: usize, dot: bool) -> (r: usize)
    requires
        from <= s@.len(),
    ensures
        r as nat == from + if dot { find_dot(s@.subrange(from as int, s@.len() as int)) } else { find_e(
            s@.subrange(from as int, s@.len() as int),
        ) },
        r <= s@.len(),
    decreases s@.len() - from,
{
    if from == s.len() {
        return from;
    }
    let c = s[from];
    let hit = if dot { c == '.' } else { c == 'e' || c == 'E' };
    let ghost t = s@.subrange(from as int, s@.len() as int);
    assert(t.drop_first() =~= s@.subrange(from + 1, s@.len() as int));
    if hit {
        from
    } else {
        find_from(s, from + 1, dot)
    }
}

/// Whether `s[from..to]` holds only ASCII digits.
fn digits_between(s: &[char], from: usize, to: usize) -> (r: bool)
    requires
        from <= to <= s@.len(),
    ensures
        r == all_digits(s@.subrange(from as int, to as int)),
{
    let ghost t = s@.subrange(from as int, to as int);
    let mut i = from;
    while i < to
        invariant
            from <= i <= to <= s@.len(),
            t == s@.subrange(from as int, to as int),
            forall|j: int| from <= j < i ==> (#[trigger] digit_value(s@[j])) is Some,
        decreases to - i,
    {
        if digit_of(s[i]).is_none() {
            assert(digit_value(t[i - from]) is None);
            return false;
        }
        i = i + 1;
    }
    assert forall|j: int| 0 <= j < t.len() implies (#[trigger] digit_value(t[j])) is Some by {
        assert(t[j] == s@[from + j]);
    }
    true
}

/// `float_body` of `s[from..]`.
fn float_body_from(s: &[char], from: usize) -> (r: bool)
    requires
        from <= s@.len(),
    ensures
        r == float_body(s@.subrange(from as int, s@.len() as int)),
{
    let n = s.len();
    let ghost t = s@.subrange(from as int, n as int);
    let tv = slice_from(s, from);
    assert(tv@ == t);
    proof {
        reveal_strlit("inf");
        reveal_strlit("infinity");
        reveal_strlit("nan");
    }
    if ci_word_exec(tv.as_slice(), "inf") || ci_word_exec(tv.as_slice(), "infinity") || ci_word_exec(
        tv.as_slice(),
        "nan",
    ) {
        return true;
    }
    let p = find_from(s, from, false);
    let d = find_from(s, from, true);
    assert(p as int - from == find_e(t) as int);
    proof {
        lemma_find_e_hit(t);
    }
    let d2 = if d < p { d } else { p };
    let ghost m = t.subrange(0, p - from);
    proof {
        lemma_find_dot_prefix(t, (p - from) as int);
    }
    let mant = if d2 >= p {
        p > from && digits_between(s, from, p)
    } else {
        digits_between(s, from, d2) && digits_between(s, d2 + 1, p) && (d2 > from || d2 + 1 < p)
    };
    assert(m =~= s@.subrange(from as int, p as int));
    assert(mant == mantissa_ok(m)) by {
        if d2 < p {
            assert(m.subrange(0, d2 - from) =~= s@.subrange(from as int, d2 as int));
            assert(m.subrange(d2 - from + 1, m.len() as int) =~= s@.subrange(d2 + 1, p as int));
        }
    }
    if !mant {
        return false;
    }
    if p == n {
        return true;
    }
    // exponent: s[p..n]
    let ghost e = t.subrange(p - from, t.len() as int);
    assert(e =~= s@.subrange(p as int, n as int));
    if n - p < 2 {
        return false;
    }
    let r0 = s[p + 1];
    let ok = if r0 == '+' || r0 == '-' {
        n - p >= 3 && digits_between(s, p + 2, n)
    } else {
        digits_between(s, p + 1, n)
    };
    assert(ok == exponent_ok(e)) by {
        let r = e.subrange(1, e.len() as int);
        assert(r =~= s@.subrange(p + 1, n as int));
        assert(r.subrange(1, r.len() as int) =~= s@.subrange(p + 2, n as int));
    }
    ok
}

/// `find_e` stops at an `e`/`E`, or at the end.
proof fn lemma_find_e_hit(t: Seq<char>)
    ensures
        find_e(t) <= t.len(),
        find_e(t) < t.len() ==> is_e(t[find_e(t) as int]),
    decreases t.len(),
{
    if t.len() > 0 && !is_e(t[0]) {
        lemma_find_e_hit(t.drop_first());
    }
}

/// `find_dot` of a prefix agrees with `find_dot` of the whole, capped at the prefix.
proof fn lemma_find_dot_prefix(t: Seq<char>, p: int)
    requires
        0 <= p <= t.len(),
    ensures
        find_dot(t.subrange(0, p)) == if find_dot(t) < p { find_dot(t) } else { p as nat },
    decreases p,
{
    if p > 0 {
        let tp = t.subrange(0, p);
        if t[0] == '.' {
            assert(tp[0] == '.');
        } else {
            assert(tp.drop_first() =~= t.drop_first().subrange(0, p - 1));
            lemma_find_dot_prefix(t.drop_first(), p - 1);
        }
    } else {
        assert(t.subrange(0, 0).len() == 0);
    }
}

/// The characters of `s` from `from` on.
fn slice_from(s: &[char], from: usize) -> (r: Vec<char>)
    requires
        from <= s@.len(),
    ensures
        r@ == s@.subrange(from as int, s@.len() as int),
{
    let mut r: Vec<char> = Vec::new();
    let n = s.len();
    for i in from..n
        invariant
            n == s@.len(),
            r@ == s@.subrange(from as int, i as int),
    {
        r.push(s[i]);
        assert(r@ =~= s@.subrange(from as int, i + 1));
    }
    r
}

/// Whether `str::parse::<f64>` would accept `s`.
pub fn parses_as_float_exec(s: &[char]) -> (r: bool)
    ensures
        r == parses_as_float(s@),
{
    if float_body_from(s, 0) {
        assert(s@.subrange(0, s@.len() as int) =~= s@);
        return true;
    }
    assert(s@.subrange(0, s@.len() as int) =~= s@);
    if s.len() > 0 && (s[0] == '+' || s[0] == '-') {
        assert(s@.subrange(1, s@.len() as int) =~= s@.drop_first());
        float_body_from(s, 1)
    } else {
        false
    }
}

// ---------------------------------------------------------------------------
// Quoting, keys, indentation, trimming
// ---------------------------------------------------------------------------

/// The escaped form of one character inside a quoted string.
pub open spec fn escape_char(c: char) -> Seq<char> {
    if c == '\\' {
        seq!['\\', '\\']
    } else if c == '"' {
        seq!['\\', '"']
    } else if c == '\n' {
        seq!['\\', 'n']
    } else if c == '\r' {
        seq!['\\', 'r']
    } else if c == '\t' {
        seq!['\\', 't']
    } else {
        seq![c]
    }
}

/// The escaped form of a string's characters.
pub open spec fn escaped(s: Seq<char>) -> Seq<char>
    decreases s.len(),
{
    if s.len() == 0 {
        Seq::empty()
    } else {
        escaped(s.drop_last()) + escape_char(s.last())
    }
}

/// `s` in double quotes, with `\`, `"`, newline, carriage return and tab escaped.
pub open spec fn quoted(s: Seq<char>) -> Seq<char> {
    seq!['"'] + escaped(s) + seq!['"']
}

/// Quote and escape a string.
pub fn quote_string(s: &str) -> (r: String)
    ensures
        r@ == quoted(s@),
{
    let cs = chars_of(s);
    let mut r = String::new();
    push_char(&mut r, '"');
    let n = cs.len();
    for i in 0..n
        invariant
            n == cs@.len(),
            cs@ == s@,
            r@ == seq!['"'] + escaped(s@.take(i as int)),
    {
        let c = cs[i];
        if c == '\\' {
            push_char(&mut r, '\\');
            push_char(&mut r, '\\');
        } else if c == '"' {
            push_char(&mut r, '\\');
            push_char(&mut r, '"');
        } else if c == '\n' {
            push_char(&mut r, '\\');
            push_char(&mut r, 'n');
        } else if c == '\r' {
            push_char(&mut r, '\\');
            push_char(&mut r, 'r');
        } else if c == '\t' {
            push_char(&mut r, '\\');
            push_char(&mut r, 't');
        } else {
            push_char(&mut r, c);
        }
        assert(s@.take(i + 1).drop_last() =~= s@.take(i as int));
        assert(r@ =~= seq!['"'] + escaped(s@.take(i + 1)));
    }
    push_char(&mut r, '"');
    assert(s@.take(n as int) =~= s@);
    r
}

/// A key matching `[A-Za-z_][A-Za-z0-9_.]*`, which needs no quotes.
pub open spec fn simple_key(s: Seq<char>) -> bool {
    s.len() > 0 && (is_ascii_alpha(s[0]) || s[0] == '_') && forall|i: int|
        1 <= i < s.len() ==> is_ascii_alnum(#[trigger] s[i]) || s[i] == '_' || s[i] == '.'
}

/// Check if a key can be unquoted.
pub fn is_simple_key(s: &str) -> (r: bool)
    ensures
        r == simple_key(s@),
{
    let cs = chars_of(s);
    if cs.len() == 0 {
        return false;
    }
    let first = cs[0];
    let first_ok = ('a' <= first && first <= 'z') || ('A' <= first && first <= 'Z') || first == '_';
    if !first_ok {
        return false;
    }
    let n = cs.len();
    for i in 1..n
        invariant
            n == cs@.len(),
            cs@ == s@,
            forall|j: int| 1 <= j < i ==> is_ascii_alnum(#[trigger] s@[j]) || s@[j] == '_' || s@[j] == '.',
    {
        let c = cs[i];
        let ok = ('a' <= c && c <= 'z') || ('A' <= c && c <= 'Z') || ('0' <= c && c <= '9') || c == '_'
            || c == '.';
        if !ok {
            return false;
        }
    }
    true
}

/// A key as written: bare when simple, else quoted.
pub open spec fn escaped_key(k: Seq<char>) -> Seq<char> {
    if simple_key(k) {
        k
    } else {
        quoted(k)
    }
}

/// Escape a key if necessary.
pub fn escape_key(key: &str) -> (r: String)
    ensures
        r@ == escaped_key(key@),
{
    if is_simple_key(key) {
        key.to_owned()
    } else {
        quote_string(key)
    }
}

/// A string value as written: quoted when empty, when it reads as `null`,
/// `true`, `false` or a number, or when it holds a delimiter or a character
/// that needs escaping; bare otherwise.
pub open spec fn string_value(s: Seq<char>) -> Seq<char> {
    if s.len() == 0 || s == "null"@ || s == "true"@ || s == "false"@ || parses_as_float(s) {
        quoted(s)
    } else if s.contains(',') || s.contains('"') || s.contains('\n') || s.contains('\r') || s.contains('\t')
        || s.contains('\\') {
        quoted(s)
    } else {
        s
    }
}

/// Whether `c` occurs in `v`.
fn has_char(v: &[char], c: char) -> (r: bool)
    ensures
        r == v@.contains(c),
{
    let n = v.len();
    for i in 0..n
        invariant
            n == v@.len(),
            forall|j: int| 0 <= j < i ==> v@[j] != c,
    {
        if v[i] == c {
            assert(v@[i as int] == c);
            return true;
        }
    }
    false
}

/// Quote a string if it contains special characters or looks like a primitive.
pub fn quote_if_needed(s: &str) -> (r: String)
    ensures
        r@ == string_value(s@),
{
    let cs = chars_of(s);
    if cs.len() == 0 || crate::text::str_eq(s, "null") || crate::text::str_eq(s, "true") || crate::text::str_eq(
        s,
        "false",
    ) || parses_as_float_exec(cs.as_slice()) {
        return quote_string(s);
    }
    if has_char(cs.as_slice(), ',') || has_char(cs.as_slice(), '"') || has_char(cs.as_slice(), '\n')
        || has_char(cs.as_slice(), '\r') || has_char(cs.as_slice(), '\t') || has_char(cs.as_slice(), '\\') {
        return quote_string(s);
    }
    s.to_owned()
}

/// Two spaces per level.
pub open spec fn indent(depth: nat) -> Seq<char>
    decreases depth,
{
    if depth == 0 {
        Seq::empty()
    } else {
        indent((depth - 1) as nat) + seq![' ', ' ']
    }
}

/// Two spaces per level.
pub fn indent_exec(depth: usize) -> (r: String)
    ensures
        r@ == indent(depth as nat),
{
    let mut r = String::new();
    for i in 0..depth
        invariant
            r@ == indent(i as nat),
    {
        push_char(&mut r, ' ');
        push_char(&mut r, ' ');
        assert(r@ =~= indent((i + 1) as nat));
    }
    r
}

/// `s` without trailing whitespace.
pub open spec fn trimmed_end(s: Seq<char>) -> Seq<char>
    decreases s.len(),
{
    if s.len() > 0 && unicode_whitespace(s.last()) {
        trimmed_end(s.drop_last())
    } else {
        s
    }
}

/// `s` without leading whitespace.
pub open spec fn trimmed_start(s: Seq<char>) -> Seq<char>
    decreases s.len(),
{
    if s.len() > 0 && unicode_whitespace(s[0]) {
        trimmed_start(s.drop_first())
    } else {
        s
    }
}

/// `trimmed_end` is the prefix up to the last non-whitespace character.
proof fn lemma_trimmed_end(s: Seq<char>, k: int)
    requires
        0 <= k <= s.len(),
        forall|j: int| k <= j < s.len() ==> unicode_whitespace(#[trigger] s[j]),
    ensures
        trimmed_end(s) == trimmed_end(s.subrange(0, k)),
    decreases s.len() - k,
{
    if k < s.len() {
        assert(s.drop_last() =~= s.subrange(0, s.len() - 1));
        assert(s.subrange(0, s.len() - 1).subrange(0, k) =~= s.subrange(0, k));
        lemma_trimmed_end(s.drop_last(), k);
    } else {
        assert(s.subrange(0, k) =~= s);
    }
}

/// `trimmed_start` is the suffix from the first non-whitespace character.
proof fn lemma_trimmed_start(s: Seq<char>, k: int)
    requires
        0 <= k <= s.len(),
        forall|j: int| 0 <= j < k ==> unicode_whitespace(#[trigger] s[j]),
    ensures
        trimmed_start(s) == trimmed_start(s.subrange(k, s.len() as int)),
    decreases k,
{
    if k > 0 {
        assert(s.drop_first().subrange(k - 1, s.len() - 1) =~= s.subrange(k, s.len() as int));
        lemma_trimmed_start(s.drop_first(), k - 1);
    } else {
        assert(s.subrange(0, s.len() as int) =~= s);
    }
}

/// `s.trim_end()`.
pub fn trim_end(s: &str) -> (r: String)
    ensures
        r@ == trimmed_end(s@),
{
    let cs = chars_of(s);
    let mut k = cs.len();
    while k > 0 && is_whitespace(cs[k - 1])
        invariant
            k <= cs@.len(),
            cs@ == s@,
            forall|j: int| k <= j < s@.len() ==> unicode_whitespace(#[trigger] s@[j]),
        decreases k,
    {
        k = k - 1;
    }
    proof {
        lemma_trimmed_end(s@, k as int);
        let p = s@.subrange(0, k as int);
        if k > 0 {
            assert(p.last() == s@[k - 1]);
        }
    }
    let mut r = String::new();
    for i in 0..k
        invariant
            k <= cs@.len(),
            cs@ == s@,
            r@ == s@.subrange(0, i as int),
    {
        push_char(&mut r, cs[i]);
        assert(r@ =~= s@.subrange(0, i + 1));
    }
    r
}

/// `s.trim_start()`.
pub fn trim_start(s: &str) -> (r: String)
    ensures
        r@ == trimmed_start(s@),
{
    let cs = chars_of(s);
    let n = cs.len();
    let mut k: usize = 0;
    while k < n && is_whitespace(cs[k])
        invariant
            k <= n,
            n == cs@.len(),
            cs@ == s@,
            forall|j: int| 0 <= j < k ==> unicode_whitespace(#[trigger] s@[j]),
        decreases n - k,
    {
        k = k + 1;
    }
    proof {
        lemma_trimmed_start(s@, k as int);
        let p = s@.subrange(k as int, n as int);
        if k < n {
            assert(p[0] == s@[k as int]);
        }
    }
    let mut r = String::new();
    for i in k..n
        invariant
            n == cs@.len(),
            cs@ == s@,
            r@ == s@.subrange(k as int, i as int),
    {
        push_char(&mut r, cs[i]);
        assert(r@ =~= s@.subrange(k as int, i + 1));
    }
    r
}

/// The parts separated by `sep`.
pub open spec fn joined(parts: Seq<Seq<char>>, sep: Seq<char>) -> Seq<char>
    decreases parts.len(),
{
    if parts.len() == 0 {
        Seq::empty()
    } else if parts.len() == 1 {
        parts[0]
    } else {
        joined(parts.drop_last(), sep) + sep + parts.last()
    }
}

// ---------------------------------------------------------------------------
// JSON values
// ---------------------------------------------------------------------------

/// A JSON value. Numbers are held as their JSON text; object members keep
/// their order.
pub enum JsonValue {
    Null,
    Bool(bool),
    Number(String),
    String(String),
    Array(Vec<JsonValue>),
    Object(Vec<(String, JsonValue)>),
}

/// Null, a boolean, a number or a string.
pub open spec fn is_primitive(v: JsonValue) -> bool {
    !(v is Array) && !(v is Object)
}

/// Every item is a primitive.
pub open spec fn all_primitives(s: Seq<JsonValue>) -> bool {
    forall|i: int| 0 <= i < s.len() ==> is_primitive(#[trigger] s[i])
}

/// Every item is an object.
pub open spec fn all_objects(s: Seq<JsonValue>) -> bool {
    forall|i: int| 0 <= i < s.len() ==> (#[trigger] s[i]) is Object
}

/// The keys of an object's members, in order.
pub open spec fn key_seq(o: Seq<(String, JsonValue)>) -> Seq<Seq<char>> {
    o.map_values(|p: (String, JsonValue)| p.0@)
}

/// How many leading elements of `s` are at most `k`.
pub open spec fn le_prefix_len(s: Seq<Seq<char>>, k: Seq<char>) -> nat
    decreases s.len(),
{
    if s.len() == 0 {
        0
    } else if lex_le(s[0], k) {
        1 + le_prefix_len(s.drop_first(), k)
    } else {
        0
    }
}

/// `ks` sorted, by inserting each key after the leading keys at most it.
pub open spec fn sort_keys(ks: Seq<Seq<char>>) -> Seq<Seq<char>>
    decreases ks.len(),
{
    if ks.len() == 0 {
        Seq::empty()
    } else {
        let s = sort_keys(ks.drop_last());
        s.insert(le_prefix_len(s, ks.last()) as int, ks.last())
    }
}

/// An object's keys, sorted.
pub open spec fn sorted_keys(o: Seq<(String, JsonValue)>) -> Seq<Seq<char>> {
    sort_keys(key_seq(o))
}

/// Position of the first member with key `k`, or the number of members.
pub open spec fn key_position(o: Seq<(String, JsonValue)>, k: Seq<char>) -> nat
    decreases o.len(),
{
    if o.len() == 0 {
        0
    } else if o[0].0@ == k {
        0
    } else {
        1 + key_position(o.drop_first(), k)
    }
}

/// Every item is an object whose sorted keys are `fk`.
pub open spec fn uniform(s: Seq<JsonValue>, fk: Seq<Seq<char>>) -> bool {
    forall|i: int| 0 <= i < s.len() ==> match #[trigger] s[i] {
        JsonValue::Object(o) => sorted_keys(o@) == fk,
        _ => false,
    }
}

/// The sorted keys of the first item, when it is an object.
pub open spec fn first_keys(s: Seq<JsonValue>) -> Seq<Seq<char>> {
    match s[0] {
        JsonValue::Object(o) => sorted_keys(o@),
        _ => Seq::empty(),
    }
}

/// Nesting depth of a value.
pub open spec fn json_height(v: JsonValue) -> nat
    decreases v, 0nat,
{
    match v {
        JsonValue::Array(a) => 1 + max_height(a@, a@.len()),
        JsonValue::Object(o) => 1 + max_entry_height(o@, o@.len()),
        _ => 0,
    }
}

/// Largest height among the first `n` items.
pub open spec fn max_height(s: Seq<JsonValue>, n: nat) -> nat
    decreases s, n,
{
    if n == 0 || n > s.len() {
        0
    } else {
        let a = max_height(s, (n - 1) as nat);
        let b = json_height(s[n - 1]);
        if a >= b { a } else { b }
    }
}

/// Largest height among the values of the first `n` members.
pub open spec fn max_entry_height(o: Seq<(String, JsonValue)>, n: nat) -> nat
    decreases o, n,
{
    if n == 0 || n > o.len() {
        0
    } else {
        let a = max_entry_height(o, (n - 1) as nat);
        let b = json_height(o[n - 1].1);
        if a >= b { a } else { b }
    }
}

// ---------------------------------------------------------------------------
// The TOON text of a value
// ---------------------------------------------------------------------------

/// The TOON text of a value at nesting `depth`; `in_array` tells whether it
/// stands as an item of an array.
pub open spec fn toon(v: JsonValue, depth: nat, in_array: bool) -> Seq<char>
    decreases v, 0nat,
{
    match v {
        JsonValue::Null => "null"@,
        JsonValue::Bool(b) => if b { "true"@ } else { "false"@ },
        JsonValue::Number(n) => n@,
        JsonValue::String(s) => string_value(s@),
        JsonValue::Array(arr) => {
            let s = arr@;
            let n = s.len();
            if n == 0 {
                "[0]:"@
            } else if all_primitives(s) {
                "["@ + decimal(n) + "]: "@ + joined(item_texts(s, depth, n), ","@)
            } else if all_objects(s) && first_keys(s).len() > 0 && uniform(s, first_keys(s)) {
                trimmed_end(
                    "["@ + decimal(n) + "]{"@ + joined(first_keys(s).map_values(|k: Seq<char>| escaped_key(k)), ","@)
                        + "}"@ + ":\n"@ + rows_text(s, first_keys(s), depth, n),
                )
            } else {
                trimmed_end("["@ + decimal(n) + "]:\n"@ + expanded_items(s, depth, n))
            }
        },
        JsonValue::Object(obj) => {
            if obj@.len() == 0 {
                if in_array { "{}"@ } else { Seq::empty() }
            } else {
                entries_text(obj@, depth, in_array, obj@.len())
            }
        },
    }
}

/// The texts of the first `n` items, each at `depth` as an array item.
pub open spec fn item_texts(s: Seq<JsonValue>, depth: nat, n: nat) -> Seq<Seq<char>>
    decreases s, n,
{
    if n == 0 || n > s.len() {
        Seq::empty()
    } else {
        item_texts(s, depth, (n - 1) as nat).push(toon(s[n - 1], depth, true))
    }
}

/// The cells of a table row: for each of the first `m` keys, the member's
/// value one level deeper, or `null` when the object lacks it.
pub open spec fn row_cells(o: Seq<(String, JsonValue)>, fk: Seq<Seq<char>>, depth: nat, m: nat) -> Seq<Seq<char>>
    decreases o, m,
{
    if m == 0 || m > fk.len() {
        Seq::empty()
    } else {
        let p = key_position(o, fk[m - 1]) as int;
        let cell = if p < o.len() { toon(o[p].1, depth + 1, true) } else { "null"@ };
        row_cells(o, fk, depth, (m - 1) as nat).push(cell)
    }
}

/// The table rows of the first `n` items, one line each.
pub open spec fn rows_text(s: Seq<JsonValue>, fk: Seq<Seq<char>>, depth: nat, n: nat) -> Seq<char>
    decreases s, n,
{
    if n == 0 || n > s.len() {
        Seq::empty()
    } else {
        let prev = rows_text(s, fk, depth, (n - 1) as nat);
        match s[n - 1] {
            JsonValue::Object(o) => prev + indent(depth) + joined(row_cells(o@, fk, depth, fk.len()), ","@) + "\n"@,
            _ => prev,
        }
    }
}

/// The first `n` items as `- item` lines.
pub open spec fn expanded_items(s: Seq<JsonValue>, depth: nat, n: nat) -> Seq<char>
    decreases s, n,
{
    if n == 0 || n > s.len() {
        Seq::empty()
    } else {
        expanded_items(s, depth, (n - 1) as nat) + indent(depth) + "- "@ + toon(s[n - 1], depth + 1, true) + "\n"@
    }
}

/// The first `n` members of an object as `key: value` lines.
pub open spec fn entries_text(o: Seq<(String, JsonValue)>, depth: nat, in_array: bool, n: nat) -> Seq<char>
    decreases o, n,
{
    if n == 0 || n > o.len() {
        Seq::empty()
    } else {
        let val = o[n - 1].1;
        let nested = toon(val, depth + 1, false);
        entries_text(o, depth, in_array, (n - 1) as nat) + (if n - 1 > 0 || !in_array {
            "\n"@
        } else {
            Seq::empty()
        }) + indent(depth) + escaped_key(o[n - 1].0@) + ": "@ + (if val is Object {
            trimmed_start(nested)
        } else {
            nested
        })
    }
}

// ---------------------------------------------------------------------------
// Facts used by the encoder
// ---------------------------------------------------------------------------

/// Appending a part to a joined list.
proof fn lemma_joined_push(p: Seq<Seq<char>>, x: Seq<char>, sep: Seq<char>)
    ensures
        joined(p.push(x), sep) == if p.len() == 0 { x } else { joined(p, sep) + sep + x },
{
    assert(p.push(x).drop_last() =~= p);
}

/// `item_texts` holds one text per item.
proof fn lemma_item_texts_len(s: Seq<JsonValue>, depth: nat, n: nat)
    requires
        n <= s.len(),
    ensures
        item_texts(s, depth, n).len() == n,
    decreases n,
{
    if n > 0 {
        lemma_item_texts_len(s, depth, (n - 1) as nat);
    }
}

/// `row_cells` holds one cell per key.
proof fn lemma_row_cells_len(o: Seq<(String, JsonValue)>, fk: Seq<Seq<char>>, depth: nat, m: nat)
    requires
        m <= fk.len(),
    ensures
        row_cells(o, fk, depth, m).len() == m,
    decreases m,
{
    if m > 0 {
        lemma_row_cells_len(o, fk, depth, (m - 1) as nat);
    }
}

/// An item is no higher than the largest height among the items.
proof fn lemma_max_height(s: Seq<JsonValue>, n: nat, i: int)
    requires
        0 <= i < n <= s.len(),
    ensures
        json_height(s[i]) <= max_height(s, n),
    decreases n,
{
    if i < n - 1 {
        lemma_max_height(s, (n - 1) as nat, i);
    }
}

/// A member's value is no higher than the largest height among the values.
proof fn lemma_max_entry_height(o: Seq<(String, JsonValue)>, n: nat, i: int)
    requires
        0 <= i < n <= o.len(),
    ensures
        json_height(o[i].1) <= max_entry_height(o, n),
    decreases n,
{
    if i < n - 1 {
        lemma_max_entry_height(o, (n - 1) as nat, i);
    }
}

/// `le_prefix_len` is the first position whose element exceeds `k`.
proof fn lemma_le_prefix_len(s: Seq<Seq<char>>, k: Seq<char>, j: int)
    requires
        0 <= j <= s.len(),
        forall|m: int| 0 <= m < j ==> lex_le(#[trigger] s[m], k),
        j == s.len() || !lex_le(s[j], k),
    ensures
        le_prefix_len(s, k) == j,
    decreases j,
{
    if j > 0 {
        assert(lex_le(s[0], k));
        let t = s.drop_first();
        assert forall|m: int| 0 <= m < j - 1 implies lex_le(#[trigger] t[m], k) by {
            assert(t[m] == s[m + 1]);
        }
        if j - 1 < t.len() {
            assert(t[j - 1] == s[j]);
        }
        lemma_le_prefix_len(t, k, j - 1);
    }
}

/// `key_position` is the first position holding the key, or the length.
proof fn lemma_key_position(o: Seq<(String, JsonValue)>, k: Seq<char>, j: int)
    requires
        0 <= j <= o.len(),
        forall|m: int| 0 <= m < j ==> (#[trigger] o[m]).0@ != k,
        j == o.len() || o[j].0@ == k,
    ensures
        key_position(o, k) == j,
    decreases j,
{
    if j > 0 {
        let t = o.drop_first();
        assert forall|m: int| 0 <= m < j - 1 implies (#[trigger] t[m]).0@ != k by {
            assert(t[m] == o[m + 1]);
        }
        if j - 1 < t.len() {
            assert(t[j - 1] == o[j]);
        }
        lemma_key_position(t, k, j - 1);
    }
}

// ---------------------------------------------------------------------------
// Keys
// ---------------------------------------------------------------------------

/// The keys of an object, sorted.
fn sorted_keys_exec(o: &Vec<(String, JsonValue)>) -> (r: Vec<String>)
    ensures
        strings_view(r@) == sorted_keys(o@),
{
    let ghost ks = key_seq(o@);
    let mut r: Vec<String> = Vec::new();
    let n = o.len();
    for i in 0..n
        invariant
            n == o@.len(),
            ks == key_seq(o@),
            strings_view(r@) == sort_keys(ks.take(i as int)),
    {
        let k = &o[i].0;
        let ghost rv = strings_view(r@);
        let m = r.len();
        let mut j: usize = 0;
        while j < m && str_lex_le(r[j].as_str(), k.as_str())
            invariant
                j <= m,
                m == r@.len(),
                rv == strings_view(r@),
                forall|t: int| 0 <= t < j ==> lex_le(#[trigger] rv[t], k@),
            decreases m - j,
        {
            assert(rv[j as int] == r@[j as int]@);
            j = j + 1;
        }
        proof {
            if j < m {
                assert(rv[j as int] == r@[j as int]@);
            }
            lemma_le_prefix_len(rv, k@, j as int);
            assert(ks.take(i + 1).drop_last() =~= ks.take(i as int));
            assert(ks.take(i + 1).last() == k@);
        }
        r.insert(j, k.clone());
        assert(strings_view(r@) =~= rv.insert(j as int, k@));
    }
    assert(ks.take(n as int) =~= ks);
    r
}

/// Position of the first member with key `k`, or the number of members.
fn key_position_exec(o: &Vec<(String, JsonValue)>, k: &str) -> (p: usize)
    ensures
        p == key_position(o@, k@),
{
    let n = o.len();
    let mut j: usize = 0;
    while j < n && !crate::text::str_eq(o[j].0.as_str(), k)
        invariant
            j <= n,
            n == o@.len(),
            forall|m: int| 0 <= m < j ==> (#[trigger] o@[m]).0@ != k@,
        decreases n - j,
    {
        j = j + 1;
    }
    proof {
        lemma_key_position(o@, k@, j as int);
    }
    j
}

/// Whether two lists of strings are equal.
fn strings_equal(a: &Vec<String>, b: &Vec<String>) -> (r: bool)
    ensures
        r == (strings_view(a@) == strings_view(b@)),
{
    if a.len() != b.len() {
        assert(strings_view(a@).len() != strings_view(b@).len());
        return false;
    }
    let n = a.len();
    for i in 0..n
        invariant
            n == a@.len(),
            n == b@.len(),
            forall|j: int| 0 <= j < i ==> a@[j]@ == b@[j]@,
    {
        if !crate::text::str_eq(a[i].as_str(), b[i].as_str()) {
            assert(strings_view(a@)[i as int] != strings_view(b@)[i as int]);
            return false;
        }
    }
    assert(strings_view(a@) =~= strings_view(b@));
    true
}

// ---------------------------------------------------------------------------
// The encoder
// ---------------------------------------------------------------------------

/// The text of an array whose items are all primitives: `[n]: a,b,c`.
fn primitive_items(arr: &Vec<JsonValue>, depth: usize) -> (r: String)
    requires
        depth + max_height(arr@, arr@.len()) <= usize::MAX,
    ensures
        r@ == joined(item_texts(arr@, depth as nat, arr@.len()), ","@),
    decreases arr@, 1nat,
{
    let mut r = String::new();
    let n = arr.len();
    for i in 0..n
        invariant
            n == arr@.len(),
            depth + max_height(arr@, arr@.len()) <= usize::MAX,
            r@ == joined(item_texts(arr@, depth as nat, i as nat), ","@),
    {
        proof {
            lemma_max_height(arr@, n as nat, i as int);
            lemma_item_texts_len(arr@, depth as nat, i as nat);
            lemma_joined_push(item_texts(arr@, depth as nat, i as nat), toon(arr@[i as int], depth as nat, true), ","@);
        }
        let t = to_toon_value(&arr[i], depth, true);
        if i > 0 {
            r.append(",");
        }
        r.append(t.as_str());
    }
    r
}

/// One table row: the cells of an object for the keys `fk`, joined by commas.
fn row_text(o: &Vec<(String, JsonValue)>, fk: &Vec<String>, depth: usize) -> (r: String)
    requires
        depth + 1 + max_entry_height(o@, o@.len()) <= usize::MAX,
    ensures
        r@ == joined(row_cells(o@, strings_view(fk@), depth as nat, fk@.len()), ","@),
    decreases o@, 1nat,
{
    let ghost fks = strings_view(fk@);
    let mut r = String::new();
    let m = fk.len();
    for j in 0..m
        invariant
            m == fk@.len(),
            fks == strings_view(fk@),
            depth + 1 + max_entry_height(o@, o@.len()) <= usize::MAX,
            r@ == joined(row_cells(o@, fks, depth as nat, j as nat), ","@),
    {
        let p = key_position_exec(o, fk[j].as_str());
        assert(fks[j as int] == fk@[j as int]@);
        let ghost cell = if p < o@.len() { toon(o@[p as int].1, (depth + 1) as nat, true) } else { "null"@ };
        proof {
            lemma_row_cells_len(o@, fks, depth as nat, j as nat);
            lemma_joined_push(row_cells(o@, fks, depth as nat, j as nat), cell, ","@);
        }
        let t = if p < o.len() {
            proof {
                lemma_max_entry_height(o@, o@.len(), p as int);
            }
            to_toon_value(&o[p].1, depth + 1, true)
        } else {
            "null".to_owned()
        };
        if j > 0 {
            r.append(",");
        }
        r.append(t.as_str());
    }
    r
}

/// The rows of a table of objects.
fn table_rows(arr: &Vec<JsonValue>, fk: &Vec<String>, depth: usize) -> (r: String)
    requires
        depth + 1 + max_height(arr@, arr@.len()) <= usize::MAX,
    ensures
        r@ == rows_text(arr@, strings_view(fk@), depth as nat, arr@.len()),
    decreases arr@, 1nat,
{
    let ind = indent_exec(depth);
    let mut r = String::new();
    let n = arr.len();
    for i in 0..n
        invariant
            n == arr@.len(),
            ind@ == indent(depth as nat),
            depth + 1 + max_height(arr@, arr@.len()) <= usize::MAX,
            r@ == rows_text(arr@, strings_view(fk@), depth as nat, i as nat),
    {
        match &arr[i] {
            JsonValue::Object(o) => {
                proof {
                    lemma_max_height(arr@, n as nat, i as int);
                    assert(json_height(arr@[i as int]) == 1 + max_entry_height(o@, o@.len()));
                }
                let cells = row_text(o, fk, depth);
                r.append(ind.as_str());
                r.append(cells.as_str());
                r.append("\n");
            },
            _ => {},
        }
    }
    r
}

/// Items as `- item` lines, trimmed at the end.
fn format_expanded_array(arr: &Vec<JsonValue>, depth: usize) -> (r: String)
    requires
        depth + 1 + max_height(arr@, arr@.len()) <= usize::MAX,
    ensures
        r@ == trimmed_end("["@ + decimal(arr@.len()) + "]:\n"@ + expanded_items(arr@, depth as nat, arr@.len())),
    decreases arr@, 1nat,
{
    let ind = indent_exec(depth);
    let mut r = String::new();
    let n = arr.len();
    r.append("[");
    crate::text::push_decimal(&mut r, n);
    r.append("]:\n");
    let ghost head = "["@ + decimal(n as nat) + "]:\n"@;
    assert(r@ == head);
    for i in 0..n
        invariant
            n == arr@.len(),
            ind@ == indent(depth as nat),
            depth + 1 + max_height(arr@, arr@.len()) <= usize::MAX,
            r@ == head + expanded_items(arr@, depth as nat, i as nat),
    {
        proof {
            lemma_max_height(arr@, n as nat, i as int);
        }
        let t = to_toon_value(&arr[i], depth + 1, true);
        r.append(ind.as_str());
        r.append("- ");
        r.append(t.as_str());
        r.append("\n");
    }
    trim_end(r.as_str())
}

/// An object's members as `key: value` lines.
fn object_text(o: &Vec<(String, JsonValue)>, depth: usize, in_array: bool) -> (r: String)
    requires
        depth + 1 + max_entry_height(o@, o@.len()) <= usize::MAX,
    ensures
        r@ == entries_text(o@, depth as nat, in_array, o@.len()),
    decreases o@, 1nat,
{
    let ind = indent_exec(depth);
    let mut r = String::new();
    let n = o.len();
    for i in 0..n
        invariant
            n == o@.len(),
            ind@ == indent(depth as nat),
            depth + 1 + max_entry_height(o@, o@.len()) <= usize::MAX,
            r@ == entries_text(o@, depth as nat, in_array, i as nat),
    {
        if i > 0 || !in_array {
            r.append("\n");
        }
        r.append(ind.as_str());
        let key_str = escape_key(o[i].0.as_str());
        r.append(key_str.as_str());
        r.append(": ");
        proof {
            lemma_max_entry_height(o@, n as nat, i as int);
        }
        let val = &o[i].1;
        let nested = to_toon_value(val, depth + 1, false);
        match val {
            JsonValue::Object(_) => {
                let t = trim_start(nested.as_str());
                r.append(t.as_str());
            },
            _ => {
                r.append(nested.as_str());
            },
        }
    }
    r
}

/// The TOON text of a value at nesting `depth`.
pub fn to_toon_value(value: &JsonValue, depth: usize, in_array: bool) -> (r: String)
    requires
        depth + json_height(*value) <= usize::MAX,
    ensures
        r@ == toon(*value, depth as nat, in_array),
    decreases *value, 0nat,
{
    match value {
        JsonValue::Null => "null".to_owned(),
        JsonValue::Bool(b) => if *b { "true".to_owned() } else { "false".to_owned() },
        JsonValue::Number(n) => n.clone(),
        JsonValue::String(s) => quote_if_needed(s.as_str()),
        JsonValue::Array(arr) => {
            let n = arr.len();
            if n == 0 {
                return "[0]:".to_owned();
            }
            let mut prim = true;
            let mut objs = true;
            for i in 0..n
                invariant
                    n == arr@.len(),
                    prim == (forall|j: int| 0 <= j < i ==> is_primitive(#[trigger] arr@[j])),
                    objs == (forall|j: int| 0 <= j < i ==> (#[trigger] arr@[j]) is Object),
            {
                match &arr[i] {
                    JsonValue::Array(_) => {
                        prim = false;
                        objs = false;
                    },
                    JsonValue::Object(_) => {
                        prim = false;
                    },
                    _ => {
                        objs = false;
                    },
                }
            }
            if prim {
                let mut r = "[".to_owned();
                crate::text::push_decimal(&mut r, n);
                r.append("]: ");
                let items = primitive_items(arr, depth);
                r.append(items.as_str());
                return r;
            }
            if objs {
                let fk = match &arr[0] {
                    JsonValue::Object(o) => sorted_keys_exec(o),
                    _ => Vec::new(),
                };
                assert(strings_view(fk@) == first_keys(arr@));
                let mut uni = fk.len() > 0;
                for i in 0..n
                    invariant
                        n == arr@.len(),
                        strings_view(fk@) == first_keys(arr@),
                        uni == (strings_view(fk@).len() > 0 && forall|j: int| 0 <= j < i ==> match #[trigger] arr@[j] {
                            JsonValue::Object(o) => sorted_keys(o@) == strings_view(fk@),
                            _ => false,
                        }),
                {
                    match &arr[i] {
                        JsonValue::Object(o) => {
                            let ks = sorted_keys_exec(o);
                            if !strings_equal(&ks, &fk) {
                                uni = false;
                            }
                        },
                        _ => {
                            uni = false;
                        },
                    }
                }
                if uni {
                    let mut r = "[".to_owned();
                    crate::text::push_decimal(&mut r, n);
                    r.append("]{");
                    let m = fk.len();
                    let ghost fks = strings_view(fk@);
                    for j in 0..m
                        invariant
                            m == fk@.len(),
                            fks == strings_view(fk@),
                            r@ == "["@ + decimal(n as nat) + "]{"@ + joined(
                                fks.take(j as int).map_values(|k: Seq<char>| escaped_key(k)),
                                ","@,
                            ),
                    {
                        let ek = escape_key(fk[j].as_str());
                        proof {
                            let before = fks.take(j as int).map_values(|k: Seq<char>| escaped_key(k));
                            assert(fks.take(j + 1).map_values(|k: Seq<char>| escaped_key(k)) =~= before.push(
                                escaped_key(fks[j as int]),
                            ));
                            lemma_joined_push(before, escaped_key(fks[j as int]), ","@);
                            assert(fks[j as int] == fk@[j as int]@);
                        }
                        if j > 0 {
                            r.append(",");
                        }
                        r.append(ek.as_str());
                    }
                    assert(fks.take(m as int) =~= fks);
                    r.append("}");
                    r.append(":\n");
                    let rows = table_rows(arr, &fk, depth);
                    r.append(rows.as_str());
                    return trim_end(r.as_str());
                }
            }
            format_expanded_array(arr, depth)
        },
        JsonValue::Object(o) => {
            if o.len() == 0 {
                if in_array { "{}".to_owned() } else { String::new() }
            } else {
                object_text(o, depth, in_array)
            }
        },
    }
}

/// Serialize a value to TOON.
pub fn to_toon(value: &JsonValue) -> (r: String)
    requires
        json_height(*value) <= usize::MAX,
    ensures
        r@ == toon(*value, 0, false),
{
    to_toon_value(value, 0, false)
}

} // verus!
