//! Character-level string utilities shared by the rest of the library.

use vstd::prelude::*;

verus! {

// ---------------------------------------------------------------------------
// Conversions between `str`/`String` and character vectors
// ---------------------------------------------------------------------------

/// The characters of a string, in order.
pub fn chars_of(s: &str) -> (v: Vec<char>)
    ensures
        v@ == s@,
{
    let mut v: Vec<char> = Vec::new();
    for c in it: s.chars()
        invariant
            v@ == it.seq().take(it.index() as int),
            it.seq() == s@,
    {
        v.push(c);
    }
    v
}

/// Appends one character to a `String` (`String::push`).
#[verifier::external_body]
pub fn push_char(s: &mut String, c: char)
    ensures
        final(s)@ == old(s)@.push(c),
{
    s.push(c);
}

/// Appends the characters of `v` to `s`.
pub fn push_chars(s: &mut String, v: &[char])
    ensures
        final(s)@ == old(s)@ + v@,
{
    let n = v.len();
    for i in 0..n
        invariant
            n == v@.len(),
            s@ == old(s)@ + v@.take(i as int),
    {
        push_char(s, v[i]);
        assert(v@.take(i + 1) == v@.take(i as int).push(v@[i as int]));
    }
    assert(v@.take(n as int) == v@);
}

/// Concatenation of two strings into a new `String`.
pub fn concat2(a: &str, b: &str) -> (r: String)
    ensures
        r@ == a@ + b@,
{
    let mut r = a.to_owned();
    r.append(b);
    r
}

// ---------------------------------------------------------------------------
// Equality, prefixes, substrings
// ---------------------------------------------------------------------------

/// Whether two character sequences are equal.
pub fn chars_eq(a: &[char], b: &[char]) -> (r: bool)
    ensures
        r == (a@ == b@),
{
    if a.len() != b.len() {
        return false;
    }
    let n = a.len();
    for i in 0..n
        invariant
            n == a@.len(),
            n == b@.len(),
            forall|j: int| 0 <= j < i ==> a@[j] == b@[j],
    {
        if a[i] != b[i] {
            return false;
        }
    }
    assert(a@ =~= b@);
    true
}

/// Whether two strings hold the same characters.
pub fn str_eq(a: &str, b: &str) -> (r: bool)
    ensures
        r == (a@ == b@),
{
    let av = chars_of(a);
    let bv = chars_of(b);
    chars_eq(av.as_slice(), bv.as_slice())
}

/// `prefix` is an initial segment of `s`.
pub open spec fn seq_starts_with(s: Seq<char>, prefix: Seq<char>) -> bool {
    prefix.len() <= s.len() && s.subrange(0, prefix.len() as int) == prefix
}

/// `needle` occurs in `hay` at position `i`.
pub open spec fn occurs_at(hay: Seq<char>, needle: Seq<char>, i: int) -> bool {
    0 <= i && i + needle.len() <= hay.len() && hay.subrange(i, i + needle.len()) == needle
}

/// `needle` occurs somewhere in `hay` (the empty needle occurs everywhere).
pub open spec fn seq_contains(hay: Seq<char>, needle: Seq<char>) -> bool {
    exists|i: int| #[trigger] occurs_at(hay, needle, i)
}

/// Whether `prefix` is an initial segment of `s`.
pub fn chars_start_with(s: &[char], prefix: &[char]) -> (r: bool)
    ensures
        r == seq_starts_with(s@, prefix@),
{
    if prefix.len() > s.len() {
        return false;
    }
    let n = prefix.len();
    for i in 0..n
        invariant
            n == prefix@.len(),
            n <= s@.len(),
            forall|j: int| 0 <= j < i ==> s@[j] == prefix@[j],
    {
        if s[i] != prefix[i] {
            assert(s@.subrange(0, n as int)[i as int] != prefix@[i as int]);
            return false;
        }
    }
    assert(s@.subrange(0, n as int) =~= prefix@);
    true
}

/// Whether `prefix` is an initial segment of `s` (`str::starts_with`).
pub fn str_starts_with(s: &str, prefix: &str) -> (r: bool)
    ensures
        r == seq_starts_with(s@, prefix@),
{
    let sv = chars_of(s);
    let pv = chars_of(prefix);
    chars_start_with(sv.as_slice(), pv.as_slice())
}

/// Whether `needle` occurs in `hay` at position `i`.
fn chars_occur_at(hay: &[char], needle: &[char], i: usize) -> (r: bool)
    requires
        i + needle@.len() <= hay@.len(),
    ensures
        r == occurs_at(hay@, needle@, i as int),
{
    let n = needle.len();
    let hl = hay.len();
    for k in 0..n
        invariant
            n == needle@.len(),
            hl == hay@.len(),
            i + n <= hay@.len(),
            forall|j: int| 0 <= j < k ==> hay@[i + j] == needle@[j],
    {
        if hay[i + k] != needle[k] {
            assert(hay@.subrange(i as int, i + n)[k as int] != needle@[k as int]);
            return false;
        }
    }
    assert(hay@.subrange(i as int, i + n) =~= needle@);
    true
}

/// Whether `needle` occurs somewhere in `hay` (`str::contains`).
pub fn chars_contain(hay: &[char], needle: &[char]) -> (r: bool)
    ensures
        r == seq_contains(hay@, needle@),
{
    if needle.len() > hay.len() {
        assert forall|i: int| !occurs_at(hay@, needle@, i) by {}
        return false;
    }
    if needle.len() == 0 {
        assert(hay@.subrange(0, 0) =~= needle@);
        assert(occurs_at(hay@, needle@, 0));
        return true;
    }
    let hl = hay.len();
    let last = hl - needle.len();
    let mut i: usize = 0;
    while i <= last
        invariant
            last + needle@.len() == hay@.len(),
            hl == hay@.len(),
            needle@.len() >= 1,
            i <= last + 1,
            forall|j: int| 0 <= j < i ==> !occurs_at(hay@, needle@, j),
        decreases last + 1 - i,
    {
        if chars_occur_at(hay, needle, i) {
            return true;
        }
        i = i + 1;
    }
    assert forall|j: int| !occurs_at(hay@, needle@, j) by {
        if 0 <= j && j < i {
        }
    }
    false
}

/// Whether `needle` occurs somewhere in `hay` (`str::contains`).
pub fn str_contains(hay: &str, needle: &str) -> (r: bool)
    ensures
        r == seq_contains(hay@, needle@),
{
    let hv = chars_of(hay);
    let nv = chars_of(needle);
    chars_contain(hv.as_slice(), nv.as_slice())
}

// ---------------------------------------------------------------------------
// ASCII case
// ---------------------------------------------------------------------------

/// The ASCII uppercase form of a lowercase ASCII letter (other characters unchanged).
pub open spec fn ascii_upper(c: char) -> char {
    match c {
        'a' => 'A',
        'b' => 'B',
        'c' => 'C',
        'd' => 'D',
        'e' => 'E',
        'f' => 'F',
        'g' => 'G',
        'h' => 'H',
        'i' => 'I',
        'j' => 'J',
        'k' => 'K',
        'l' => 'L',
        'm' => 'M',
        'n' => 'N',
        'o' => 'O',
        'p' => 'P',
        'q' => 'Q',
        'r' => 'R',
        's' => 'S',
        't' => 'T',
        'u' => 'U',
        'v' => 'V',
        'w' => 'W',
        'x' => 'X',
        'y' => 'Y',
        'z' => 'Z',
        _ => c,
    }
}

/// The ASCII lowercase form of an uppercase ASCII letter (other characters unchanged).
pub open spec fn ascii_lower(c: char) -> char {
    match c {
        'A' => 'a',
        'B' => 'b',
        'C' => 'c',
        'D' => 'd',
        'E' => 'e',
        'F' => 'f',
        'G' => 'g',
        'H' => 'h',
        'I' => 'i',
        'J' => 'j',
        'K' => 'k',
        'L' => 'l',
        'M' => 'm',
        'N' => 'n',
        'O' => 'o',
        'P' => 'p',
        'Q' => 'q',
        'R' => 'r',
        'S' => 's',
        'T' => 't',
        'U' => 'u',
        'V' => 'v',
        'W' => 'w',
        'X' => 'x',
        'Y' => 'y',
        'Z' => 'z',
        _ => c,
    }
}

/// An ASCII letter.
pub open spec fn is_ascii_alpha(c: char) -> bool {
    ('a' <= c && c <= 'z') || ('A' <= c && c <= 'Z')
}

/// An ASCII letter or digit.
pub open spec fn is_ascii_alnum(c: char) -> bool {
    is_ascii_alpha(c) || ('0' <= c && c <= '9')
}

/// An ASCII whitespace character: space, tab, line feed, vertical tab, form
/// feed or carriage return.
pub open spec fn is_ascii_whitespace_char(c: char) -> bool {
    c == ' ' || c == '\t' || c == '\n' || c == '\x0B' || c == '\x0C' || c == '\r'
}

/// Every character is ASCII.
pub open spec fn is_ascii_seq(s: Seq<char>) -> bool {
    forall|i: int| 0 <= i < s.len() ==> (#[trigger] s[i] as u32) < 128
}

/// `s` with its ASCII letters lowercased.
pub open spec fn ascii_lowercase(s: Seq<char>) -> Seq<char> {
    s.map_values(|c: char| ascii_lower(c))
}

/// `s` with its ASCII letters uppercased.
pub open spec fn ascii_uppercase(s: Seq<char>) -> Seq<char> {
    s.map_values(|c: char| ascii_upper(c))
}

/// A word of ASCII characters without uppercase letters is its own lowercase
/// form, and so is its uppercase form once lowercased.
pub proof fn lemma_lowercase_word(s: Seq<char>)
    requires
        forall|i: int| 0 <= i < s.len() ==> (#[trigger] s[i] as u32) < 128 && !('A' <= s[i] && s[i] <= 'Z'),
    ensures
        is_ascii_seq(s),
        ascii_lowercase(s) == s,
        is_ascii_seq(ascii_uppercase(s)),
        ascii_lowercase(ascii_uppercase(s)) == s,
{
    assert(ascii_lowercase(s) =~= s);
    assert forall|i: int| 0 <= i < ascii_uppercase(s).len() implies (#[trigger] ascii_uppercase(s)[i] as u32) < 128 by {
        assert(ascii_uppercase(s)[i] == ascii_upper(s[i]));
    }
    assert(ascii_lowercase(ascii_uppercase(s)) =~= s);
}

// ---------------------------------------------------------------------------
// Unicode-dependent operations of `std`
// ---------------------------------------------------------------------------

/// The Unicode lowercase mapping of a string, as `str::to_lowercase` computes it.
pub uninterp spec fn unicode_lowercase(s: Seq<char>) -> Seq<char>;

/// `str::to_lowercase`: the lowercase equivalent of `s` under the Unicode
/// `Lowercase` derived property. Of the mapping, only what it does to ASCII
/// text is stated: uppercase ASCII letters become lowercase, every other ASCII
/// character stays. Beyond ASCII it is only named.
#[verifier::external_body]
pub fn to_lowercase(s: &str) -> (r: String)
    ensures
        r@ == unicode_lowercase(s@),
        is_ascii_seq(s@) ==> r@ == ascii_lowercase(s@),
{
    s.to_lowercase()
}

/// Whether a character is alphabetic or numeric in Unicode, as `char::is_alphanumeric` decides.
pub uninterp spec fn unicode_alphanumeric(c: char) -> bool;

/// `char::is_alphanumeric`: true when `c` has the Unicode `Alphabetic` property or
/// is numeric. Of ASCII characters, exactly the letters and digits are; beyond
/// ASCII the property is only named.
#[verifier::external_body]
pub fn is_alphanumeric(c: char) -> (b: bool)
    ensures
        b == unicode_alphanumeric(c),
        (c as u32) < 128 ==> (b <==> is_ascii_alnum(c)),
{
    c.is_alphanumeric()
}

/// Whether a character has the Unicode `White_Space` property, as `char::is_whitespace` decides.
pub uninterp spec fn unicode_whitespace(c: char) -> bool;

/// `char::is_whitespace`: true when `c` has the Unicode `White_Space` property.
/// Of ASCII characters, exactly space, tab, line feed, vertical tab, form feed
/// and carriage return are; beyond ASCII the property is only named.
#[verifier::external_body]
pub fn is_whitespace(c: char) -> (b: bool)
    ensures
        b == unicode_whitespace(c),
        (c as u32) < 128 ==> (b <==> is_ascii_whitespace_char(c)),
{
    c.is_whitespace()
}

// ---------------------------------------------------------------------------
// Decimal digits
// ---------------------------------------------------------------------------

/// The ASCII digit for `d` (`d < 10`).
pub open spec fn digit_char(d: nat) -> char {
    if d == 0 { '0' }
    else if d == 1 { '1' }
    else if d == 2 { '2' }
    else if d == 3 { '3' }
    else if d == 4 { '4' }
    else if d == 5 { '5' }
    else if d == 6 { '6' }
    else if d == 7 { '7' }
    else if d == 8 { '8' }
    else { '9' }
}

/// The value of an ASCII digit, if `c` is one.
pub open spec fn digit_value(c: char) -> Option<nat> {
    if c == '0' { Some(0) }
    else if c == '1' { Some(1) }
    else if c == '2' { Some(2) }
    else if c == '3' { Some(3) }
    else if c == '4' { Some(4) }
    else if c == '5' { Some(5) }
    else if c == '6' { Some(6) }
    else if c == '7' { Some(7) }
    else if c == '8' { Some(8) }
    else if c == '9' { Some(9) }
    else { None }
}

/// Decimal representation of `n`, without leading zeros (`"0"` for zero).
pub open spec fn decimal(n: nat) -> Seq<char>
    decreases n,
{
    if n < 10 {
        seq![digit_char(n)]
    } else {
        decimal(n / 10).push(digit_char(n % 10))
    }
}

/// Decimal representation of `n`, padded with a leading zero to at least two
/// characters (the `{:02}` format).
pub open spec fn decimal_pad2(n: nat) -> Seq<char> {
    if n < 10 {
        seq!['0', digit_char(n)]
    } else {
        decimal(n)
    }
}

fn digit(d: u8) -> (c: char)
    requires
        d < 10,
    ensures
        c == digit_char(d as nat),
{
    match d {
        0 => '0',
        1 => '1',
        2 => '2',
        3 => '3',
        4 => '4',
        5 => '5',
        6 => '6',
        7 => '7',
        8 => '8',
        _ => '9',
    }
}

/// The value of an ASCII digit, if `c` is one.
pub fn digit_of(c: char) -> (r: Option<u8>)
    ensures
        match digit_value(c) {
            Some(v) => r == Some(v as u8),
            None => r is None,
        },
{
    match c {
        '0' => Some(0),
        '1' => Some(1),
        '2' => Some(2),
        '3' => Some(3),
        '4' => Some(4),
        '5' => Some(5),
        '6' => Some(6),
        '7' => Some(7),
        '8' => Some(8),
        '9' => Some(9),
        _ => None,
    }
}

/// Appends the decimal representation of `n` to `s`.
pub fn push_decimal(s: &mut String, n: usize)
    ensures
        final(s)@ == old(s)@ + decimal(n as nat),
    decreases n,
{
    if n < 10 {
        push_char(s, digit(n as u8));
    } else {
        push_decimal(s, n / 10);
        push_char(s, digit((n % 10) as u8));
    }
}

/// Appends `n` zero-padded to two digits (`{:02}`) to `s`.
pub fn push_decimal_pad2(s: &mut String, n: usize)
    ensures
        final(s)@ == old(s)@ + decimal_pad2(n as nat),
{
    if n < 10 {
        push_char(s, '0');
        push_char(s, digit(n as u8));
        assert(s@ =~= old(s)@ + decimal_pad2(n as nat));
    } else {
        push_decimal(s, n);
    }
}

// ---------------------------------------------------------------------------
// Splitting on a separator character
// ---------------------------------------------------------------------------

/// The fields of `s` between occurrences of `sep`, as `str::split(sep)` yields
/// them: `n` separators give `n + 1` fields, some possibly empty.
pub open spec fn split_fields(s: Seq<char>, sep: char) -> Seq<Seq<char>>
    decreases s.len(),
{
    if s.len() == 0 {
        seq![Seq::<char>::empty()]
    } else {
        let prev = split_fields(s.drop_last(), sep);
        if s.last() == sep {
            prev.push(Seq::<char>::empty())
        } else {
            prev.update(prev.len() - 1, prev.last().push(s.last()))
        }
    }
}

/// There is always at least one field.
pub proof fn lemma_split_fields_nonempty(s: Seq<char>, sep: char)
    ensures
        split_fields(s, sep).len() >= 1,
    decreases s.len(),
{
    if s.len() > 0 {
        lemma_split_fields_nonempty(s.drop_last(), sep);
    }
}

/// The views of a vector of character vectors.
pub open spec fn fields_view(v: Seq<Vec<char>>) -> Seq<Seq<char>> {
    v.map_values(|f: Vec<char>| f@)
}

/// Splits `s` on every occurrence of `sep` (`str::split`).
pub fn split_chars(s: &[char], sep: char) -> (r: Vec<Vec<char>>)
    ensures
        fields_view(r@) == split_fields(s@, sep),
{
    let mut done: Vec<Vec<char>> = Vec::new();
    let mut cur: Vec<char> = Vec::new();
    let n = s.len();
    for i in 0..n
        invariant
            n == s@.len(),
            fields_view(done@).push(cur@) == split_fields(s@.take(i as int), sep),
    {
        proof {
            assert(s@.take(i + 1).drop_last() =~= s@.take(i as int));
            assert(s@.take(i + 1).last() == s@[i as int]);
            lemma_split_fields_nonempty(s@.take(i as int), sep);
        }
        let c = s[i];
        if c == sep {
            let ghost before = fields_view(done@).push(cur@);
            done.push(cur);
            cur = Vec::new();
            assert(fields_view(done@) =~= before);
            assert(fields_view(done@).push(cur@) =~= before.push(Seq::<char>::empty()));
        } else {
            let ghost d = fields_view(done@);
            cur.push(c);
            assert(fields_view(done@).push(cur@) =~= d.push(cur@));
            assert(d.push(cur@) =~= d.push(cur@.drop_last()).update(d.len() as int, cur@));
        }
    }
    assert(s@.take(n as int) =~= s@);
    let ghost d = fields_view(done@);
    done.push(cur);
    assert(fields_view(done@) =~= d.push(cur@));
    done
}

// ---------------------------------------------------------------------------
// Parsing `u8` (`str::parse::<u8>`)
// ---------------------------------------------------------------------------

/// Every character of `s` is an ASCII digit.
pub open spec fn all_digits(s: Seq<char>) -> bool {
    forall|i: int| 0 <= i < s.len() ==> (#[trigger] digit_value(s[i])) is Some
}

/// The number that a string of ASCII digits denotes (leading zeros allowed).
pub open spec fn digits_value(s: Seq<char>) -> nat
    decreases s.len(),
{
    if s.len() == 0 {
        0
    } else {
        digits_value(s.drop_last()) * 10 + digit_value(s.last()).unwrap_or(0)
    }
}

/// What `str::parse::<u8>` accepts: an optional `+` followed by at least one
/// ASCII digit, denoting a value of at most 255.
pub open spec fn parse_u8_spec(s: Seq<char>) -> Option<u8> {
    let digits = if s.len() > 0 && s[0] == '+' { s.drop_first() } else { s };
    if digits.len() == 0 || !all_digits(digits) || digits_value(digits) > 255 {
        None
    } else {
        Some(digits_value(digits) as u8)
    }
}

/// Parses a decimal `u8` the way `str::parse::<u8>` does.
pub fn parse_u8(s: &[char]) -> (r: Option<u8>)
    ensures
        r == parse_u8_spec(s@),
{
    let n = s.len();
    let start: usize = if n > 0 && s[0] == '+' { 1 } else { 0 };
    let ghost digits = if s@.len() > 0 && s@[0] == '+' { s@.drop_first() } else { s@ };
    assert(digits =~= s@.subrange(start as int, n as int));
    if start == n {
        return None;
    }
    let mut acc: u32 = 0;
    let mut i = start;
    while i < n
        invariant
            n == s@.len(),
            start <= i <= n,
            digits =~= s@.subrange(start as int, n as int),
            digits == (if s@.len() > 0 && s@[0] == '+' { s@.drop_first() } else { s@ }),
            forall|j: int| start <= j < i ==> (#[trigger] digit_value(s@[j])) is Some,
            acc as nat == if digits_value(s@.subrange(start as int, i as int)) > 255 { 256 } else {
                digits_value(s@.subrange(start as int, i as int))
            },
        decreases n - i,
    {
        let d = match digit_of(s[i]) {
            Some(d) => d,
            None => {
                assert(digits[i - start] == s@[i as int]);
                assert(digit_value(digits[i - start]) is None);
                assert(!all_digits(digits));
                return None;
            },
        };
        proof {
            let pre = s@.subrange(start as int, i as int);
            let post = s@.subrange(start as int, i + 1);
            assert(post.drop_last() =~= pre);
            assert(post.last() == s@[i as int]);
        }
        let next = acc * 10 + d as u32;
        acc = if next > 255 { 256 } else { next };
        i = i + 1;
    }
    assert(s@.subrange(start as int, n as int) =~= digits);
    assert forall|k: int| 0 <= k < digits.len() implies (#[trigger] digit_value(digits[k])) is Some by {
        assert(digits[k] == s@[start + k]);
    }
    if acc > 255 {
        None
    } else {
        Some(acc as u8)
    }
}

// ---------------------------------------------------------------------------
// Facts about decimal text, splitting and parsing
// ---------------------------------------------------------------------------

/// `sep` does not occur in `s`.
pub open spec fn lacks_char(s: Seq<char>, sep: char) -> bool {
    forall|i: int| 0 <= i < s.len() ==> s[i] != sep
}

/// Digits convert back to the numbers they denote.
pub proof fn lemma_digit_char(d: nat)
    requires
        d < 10,
    ensures
        digit_value(digit_char(d)) == Some(d),
{
}

/// Decimal text is non-empty, made of digits, and denotes its number.
pub proof fn lemma_decimal(n: nat)
    ensures
        decimal(n).len() >= 1,
        all_digits(decimal(n)),
        digits_value(decimal(n)) == n,
    decreases n,
{
    if n < 10 {
        lemma_digit_char(n);
        assert(decimal(n).drop_last() =~= Seq::<char>::empty());
        assert(digits_value(Seq::<char>::empty()) == 0);
        assert(decimal(n).last() == digit_char(n));
        assert(digit_value(decimal(n)[0]) is Some);
    } else {
        lemma_decimal(n / 10);
        lemma_digit_char(n % 10);
        let s = decimal(n);
        assert(s.drop_last() =~= decimal(n / 10));
        assert(s.last() == digit_char(n % 10));
        assert(digits_value(s) == digits_value(decimal(n / 10)) * 10 + n % 10);
        assert forall|i: int| 0 <= i < s.len() implies (#[trigger] digit_value(s[i])) is Some by {
            if i < s.len() - 1 {
                assert(s[i] == decimal(n / 10)[i]);
            }
        }
    }
}

/// Zero-padded decimal text is made of at least two digits and denotes its number.
pub proof fn lemma_decimal_pad2(n: nat)
    ensures
        decimal_pad2(n).len() >= 2,
        all_digits(decimal_pad2(n)),
        digits_value(decimal_pad2(n)) == n,
{
    lemma_decimal(n);
    if n < 10 {
        lemma_digit_char(n);
        let s = decimal_pad2(n);
        assert(s.drop_last() =~= seq!['0']);
        assert(seq!['0'].drop_last() =~= Seq::<char>::empty());
        assert(digits_value(Seq::<char>::empty()) == 0);
        assert(digits_value(seq!['0']) == 0);
        assert(s.last() == digit_char(n));
        assert(digit_value(s[0]) is Some);
        assert(digit_value(s[1]) is Some);
    } else {
        let m = n / 10;
        assert(decimal(n).len() == decimal(m).len() + 1);
        lemma_decimal(m);
    }
}

/// A string of digits has no separator in it other than a digit.
pub proof fn lemma_digits_lack(s: Seq<char>, c: char)
    requires
        all_digits(s),
        digit_value(c) is None,
    ensures
        lacks_char(s, c),
{
    assert forall|i: int| 0 <= i < s.len() implies s[i] != c by {
        assert(digit_value(s[i]) is Some);
    }
}

/// A `u8` written in decimal parses back to itself.
pub proof fn lemma_parse_decimal_pad2(v: u8)
    ensures
        parse_u8_spec(decimal_pad2(v as nat)) == Some(v),
{
    lemma_decimal_pad2(v as nat);
    let s = decimal_pad2(v as nat);
    assert(digit_value(s[0]) is Some);
    assert(s[0] != '+');
}

/// Splitting `s` followed by separator-free text extends the last field.
pub proof fn lemma_split_append(s: Seq<char>, x: Seq<char>, sep: char)
    requires
        lacks_char(x, sep),
    ensures
        split_fields(s + x, sep) == split_fields(s, sep).update(
            split_fields(s, sep).len() - 1,
            split_fields(s, sep).last() + x,
        ),
    decreases x.len(),
{
    lemma_split_fields_nonempty(s, sep);
    if x.len() == 0 {
        assert(s + x =~= s);
        assert(split_fields(s, sep).last() + x =~= split_fields(s, sep).last());
        assert(split_fields(s, sep).update(split_fields(s, sep).len() - 1, split_fields(s, sep).last())
            =~= split_fields(s, sep));
    } else {
        let y = x.drop_last();
        assert(lacks_char(y, sep)) by {
            assert forall|i: int| 0 <= i < y.len() implies y[i] != sep by {
                assert(y[i] == x[i]);
            }
        }
        lemma_split_append(s, y, sep);
        assert((s + x).drop_last() =~= s + y);
        assert((s + x).last() == x.last());
        assert(x.last() != sep);
        let f = split_fields(s, sep);
        assert((f.last() + y).push(x.last()) =~= f.last() + x);
        lemma_split_fields_nonempty(s + y, sep);
        assert(f.update(f.len() - 1, f.last() + y).update(f.len() - 1, f.last() + x) =~= f.update(
            f.len() - 1,
            f.last() + x,
        ));
    }
}

/// Splitting `s` followed by the separator opens a new, empty field.
pub proof fn lemma_split_sep(s: Seq<char>, sep: char)
    ensures
        split_fields(s.push(sep), sep) == split_fields(s, sep).push(Seq::<char>::empty()),
{
    assert(s.push(sep).drop_last() =~= s);
}

/// Three separator-free parts joined by the separator split back into those parts.
pub proof fn lemma_split_three(a: Seq<char>, b: Seq<char>, c: Seq<char>, sep: char)
    requires
        lacks_char(a, sep),
        lacks_char(b, sep),
        lacks_char(c, sep),
    ensures
        split_fields(a + seq![sep] + b + seq![sep] + c, sep) == seq![a, b, c],
{
    let e = Seq::<char>::empty();
    lemma_split_append(e, a, sep);
    assert(e + a =~= a);
    assert(split_fields(e, sep) =~= seq![e]);
    assert(seq![e].update(0, e + a) =~= seq![a]);
    lemma_split_sep(a, sep);
    assert(a + seq![sep] =~= a.push(sep));
    lemma_split_append(a + seq![sep], b, sep);
    assert(seq![a, e].update(1, e + b) =~= seq![a, b]);
    assert(e + b =~= b);
    lemma_split_sep(a + seq![sep] + b, sep);
    assert(a + seq![sep] + b + seq![sep] =~= (a + seq![sep] + b).push(sep));
    lemma_split_append(a + seq![sep] + b + seq![sep], c, sep);
    assert(e + c =~= c);
    assert(seq![a, b, e].update(2, e + c) =~= seq![a, b, c]);
}

} // verus!
