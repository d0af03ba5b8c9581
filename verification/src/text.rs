//! Character-level text handling: the line, field and number syntax that the
//! kernel's pseudo-files use, stated over `Seq<char>` and implemented on
//! `Vec<char>`.

use vstd::prelude::*;

verus! {

// ---------------------------------------------------------------------------
// Specifications
// ---------------------------------------------------------------------------

/// Unicode `White_Space`, the set that `char::is_whitespace` tests.
pub open spec fn is_ws(c: char) -> bool {
    ||| c == ' '
    ||| ('\t' <= c && c <= '\r')
    ||| c == '\u{85}'
    ||| c == '\u{A0}'
    ||| c == '\u{1680}'
    ||| ('\u{2000}' <= c && c <= '\u{200A}')
    ||| c == '\u{2028}'
    ||| c == '\u{2029}'
    ||| c == '\u{202F}'
    ||| c == '\u{205F}'
    ||| c == '\u{3000}'
}

/// `s` without its leading whitespace.
pub open spec fn trim_start(s: Seq<char>) -> Seq<char>
    decreases s.len(),
{
    if s.len() > 0 && is_ws(s[0]) {
        trim_start(s.drop_first())
    } else {
        s
    }
}

/// `s` without its trailing whitespace.
pub open spec fn trim_end(s: Seq<char>) -> Seq<char>
    decreases s.len(),
{
    if s.len() > 0 && is_ws(s.last()) {
        trim_end(s.drop_last())
    } else {
        s
    }
}

/// `s` without leading and trailing whitespace (`str::trim`).
pub open spec fn spec_trim(s: Seq<char>) -> Seq<char> {
    trim_end(trim_start(s))
}

/// Index of the first `c` in `s`, or `s.len()` when there is none.
pub open spec fn first_char(s: Seq<char>, c: char) -> nat
    decreases s.len(),
{
    if s.len() == 0 {
        0
    } else if s[0] == c {
        0
    } else {
        1 + first_char(s.drop_first(), c)
    }
}

/// Index of the first whitespace character in `s`, or `s.len()`.
pub open spec fn first_ws(s: Seq<char>) -> nat
    decreases s.len(),
{
    if s.len() == 0 {
        0
    } else if is_ws(s[0]) {
        0
    } else {
        1 + first_ws(s.drop_first())
    }
}

/// `str::split_once` on a single character: the text before and after the
/// first `c`.
pub open spec fn spec_split_once(s: Seq<char>, c: char) -> Option<(Seq<char>, Seq<char>)> {
    let i = first_char(s, c);
    if i < s.len() {
        Some((s.take(i as int), s.skip(i as int + 1)))
    } else {
        None
    }
}

/// Index of the first occurrence of `p` in `s`.
pub open spec fn find_pat(s: Seq<char>, p: Seq<char>) -> Option<nat>
    decreases s.len(),
{
    if spec_starts_with(s, p) {
        Some(0)
    } else if s.len() == 0 {
        None
    } else {
        match find_pat(s.drop_first(), p) {
            Some(i) => Some(i + 1),
            None => None,
        }
    }
}

/// `str::split_once` with a string pattern.
pub open spec fn spec_split_once_str(s: Seq<char>, p: Seq<char>) -> Option<(Seq<char>, Seq<char>)> {
    match find_pat(s, p) {
        Some(i) => Some((s.take(i as int), s.skip((i + p.len()) as int))),
        None => None,
    }
}

pub proof fn lemma_find_pat_bound(s: Seq<char>, p: Seq<char>)
    ensures
        find_pat(s, p) matches Some(i) ==> i + p.len() <= s.len(),
    decreases s.len(),
{
    if !spec_starts_with(s, p) && s.len() > 0 {
        lemma_find_pat_bound(s.drop_first(), p);
    }
}

/// `s` with one trailing carriage return removed.
pub open spec fn strip_cr(s: Seq<char>) -> Seq<char> {
    if s.len() > 0 && s.last() == '\r' {
        s.drop_last()
    } else {
        s
    }
}

/// `str::lines`: the pieces between line feeds, each without a trailing
/// `'\r'`; a final line feed does not start an empty last line.
pub open spec fn spec_lines(s: Seq<char>) -> Seq<Seq<char>>
    decreases s.len(),
{
    if s.len() == 0 {
        seq![]
    } else {
        let i = first_char(s, '\n');
        if i < s.len() {
            seq![strip_cr(s.take(i as int))] + spec_lines(s.skip(i as int + 1))
        } else {
            seq![s]
        }
    }
}

/// `str::split_whitespace`: the maximal runs of non-whitespace characters.
pub open spec fn spec_words(s: Seq<char>) -> Seq<Seq<char>>
    decreases s.len(),
{
    if s.len() == 0 {
        seq![]
    } else if is_ws(s[0]) {
        spec_words(s.drop_first())
    } else {
        let i = first_ws(s);
        proof {
            lemma_first_ws_bound(s);
        }
        seq![s.take(i as int)] + spec_words(s.skip(i as int))
    }
}

pub open spec fn spec_starts_with(s: Seq<char>, p: Seq<char>) -> bool {
    s.len() >= p.len() && s.take(p.len() as int) == p
}

pub open spec fn spec_ends_with(s: Seq<char>, p: Seq<char>) -> bool {
    s.len() >= p.len() && s.skip(s.len() - p.len()) == p
}

/// `str::strip_suffix`.
pub open spec fn spec_strip_suffix(s: Seq<char>, p: Seq<char>) -> Option<Seq<char>> {
    if spec_ends_with(s, p) {
        Some(s.take(s.len() - p.len()))
    } else {
        None
    }
}

/// `str::strip_prefix`.
pub open spec fn spec_strip_prefix(s: Seq<char>, p: Seq<char>) -> Option<Seq<char>> {
    if spec_starts_with(s, p) {
        Some(s.skip(p.len() as int))
    } else {
        None
    }
}

/// `p` occurs in `s` at position `i`.
pub open spec fn occurs_at(s: Seq<char>, p: Seq<char>, i: int) -> bool {
    0 <= i && i + p.len() <= s.len() && s.subrange(i, i + p.len()) == p
}

/// `str::contains` with a string pattern.
pub open spec fn spec_contains(s: Seq<char>, p: Seq<char>) -> bool {
    exists|i: int| occurs_at(s, p, i)
}

/// Value of `c` as a digit in `radix` (10 or 16), or -1.
pub open spec fn digit_val(c: char, radix: nat) -> int {
    if '0' <= c && c <= '9' {
        c as int - '0' as int
    } else if radix == 16 && 'a' <= c && c <= 'f' {
        c as int - 'a' as int + 10
    } else if radix == 16 && 'A' <= c && c <= 'F' {
        c as int - 'A' as int + 10
    } else {
        -1
    }
}

pub open spec fn all_digits(s: Seq<char>, radix: nat) -> bool {
    forall|i: int| 0 <= i < s.len() ==> digit_val(#[trigger] s[i], radix) >= 0
}

/// The number that the digits `s` denote in `radix`.
pub open spec fn digits_value(s: Seq<char>, radix: nat) -> nat
    decreases s.len(),
{
    if s.len() == 0 {
        0
    } else {
        (digits_value(s.drop_last(), radix) * radix + digit_val(s.last(), radix)) as nat
    }
}

/// Unsigned integer syntax of `from_str_radix`: an optional `+`, then at least
/// one digit; the value must not exceed `max`.
pub open spec fn spec_parse_unsigned(s: Seq<char>, radix: nat, max: int) -> Option<nat> {
    let d = if s.len() > 0 && s[0] == '+' {
        s.drop_first()
    } else {
        s
    };
    if d.len() > 0 && all_digits(d, radix) && digits_value(d, radix) <= max {
        Some(digits_value(d, radix))
    } else {
        None
    }
}

/// `str::parse::<i64>`: an optional sign, then at least one decimal digit,
/// within the range of `i64`.
pub open spec fn spec_parse_i64(s: Seq<char>) -> Option<int> {
    if s.len() > 0 && s[0] == '-' {
        let d = s.drop_first();
        if d.len() > 0 && all_digits(d, 10) && digits_value(d, 10) <= 0x8000_0000_0000_0000 {
            Some(-(digits_value(d, 10) as int))
        } else {
            None
        }
    } else {
        match spec_parse_unsigned(s, 10, i64::MAX as int) {
            Some(v) => Some(v as int),
            None => None,
        }
    }
}

pub open spec fn digit_char(d: nat) -> char {
    (d + '0' as nat) as char
}

/// The lowercase hexadecimal digit of `d` (below 16).
pub open spec fn hex_digit_char(d: nat) -> char {
    if d < 10 {
        digit_char(d)
    } else {
        (d - 10 + 'a' as nat) as char
    }
}

/// Lowercase hexadecimal notation of `n`, as `format!("{:x}", n)` writes it.
pub open spec fn lower_hex(n: nat) -> Seq<char>
    decreases n,
{
    if n < 16 {
        seq![hex_digit_char(n)]
    } else {
        lower_hex(n / 16).push(hex_digit_char(n % 16))
    }
}

/// Decimal notation of `n`, as `format!("{}", n)` writes it.
pub open spec fn decimal(n: nat) -> Seq<char>
    decreases n,
{
    if n < 10 {
        seq![digit_char(n)]
    } else {
        decimal(n / 10).push(digit_char(n % 10))
    }
}

/// Decimal notation of `n` padded with zeros to two digits (`{:02}`).
pub open spec fn decimal2(n: nat) -> Seq<char> {
    if n < 10 {
        seq!['0', digit_char(n)]
    } else {
        decimal(n)
    }
}

/// Lexicographic order of character sequences, by code point (the order of
/// `String`, whose UTF-8 bytes compare as the code points do).
pub open spec fn spec_lex_le(a: Seq<char>, b: Seq<char>) -> bool
    decreases a.len(),
{
    if a.len() == 0 {
        true
    } else if b.len() == 0 {
        false
    } else if a[0] != b[0] {
        (a[0] as int) < (b[0] as int)
    } else {
        spec_lex_le(a.drop_first(), b.drop_first())
    }
}

pub proof fn lemma_lex_total(a: Seq<char>, b: Seq<char>)
    ensures
        spec_lex_le(a, b) || spec_lex_le(b, a),
    decreases a.len(),
{
    if a.len() > 0 && b.len() > 0 {
        if a[0] == b[0] {
            lemma_lex_total(a.drop_first(), b.drop_first());
        } else {
            assert(a[0] as int != b[0] as int);
        }
    }
}

pub proof fn lemma_lex_antisym(a: Seq<char>, b: Seq<char>)
    requires
        spec_lex_le(a, b),
        spec_lex_le(b, a),
    ensures
        a == b,
    decreases a.len(),
{
    if a.len() > 0 && b.len() > 0 {
        lemma_lex_antisym(a.drop_first(), b.drop_first());
        assert(a =~= seq![a[0]] + a.drop_first());
        assert(b =~= seq![b[0]] + b.drop_first());
    } else {
        assert(a =~= b);
    }
}

pub proof fn lemma_lex_trans(a: Seq<char>, b: Seq<char>, c: Seq<char>)
    requires
        spec_lex_le(a, b),
        spec_lex_le(b, c),
    ensures
        spec_lex_le(a, c),
    decreases a.len(),
{
    if a.len() > 0 && b.len() > 0 && c.len() > 0 && a[0] == b[0] && b[0] == c[0] {
        lemma_lex_trans(a.drop_first(), b.drop_first(), c.drop_first());
    }
}

/// The views of `v` are, in order, `s`.
pub open spec fn views_are(v: Seq<Vec<char>>, s: Seq<Seq<char>>) -> bool {
    v.len() == s.len() && forall|i: int| 0 <= i < v.len() ==> #[trigger] v[i]@ == s[i]
}

/// What `str::to_lowercase` returns for `s` (Unicode case mapping).
pub uninterp spec fn lowercase_of(s: Seq<char>) -> Seq<char>;

// ---------------------------------------------------------------------------
// Lemmas
// ---------------------------------------------------------------------------

pub proof fn lemma_first_ws_bound(s: Seq<char>)
    ensures
        first_ws(s) <= s.len(),
        s.len() > 0 && !is_ws(s[0]) ==> first_ws(s) >= 1,
    decreases s.len(),
{
    if s.len() > 0 && !is_ws(s[0]) {
        lemma_first_ws_bound(s.drop_first());
    }
}

pub proof fn lemma_first_char_bound(s: Seq<char>, c: char)
    ensures
        first_char(s, c) <= s.len(),
        first_char(s, c) < s.len() ==> s[first_char(s, c) as int] == c,
    decreases s.len(),
{
    if s.len() > 0 && s[0] != c {
        lemma_first_char_bound(s.drop_first(), c);
    }
}

/// A longer run of digits is worth at least as much as its prefix.
pub proof fn lemma_digits_value_prefix(s: Seq<char>, radix: nat, k: int)
    requires
        radix >= 1,
        all_digits(s, radix),
        0 <= k <= s.len(),
    ensures
        digits_value(s.take(k), radix) <= digits_value(s, radix),
    decreases s.len(),
{
    if k == s.len() {
        assert(s.take(k) =~= s);
    } else {
        let t = s.drop_last();
        assert(digits_value(s, radix) == (digits_value(t, radix) * radix + digit_val(s.last(), radix)) as nat);
        assert(t.take(k) =~= s.take(k));
        lemma_digits_value_prefix(t, radix, k);
        let v = digits_value(t, radix);
        assert(v * radix >= v) by (nonlinear_arith)
            requires
                radix >= 1,
        ;
        assert(digit_val(s.last(), radix) >= 0);
    }
}

// ---------------------------------------------------------------------------
// Executable helpers
// ---------------------------------------------------------------------------

/// The characters of `s`, in order.
pub fn chars_of(s: &str) -> (v: Vec<char>)
    ensures
        v@ == s@,
{
    let mut v: Vec<char> = Vec::new();
    for c in it: s.chars()
        invariant
            v@ == it.seq().take(it.index() as int),
            it.seq() == s@,
    {
        v.push(c);
    }
    v
}

/// Appends `c` to `s` through `String::push`, which the standard library
/// documents as appending the character to the end of the string.
#[verifier::external_body]
fn push_char(s: &mut String, c: char)
    ensures
        final(s)@ == old(s)@.push(c),
{
    s.push(c);
}

/// `str::to_lowercase`; the contract names its result `lowercase_of`, the
/// Unicode lowercase mapping of the whole string, and says nothing more of it.
#[verifier::external_body]
pub(crate) fn to_lowercase(s: &str) -> (r: String)
    ensures
        r@ == lowercase_of(s@),
{
    s.to_lowercase()
}

/// Appends the characters `cs` to `s`.
pub fn push_chars(s: &mut String, cs: &[char])
    ensures
        final(s)@ == old(s)@ + cs@,
{
    for i in 0..cs.len()
        invariant
            s@ == old(s)@ + cs@.take(i as int),
    {
        push_char(s, cs[i]);
        assert(cs@.take(i + 1) == cs@.take(i as int).push(cs@[i as int]));
    }
    assert(cs@.take(cs@.len() as int) == cs@);
}

/// A `String` holding exactly the characters `cs`.
/// Appends the text `t` to `s`.
pub fn push_text(s: &mut String, t: &str)
    ensures
        final(s)@ == old(s)@ + t@,
{
    let cs = chars_of(t);
    push_chars(s, cs.as_slice());
}

pub fn string_from(cs: &[char]) -> (s: String)
    ensures
        s@ == cs@,
{
    let mut s = String::new();
    push_chars(&mut s, cs);
    s
}

/// Appends the decimal notation of `n` to `s`.
pub fn push_decimal(s: &mut String, n: u64)
    ensures
        final(s)@ == old(s)@ + decimal(n as nat),
    decreases n,
{
    if n >= 10 {
        push_decimal(s, n / 10);
    }
    let d = (n % 10) as u32;
    let c = char_from_digit(d);
    push_char(s, c);
    assert(decimal(n as nat) =~= if n < 10 {
        seq![digit_char(n as nat)]
    } else {
        decimal((n / 10) as nat).push(digit_char((n % 10) as nat))
    });
}

/// Appends `n` padded with zeros to two digits.
pub fn push_decimal2(s: &mut String, n: u64)
    ensures
        final(s)@ == old(s)@ + decimal2(n as nat),
{
    if n < 10 {
        push_char(s, '0');
    }
    let ghost mid = s@;
    push_decimal(s, n);
    if n < 10 {
        assert(decimal(n as nat) =~= seq![digit_char(n as nat)]);
    }
}

/// Appends the lowercase hexadecimal notation of `n` to `s`.
pub fn push_lower_hex(s: &mut String, n: u64)
    ensures
        final(s)@ == old(s)@ + lower_hex(n as nat),
    decreases n,
{
    if n >= 16 {
        push_lower_hex(s, n / 16);
    }
    let d = (n % 16) as u32;
    let c = hex_char(d);
    push_char(s, c);
    assert(lower_hex(n as nat) =~= if n < 16 {
        seq![hex_digit_char(n as nat)]
    } else {
        lower_hex((n / 16) as nat).push(hex_digit_char((n % 16) as nat))
    });
}

fn hex_char(d: u32) -> (c: char)
    requires
        d < 16,
    ensures
        c == hex_digit_char(d as nat),
{
    if d < 10 { char_from_digit(d) }
    else if d == 10 { 'a' }
    else if d == 11 { 'b' }
    else if d == 12 { 'c' }
    else if d == 13 { 'd' }
    else if d == 14 { 'e' }
    else { 'f' }
}

/// What `format!("{:?}", s)` gives for a string `s`: the text in double
/// quotes with quotes, backslashes and non-printable characters escaped.
pub uninterp spec fn debug_text_of(s: Seq<char>) -> Seq<char>;

/// `<str as Debug>::fmt` through `format!("{:?}", ..)`; the contract names its
/// result `debug_text_of`, the quoted and escaped text, and says nothing more
/// of it.
#[verifier::external_body]
pub(crate) fn debug_text(s: &str) -> (r: String)
    ensures
        r@ == debug_text_of(s@),
{
    format!("{:?}", s)
}

fn char_from_digit(d: u32) -> (c: char)
    requires
        d < 10,
    ensures
        c == digit_char(d as nat),
{
    if d == 0 { '0' }
    else if d == 1 { '1' }
    else if d == 2 { '2' }
    else if d == 3 { '3' }
    else if d == 4 { '4' }
    else if d == 5 { '5' }
    else if d == 6 { '6' }
    else if d == 7 { '7' }
    else if d == 8 { '8' }
    else { '9' }
}

/// `char::is_whitespace`.
pub fn is_whitespace(c: char) -> (r: bool)
    ensures
        r == is_ws(c),
{
    c == ' ' || ('\t' <= c && c <= '\r') || c == '\u{85}' || c == '\u{A0}' || c == '\u{1680}'
        || ('\u{2000}' <= c && c <= '\u{200A}') || c == '\u{2028}' || c == '\u{2029}' || c
        == '\u{202F}' || c == '\u{205F}' || c == '\u{3000}'
}

/// A copy of `v[a..b]`.
pub fn copy_range(v: &[char], a: usize, b: usize) -> (r: Vec<char>)
    requires
        a <= b <= v.len(),
    ensures
        r@ == v@.subrange(a as int, b as int),
{
    let mut r: Vec<char> = Vec::new();
    let mut i = a;
    while i < b
        invariant
            a <= i <= b <= v.len(),
            r@ == v@.subrange(a as int, i as int),
        decreases b - i,
    {
        r.push(v[i]);
        i = i + 1;
        assert(v@.subrange(a as int, i as int) == v@.subrange(a as int, i - 1).push(v@[i - 1]));
    }
    r
}

/// Whether `a` and `b` hold the same characters.
pub fn eq_chars(a: &[char], b: &[char]) -> (r: bool)
    ensures
        r == (a@ == b@),
{
    if a.len() != b.len() {
        return false;
    }
    for i in 0..a.len()
        invariant
            a.len() == b.len(),
            forall|j: int| 0 <= j < i ==> a@[j] == b@[j],
    {
        if a[i] != b[i] {
            return false;
        }
    }
    assert(a@ =~= b@);
    true
}

/// Whether the characters `a` spell the literal `lit`.
pub fn is_literal(a: &[char], lit: &str) -> (r: bool)
    ensures
        r == (a@ == lit@),
{
    let l = chars_of(lit);
    eq_chars(a, l.as_slice())
}

/// `first_char(v@, c)`.
pub fn find_char(v: &[char], c: char) -> (r: usize)
    ensures
        r == first_char(v@, c),
        r <= v.len(),
        r < v.len() ==> v@[r as int] == c,
{
    let mut i: usize = 0;
    assert(v@.skip(0) =~= v@);
    while i < v.len()
        invariant
            i <= v.len(),
            first_char(v@, c) == i + first_char(v@.skip(i as int), c),
            forall|j: int| 0 <= j < i ==> v@[j] != c,
        decreases v.len() - i,
    {
        if v[i] == c {
            return i;
        }
        assert(v@.skip(i as int).drop_first() =~= v@.skip(i + 1));
        i = i + 1;
    }
    i
}

/// `first_ws(v@)`.
pub fn find_ws(v: &[char]) -> (r: usize)
    ensures
        r == first_ws(v@),
        r <= v.len(),
{
    let mut i: usize = 0;
    assert(v@.skip(0) =~= v@);
    while i < v.len()
        invariant
            i <= v.len(),
            first_ws(v@) == i + first_ws(v@.skip(i as int)),
        decreases v.len() - i,
    {
        if is_whitespace(v[i]) {
            return i;
        }
        assert(v@.skip(i as int).drop_first() =~= v@.skip(i + 1));
        i = i + 1;
    }
    i
}

/// `str::trim`.
pub fn trim(v: &[char]) -> (r: Vec<char>)
    ensures
        r@ == spec_trim(v@),
{
    let mut a: usize = 0;
    assert(v@.skip(0) =~= v@);
    while a < v.len() && is_whitespace(v[a])
        invariant
            a <= v.len(),
            trim_start(v@) == trim_start(v@.skip(a as int)),
        decreases v.len() - a,
    {
        assert(v@.skip(a as int).drop_first() =~= v@.skip(a + 1));
        a = a + 1;
    }
    let ghost t = v@.skip(a as int);
    assert(trim_start(v@) == t);
    let mut b: usize = v.len();
    while b > a && is_whitespace(v[b - 1])
        invariant
            a <= b <= v.len(),
            t == v@.skip(a as int),
            trim_end(t) == trim_end(v@.subrange(a as int, b as int)),
        decreases b,
    {
        assert(v@.subrange(a as int, b as int).drop_last() =~= v@.subrange(a as int, b - 1));
        b = b - 1;
    }
    assert(v@.skip(a as int) =~= v@.subrange(a as int, v.len() as int));
    copy_range(v, a, b)
}

/// `s.starts_with(p)`.
pub fn starts_with(v: &[char], p: &[char]) -> (r: bool)
    ensures
        r == spec_starts_with(v@, p@),
{
    if v.len() < p.len() {
        return false;
    }
    let head = copy_range(v, 0, p.len());
    eq_chars(head.as_slice(), p)
}

/// `s.ends_with(p)`.
pub fn ends_with(v: &[char], p: &[char]) -> (r: bool)
    ensures
        r == spec_ends_with(v@, p@),
{
    if v.len() < p.len() {
        return false;
    }
    let tail = copy_range(v, v.len() - p.len(), v.len());
    assert(v@.skip(v@.len() - p@.len()) =~= v@.subrange(v.len() - p.len(), v.len() as int));
    eq_chars(tail.as_slice(), p)
}

/// `str::strip_prefix`.
pub fn strip_prefix(v: &[char], p: &[char]) -> (r: Option<Vec<char>>)
    ensures
        match r {
            Some(x) => spec_strip_prefix(v@, p@) == Some(x@),
            None => spec_strip_prefix(v@, p@) is None,
        },
{
    if starts_with(v, p) {
        let rest = copy_range(v, p.len(), v.len());
        assert(rest@ =~= v@.skip(p@.len() as int));
        Some(rest)
    } else {
        None
    }
}

/// `str::strip_suffix`.
pub fn strip_suffix(v: &[char], p: &[char]) -> (r: Option<Vec<char>>)
    ensures
        match r {
            Some(x) => spec_strip_suffix(v@, p@) == Some(x@),
            None => spec_strip_suffix(v@, p@) is None,
        },
{
    if ends_with(v, p) {
        let rest = copy_range(v, 0, v.len() - p.len());
        assert(rest@ =~= v@.take(v@.len() - p@.len()));
        Some(rest)
    } else {
        None
    }
}

/// `str::split_once` on a character.
pub fn split_once(v: &[char], c: char) -> (r: Option<(Vec<char>, Vec<char>)>)
    ensures
        match r {
            Some((a, b)) => spec_split_once(v@, c) == Some((a@, b@)),
            None => spec_split_once(v@, c) is None,
        },
{
    let i = find_char(v, c);
    if i < v.len() {
        let a = copy_range(v, 0, i);
        let b = copy_range(v, i + 1, v.len());
        assert(a@ =~= v@.take(i as int));
        assert(b@ =~= v@.skip(i + 1));
        Some((a, b))
    } else {
        None
    }
}

/// `str::split_once` with the string pattern `p`.
pub fn split_once_str(v: &[char], p: &[char]) -> (r: Option<(Vec<char>, Vec<char>)>)
    ensures
        match r {
            Some((a, b)) => spec_split_once_str(v@, p@) == Some((a@, b@)),
            None => spec_split_once_str(v@, p@) is None,
        },
{
    let mut i: usize = 0;
    assert(v@.skip(0) =~= v@);
    loop
        invariant
            i <= v.len(),
            find_pat(v@, p@) == match find_pat(v@.skip(i as int), p@) {
                Some(j) => Some((j + i) as nat),
                None => None,
            },
        decreases v.len() - i,
    {
        let rest = copy_range(v, i, v.len());
        assert(rest@ =~= v@.skip(i as int));
        if starts_with(rest.as_slice(), p) {
            assert(find_pat(v@, p@) == Some(i as nat));
            let a = copy_range(v, 0, i);
            let b = copy_range(v, i + p.len(), v.len());
            assert(a@ =~= v@.take(i as int));
            assert(b@ =~= v@.skip(i + p@.len()));
            return Some((a, b));
        }
        if i == v.len() {
            return None;
        }
        assert(v@.skip(i as int).drop_first() =~= v@.skip(i + 1));
        i = i + 1;
    }
}

/// `str::contains` with a string pattern.
pub fn contains(v: &[char], p: &[char]) -> (r: bool)
    ensures
        r == spec_contains(v@, p@),
{
    if p.len() > v.len() {
        assert forall|i: int| !occurs_at(v@, p@, i) by {}
        return false;
    }
    if p.len() == 0 {
        assert(v@.subrange(0, 0) =~= p@);
        assert(occurs_at(v@, p@, 0));
        return true;
    }
    let mut i: usize = 0;
    while i <= v.len() - p.len()
        invariant
            1 <= p.len() <= v.len(),
            i <= v.len() - p.len() + 1,
            forall|j: int| 0 <= j < i ==> !occurs_at(v@, p@, j),
        decreases v.len() - i,
    {
        let piece = copy_range(v, i, i + p.len());
        if eq_chars(piece.as_slice(), p) {
            assert(occurs_at(v@, p@, i as int));
            return true;
        }
        i = i + 1;
    }
    assert forall|j: int| !occurs_at(v@, p@, j) by {
        if 0 <= j && j + p@.len() <= v@.len() {
            assert(j < i);
        }
    }
    false
}

/// Whether the literal `p` occurs in `v`.
pub fn contains_literal(v: &[char], p: &str) -> (r: bool)
    ensures
        r == spec_contains(v@, p@),
{
    let pc = chars_of(p);
    contains(v, pc.as_slice())
}

/// `spec_lex_le(a@, b@)`.
pub fn lex_le(a: &[char], b: &[char]) -> (r: bool)
    ensures
        r == spec_lex_le(a@, b@),
{
    let mut i: usize = 0;
    assert(a@.skip(0) =~= a@ && b@.skip(0) =~= b@);
    while i < a.len() && i < b.len() && a[i] == b[i]
        invariant
            i <= a.len(),
            i <= b.len(),
            spec_lex_le(a@, b@) == spec_lex_le(a@.skip(i as int), b@.skip(i as int)),
        decreases a.len() - i,
    {
        assert(a@.skip(i as int).drop_first() =~= a@.skip(i + 1));
        assert(b@.skip(i as int).drop_first() =~= b@.skip(i + 1));
        i = i + 1;
    }
    if i == a.len() {
        true
    } else if i == b.len() {
        false
    } else {
        a[i] < b[i]
    }
}

/// `str::lines`.
pub fn lines(v: &[char]) -> (r: Vec<Vec<char>>)
    ensures
        views_are(r@, spec_lines(v@)),
{
    let mut out: Vec<Vec<char>> = Vec::new();
    let mut start: usize = 0;
    assert(v@.skip(0) =~= v@);
    while start < v.len()
        invariant
            start <= v.len(),
            out@.len() + spec_lines(v@.skip(start as int)).len() == spec_lines(v@).len(),
            forall|k: int| 0 <= k < out@.len() ==> #[trigger] out@[k]@ == spec_lines(v@)[k],
            forall|k: int|
                0 <= k < spec_lines(v@.skip(start as int)).len() ==> spec_lines(v@)[out@.len() + k]
                    == #[trigger] spec_lines(v@.skip(start as int))[k],
        decreases v.len() - start,
    {
        let ghost s = v@.skip(start as int);
        let rest = copy_range(v, start, v.len());
        assert(rest@ =~= s);
        let i = find_char(rest.as_slice(), '\n');
        if i < rest.len() {
            let mut line = copy_range(rest.as_slice(), 0, i);
            if line.len() > 0 && line[line.len() - 1] == '\r' {
                line.pop();
            }
            assert(line@ =~= strip_cr(s.take(i as int)));
            assert(s.skip(i + 1) =~= v@.skip(start + i + 1));
            assert(spec_lines(s) == seq![strip_cr(s.take(i as int))] + spec_lines(s.skip(i + 1)));
            let ghost before = out@.len();
            assert(spec_lines(v@)[before + 0int] == spec_lines(s)[0]);
            out.push(line);
            start = start + i + 1;
            assert forall|k: int|
                0 <= k < spec_lines(v@.skip(start as int)).len() implies spec_lines(v@)[out@.len() + k]
                == #[trigger] spec_lines(v@.skip(start as int))[k] by {
                assert(spec_lines(s)[k + 1] == spec_lines(v@.skip(start as int))[k]);
            }
        } else {
            assert(spec_lines(s) == seq![s]);
            assert(spec_lines(v@)[out@.len() + 0int] == spec_lines(s)[0]);
            out.push(rest);
            start = v.len();
            assert(v@.skip(start as int) =~= Seq::<char>::empty());
        }
    }
    assert(v@.skip(start as int) =~= Seq::<char>::empty());
    out
}

/// `str::split_whitespace`.
pub fn words(v: &[char]) -> (r: Vec<Vec<char>>)
    ensures
        views_are(r@, spec_words(v@)),
{
    let mut out: Vec<Vec<char>> = Vec::new();
    let mut start: usize = 0;
    assert(v@.skip(0) =~= v@);
    while start < v.len()
        invariant
            start <= v.len(),
            out@.len() + spec_words(v@.skip(start as int)).len() == spec_words(v@).len(),
            forall|k: int| 0 <= k < out@.len() ==> #[trigger] out@[k]@ == spec_words(v@)[k],
            forall|k: int|
                0 <= k < spec_words(v@.skip(start as int)).len() ==> spec_words(v@)[out@.len() + k]
                    == #[trigger] spec_words(v@.skip(start as int))[k],
        decreases v.len() - start,
    {
        let ghost s = v@.skip(start as int);
        if is_whitespace(v[start]) {
            assert(s.drop_first() =~= v@.skip(start + 1));
            start = start + 1;
        } else {
            let rest = copy_range(v, start, v.len());
            assert(rest@ =~= s);
            let i = find_ws(rest.as_slice());
            proof {
                lemma_first_ws_bound(s);
            }
            let w = copy_range(rest.as_slice(), 0, i);
            assert(w@ =~= s.take(i as int));
            assert(s.skip(i as int) =~= v@.skip(start + i));
            assert(spec_words(s) == seq![s.take(i as int)] + spec_words(s.skip(i as int)));
            assert(spec_words(v@)[out@.len() + 0int] == spec_words(s)[0]);
            out.push(w);
            start = start + i;
            assert forall|k: int|
                0 <= k < spec_words(v@.skip(start as int)).len() implies spec_words(v@)[out@.len() + k]
                == #[trigger] spec_words(v@.skip(start as int))[k] by {
                assert(spec_words(s)[k + 1] == spec_words(v@.skip(start as int))[k]);
            }
        }
    }
    assert(v@.skip(start as int) =~= Seq::<char>::empty());
    out
}

/// Value of the digit `c` in `radix`, or `None`.
pub fn to_digit(c: char, radix: u32) -> (r: Option<u32>)
    requires
        radix == 10 || radix == 16,
    ensures
        match r {
            Some(d) => digit_val(c, radix as nat) == d as int && d < radix,
            None => digit_val(c, radix as nat) < 0,
        },
{
    if '0' <= c && c <= '9' {
        Some((c as u32) - ('0' as u32))
    } else if radix == 16 && 'a' <= c && c <= 'f' {
        Some((c as u32) - ('a' as u32) + 10)
    } else if radix == 16 && 'A' <= c && c <= 'F' {
        Some((c as u32) - ('A' as u32) + 10)
    } else {
        None
    }
}

/// Digits `d` (no sign) in `radix`, if they are all digits and their value
/// does not exceed `max`.
fn parse_digits(d: &[char], radix: u32, max: u64) -> (r: Option<u64>)
    requires
        radix == 10 || radix == 16,
    ensures
        match r {
            Some(n) => d@.len() > 0 && all_digits(d@, radix as nat) && digits_value(
                d@,
                radix as nat,
            ) == n as nat && n <= max,
            None => !(d@.len() > 0 && all_digits(d@, radix as nat) && digits_value(
                d@,
                radix as nat,
            ) <= max),
        },
{
    if d.len() == 0 {
        return None;
    }
    let mut acc: u64 = 0;
    let mut i: usize = 0;
    while i < d.len()
        invariant
            radix == 10 || radix == 16,
            i <= d.len(),
            all_digits(d@.take(i as int), radix as nat),
            acc as nat == digits_value(d@.take(i as int), radix as nat),
            acc <= max,
        decreases d.len() - i,
    {
        let c = d[i];
        let dv = match to_digit(c, radix) {
            Some(x) => x,
            None => {
                assert(!all_digits(d@, radix as nat)) by {
                    assert(digit_val(d@[i as int], radix as nat) < 0);
                }
                return None;
            },
        };
        let ghost pre = d@.take(i as int);
        assert(d@.take(i + 1).drop_last() =~= pre);
        assert(d@.take(i + 1).last() == c);
        assert((acc as int) * (radix as int) + dv as int <= 0xffff_ffff_ffff_ffff * 16 + 16)
            by (nonlinear_arith)
            requires
                acc <= 0xffff_ffff_ffff_ffff,
                radix <= 16,
                dv < 16,
        ;
        let next: u128 = (acc as u128) * (radix as u128) + (dv as u128);
        assert(next as int == (acc as int) * (radix as int) + dv as int);
        if next > max as u128 {
            proof {
                assert(digits_value(d@.take(i + 1), radix as nat) == next as nat);
                if all_digits(d@, radix as nat) {
                    lemma_digits_value_prefix(d@, radix as nat, i + 1);
                }
            }
            return None;
        }
        acc = next as u64;
        i = i + 1;
        assert forall|j: int| 0 <= j < i implies digit_val(#[trigger] d@.take(i as int)[j], radix as nat)
            >= 0 by {
            if j < i - 1 {
                assert(d@.take(i as int)[j] == pre[j]);
            }
        }
    }
    assert(d@.take(d.len() as int) =~= d@);
    Some(acc)
}

/// `from_str_radix` for an unsigned type whose largest value is `max`.
pub fn parse_unsigned(s: &[char], radix: u32, max: u64) -> (r: Option<u64>)
    requires
        radix == 10 || radix == 16,
    ensures
        match r {
            Some(n) => spec_parse_unsigned(s@, radix as nat, max as int) == Some(n as nat),
            None => spec_parse_unsigned(s@, radix as nat, max as int) is None,
        },
{
    if s.len() > 0 && s[0] == '+' {
        let d = copy_range(s, 1, s.len());
        assert(d@ =~= s@.drop_first());
        parse_digits(d.as_slice(), radix, max)
    } else {
        parse_digits(s, radix, max)
    }
}

/// `str::parse::<i64>`.
pub fn parse_i64(s: &[char]) -> (r: Option<i64>)
    ensures
        match r {
            Some(n) => spec_parse_i64(s@) == Some(n as int),
            None => spec_parse_i64(s@) is None,
        },
{
    if s.len() > 0 && s[0] == '-' {
        let d = copy_range(s, 1, s.len());
        assert(d@ =~= s@.drop_first());
        match parse_digits(d.as_slice(), 10, 0x8000_0000_0000_0000) {
            Some(n) => {
                if n == 0x8000_0000_0000_0000 {
                    Some(i64::MIN)
                } else {
                    Some(-(n as i64))
                }
            },
            None => None,
        }
    } else {
        match parse_unsigned(s, 10, i64::MAX as u64) {
            Some(n) => Some(n as i64),
            None => None,
        }
    }
}

} // verus!
