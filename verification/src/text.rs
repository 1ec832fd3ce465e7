//! Character-level text primitives shared by the analyzers.
//!
//! Text is handled as a sequence of Unicode scalar values (`Seq<char>`);
//! every executable helper here is proved against a spec function that
//! describes the corresponding `str` operation of the standard library.
use vstd::prelude::*;

verus! {

// ───────────────────────────── specifications ─────────────────────────────

/// `char::is_whitespace`: the Unicode `White_Space` property.
pub open spec fn is_ws(c: char) -> bool {
    let u = c as u32;
    (0x09 <= u && u <= 0x0D) || u == 0x20 || u == 0x85 || u == 0xA0 || u == 0x1680 || (0x2000
        <= u && u <= 0x200A) || u == 0x2028 || u == 0x2029 || u == 0x202F || u == 0x205F || u
        == 0x3000
}

/// `str::trim_start`.
pub open spec fn trim_start(s: Seq<char>) -> Seq<char>
    decreases s.len(),
{
    if s.len() > 0 && is_ws(s[0]) {
        trim_start(s.drop_first())
    } else {
        s
    }
}

/// `str::trim_end`.
pub open spec fn trim_end(s: Seq<char>) -> Seq<char>
    decreases s.len(),
{
    if s.len() > 0 && is_ws(s.last()) {
        trim_end(s.drop_last())
    } else {
        s
    }
}

/// `str::trim`.
pub open spec fn trim(s: Seq<char>) -> Seq<char> {
    trim_end(trim_start(s))
}

/// `str::trim_start_matches` with a single character.
pub open spec fn trim_start_char(s: Seq<char>, c: char) -> Seq<char>
    decreases s.len(),
{
    if s.len() > 0 && s[0] == c {
        trim_start_char(s.drop_first(), c)
    } else {
        s
    }
}

/// `str::trim_end_matches` with a single character.
pub open spec fn trim_end_char(s: Seq<char>, c: char) -> Seq<char>
    decreases s.len(),
{
    if s.len() > 0 && s.last() == c {
        trim_end_char(s.drop_last(), c)
    } else {
        s
    }
}

/// `str::trim_matches` with a single character.
pub open spec fn trim_char(s: Seq<char>, c: char) -> Seq<char> {
    trim_end_char(trim_start_char(s, c), c)
}

/// `str::starts_with`.
pub open spec fn starts_with(s: Seq<char>, p: Seq<char>) -> bool {
    p.len() <= s.len() && s.subrange(0, p.len() as int) == p
}

/// `str::ends_with`.
pub open spec fn ends_with(s: Seq<char>, p: Seq<char>) -> bool {
    p.len() <= s.len() && s.subrange(s.len() - p.len(), s.len() as int) == p
}

/// `p` occurs in `s` starting at position `i`.
pub open spec fn occurs_at(s: Seq<char>, p: Seq<char>, i: int) -> bool {
    0 <= i && i + p.len() <= s.len() && s.subrange(i, i + p.len()) == p
}

/// First occurrence of `p` in `s` at or after `i`.
pub open spec fn find_from(s: Seq<char>, p: Seq<char>, i: int) -> Option<int>
    decreases s.len() - i,
{
    if i < 0 || i + p.len() > s.len() {
        None
    } else if occurs_at(s, p, i) {
        Some(i)
    } else if i >= s.len() {
        None
    } else {
        find_from(s, p, i + 1)
    }
}

/// `str::find` with a string pattern (as a character index).
pub open spec fn find(s: Seq<char>, p: Seq<char>) -> Option<int> {
    find_from(s, p, 0)
}

/// `str::split_once` with a string pattern (also `splitn(2, p)` when it
/// yields two pieces).
pub open spec fn split_once(s: Seq<char>, p: Seq<char>) -> Option<(Seq<char>, Seq<char>)> {
    match find(s, p) {
        Some(i) => Some((s.subrange(0, i), s.subrange(i + p.len(), s.len() as int))),
        None => None,
    }
}

/// `str::contains` with a string pattern.
pub open spec fn contains(s: Seq<char>, p: Seq<char>) -> bool {
    find(s, p) is Some
}

/// Last occurrence of `p` in `s` starting at or before `i`.
pub open spec fn rfind_upto(s: Seq<char>, p: Seq<char>, i: int) -> Option<int>
    decreases i + 1,
{
    if i < 0 {
        None
    } else if occurs_at(s, p, i) {
        Some(i)
    } else {
        rfind_upto(s, p, i - 1)
    }
}

/// `str::rfind` with a string pattern (as a character index).
pub open spec fn rfind(s: Seq<char>, p: Seq<char>) -> Option<int> {
    rfind_upto(s, p, s.len() - p.len())
}

/// First index of a character in `s` at or after `i`.
pub open spec fn char_index_from(s: Seq<char>, c: char, i: int) -> Option<int>
    decreases s.len() - i,
{
    if i < 0 || i >= s.len() {
        None
    } else if s[i] == c {
        Some(i)
    } else {
        char_index_from(s, c, i + 1)
    }
}

/// `str::find` with a character pattern.
pub open spec fn char_index(s: Seq<char>, c: char) -> Option<int> {
    char_index_from(s, c, 0)
}

/// `str::contains` with a character pattern.
pub open spec fn contains_char(s: Seq<char>, c: char) -> bool {
    char_index(s, c) is Some
}

/// Last index of a character in `s` at or before `i`.
pub open spec fn char_rindex_upto(s: Seq<char>, c: char, i: int) -> Option<int>
    decreases i + 1,
{
    if i < 0 || i >= s.len() {
        None
    } else if s[i] == c {
        Some(i)
    } else {
        char_rindex_upto(s, c, i - 1)
    }
}

/// `str::rfind` with a character pattern.
pub open spec fn char_rindex(s: Seq<char>, c: char) -> Option<int> {
    char_rindex_upto(s, c, s.len() - 1)
}

/// `s.split(c).next().unwrap()`: the text before the first `c`.
pub open spec fn before_char(s: Seq<char>, c: char) -> Seq<char> {
    match char_index(s, c) {
        Some(i) => s.subrange(0, i),
        None => s,
    }
}

/// `s.split(c).last().unwrap()` (equivalently `s.rsplit(c).next().unwrap()`):
/// the text after the last `c`.
pub open spec fn after_last_char(s: Seq<char>, c: char) -> Seq<char> {
    match char_rindex(s, c) {
        Some(i) => s.subrange(i + 1, s.len() as int),
        None => s,
    }
}

/// `s.rsplit(p).next().unwrap()` for a non-empty string pattern.
pub open spec fn after_last_str(s: Seq<char>, p: Seq<char>) -> Seq<char> {
    match rfind(s, p) {
        Some(i) => s.subrange(i + p.len(), s.len() as int),
        None => s,
    }
}

/// First index at or after `i` holding one of the characters of `set`.
pub open spec fn any_index_from(s: Seq<char>, set: Seq<char>, i: int) -> Option<int>
    decreases s.len() - i,
{
    if i < 0 || i >= s.len() {
        None
    } else if set.contains(s[i]) {
        Some(i)
    } else {
        any_index_from(s, set, i + 1)
    }
}

/// `s.split(&set[..]).next().unwrap()`: the text before the first character of `set`.
pub open spec fn before_any(s: Seq<char>, set: Seq<char>) -> Seq<char> {
    match any_index_from(s, set, 0) {
        Some(i) => s.subrange(0, i),
        None => s,
    }
}

/// `str::split` with a character pattern: every piece, in order.
pub open spec fn split_char(s: Seq<char>, c: char) -> Seq<Seq<char>>
    decreases s.len(),
{
    match char_index(s, c) {
        Some(i) => if 0 <= i < s.len() {
            seq![s.subrange(0, i)] + split_char(s.subrange(i + 1, s.len() as int), c)
        } else {
            seq![s]
        },
        None => seq![s],
    }
}

/// The texts of a list of strings.
pub open spec fn texts(v: Seq<String>) -> Seq<Seq<char>> {
    v.map_values(|s: String| s@)
}

/// Removes one trailing carriage return.
pub open spec fn strip_cr(s: Seq<char>) -> Seq<char> {
    if s.len() > 0 && s.last() == '\r' {
        s.drop_last()
    } else {
        s
    }
}

/// `str::lines`: split at `\n`, drop a `\r` that precedes the `\n`, and
/// produce no empty line after a final line ending.
pub open spec fn lines(s: Seq<char>) -> Seq<Seq<char>>
    decreases s.len(),
{
    if s.len() == 0 {
        seq![]
    } else {
        match char_index(s, '\n') {
            Some(i) => if 0 <= i < s.len() {
                seq![strip_cr(s.subrange(0, i))] + lines(s.subrange(i + 1, s.len() as int))
            } else {
                seq![s]
            },
            None => seq![s],
        }
    }
}

/// `items.join(sep)`: the items with `sep` between neighbours.
pub open spec fn join(items: Seq<Seq<char>>, sep: Seq<char>) -> Seq<char>
    decreases items.len(),
{
    if items.len() == 0 {
        seq![]
    } else if items.len() == 1 {
        items[0]
    } else {
        join(items.drop_last(), sep) + sep + items.last()
    }
}

/// The end of the word that starts at `i`: the first whitespace at or after
/// `i`, or the end of `s`.
pub open spec fn word_end(s: Seq<char>, i: int) -> int
    decreases s.len() - i,
{
    if i < 0 || i >= s.len() || is_ws(s[i]) {
        i
    } else {
        word_end(s, i + 1)
    }
}

/// Bounds of a word's end.
pub proof fn lemma_word_end(s: Seq<char>, i: int)
    requires
        0 <= i <= s.len(),
    ensures
        i <= word_end(s, i) <= s.len(),
        i < s.len() && !is_ws(s[i]) ==> word_end(s, i) > i,
        forall|k: int| i <= k < word_end(s, i) ==> !is_ws(#[trigger] s[k]),
        word_end(s, i) < s.len() ==> is_ws(s[word_end(s, i)]),
    decreases s.len() - i,
{
    if i < s.len() && !is_ws(s[i]) {
        lemma_word_end(s, i + 1);
    }
}

/// `str::split_whitespace` from index `i`: the maximal runs of
/// non-whitespace characters, in order.
pub open spec fn words_from(s: Seq<char>, i: int) -> Seq<Seq<char>>
    decreases s.len() - i,
{
    if i < 0 || i >= s.len() {
        seq![]
    } else if is_ws(s[i]) {
        words_from(s, i + 1)
    } else {
        let j = word_end(s, i);
        proof {
            lemma_word_end(s, i);
        }
        seq![s.subrange(i, j)] + words_from(s, j)
    }
}

/// `str::split_whitespace`.
pub open spec fn words(s: Seq<char>) -> Seq<Seq<char>> {
    words_from(s, 0)
}

/// `s.lines().next().unwrap_or("")`.
pub open spec fn first_line(s: Seq<char>) -> Seq<char> {
    if lines(s).len() > 0 {
        lines(s)[0]
    } else {
        seq![]
    }
}

/// Decimal rendering of a natural number (`usize::to_string`).
pub open spec fn decimal(n: nat) -> Seq<char>
    decreases n,
{
    if n < 10 {
        seq![digit_char(n)]
    } else {
        decimal(n / 10).push(digit_char(n % 10))
    }
}

/// Lower-case hexadecimal rendering of a natural number.
pub open spec fn hex_digits(n: nat) -> Seq<char>
    decreases n,
{
    if n < 16 {
        seq![hex_char(n)]
    } else {
        hex_digits(n / 16).push(hex_char(n % 16))
    }
}

/// The lower-case hexadecimal digit for `d < 16`.
pub open spec fn hex_char(d: nat) -> char {
    if d < 10 {
        digit_char(d)
    } else if d == 10 {
        'a'
    } else if d == 11 {
        'b'
    } else if d == 12 {
        'c'
    } else if d == 13 {
        'd'
    } else if d == 14 {
        'e'
    } else {
        'f'
    }
}

/// The ASCII digit for `d < 10`.
pub open spec fn digit_char(d: nat) -> char {
    if d == 0 {
        '0'
    } else if d == 1 {
        '1'
    } else if d == 2 {
        '2'
    } else if d == 3 {
        '3'
    } else if d == 4 {
        '4'
    } else if d == 5 {
        '5'
    } else if d == 6 {
        '6'
    } else if d == 7 {
        '7'
    } else if d == 8 {
        '8'
    } else {
        '9'
    }
}

// ───────────────────────────── lemmas ─────────────────────────────

/// A line produced by `lines` is no longer than the text, and there are
/// no more lines than characters.
pub proof fn lemma_lines_len(s: Seq<char>)
    ensures
        lines(s).len() <= s.len(),
    decreases s.len(),
{
    if s.len() > 0 {
        match char_index(s, '\n') {
            Some(i) => if 0 <= i < s.len() {
                lemma_lines_len(s.subrange(i + 1, s.len() as int));
            },
            None => {},
        }
    }
}

proof fn lemma_char_index_from_bounds(s: Seq<char>, c: char, i: int)
    requires
        0 <= i,
    ensures
        char_index_from(s, c, i) matches Some(k) ==> i <= k < s.len() && s[k] == c,
        char_index_from(s, c, i) is None ==> forall|k: int| i <= k < s.len() ==> s[k] != c,
    decreases s.len() - i,
{
    if i < 0 || i >= s.len() {
    } else if s[i] == c {
    } else {
        lemma_char_index_from_bounds(s, c, i + 1);
        assert(char_index_from(s, c, i) == char_index_from(s, c, i + 1));
        if char_index_from(s, c, i) is None {
            assert forall|k: int| i <= k < s.len() implies s[k] != c by {
                if k > i {
                    assert(s[k] != c);
                }
            }
        }
    }
}

/// Properties of the first index of a character.
pub proof fn lemma_char_index(s: Seq<char>, c: char)
    ensures
        char_index(s, c) matches Some(k) ==> 0 <= k < s.len() && s[k] == c && forall|j: int|
            0 <= j < k ==> s[j] != c,
        char_index(s, c) is None ==> forall|k: int| 0 <= k < s.len() ==> s[k] != c,
{
    lemma_char_index_from_bounds(s, c, 0);
    if let Some(k) = char_index(s, c) {
        lemma_char_index_before(s, c, 0, k);
    }
}

proof fn lemma_char_index_before(s: Seq<char>, c: char, i: int, k: int)
    requires
        0 <= i,
        char_index_from(s, c, i) == Some(k),
    ensures
        forall|j: int| i <= j < k ==> s[j] != c,
    decreases s.len() - i,
{
    if i < s.len() && s[i] != c {
        lemma_char_index_before(s, c, i + 1, k);
    }
}

/// Starting with a one-character pattern means a matching first character.
pub proof fn lemma_starts_with_char(s: Seq<char>, c: char)
    ensures
        starts_with(s, seq![c]) == (s.len() > 0 && s[0] == c),
{
    if s.len() > 0 {
        if s[0] == c {
            assert(s.subrange(0, 1) =~= seq![c]);
        } else {
            assert(s.subrange(0, 1)[0] != seq![c][0]);
        }
    }
}

/// Ending with a one-character pattern means a matching last character.
pub proof fn lemma_ends_with_char(s: Seq<char>, c: char)
    ensures
        ends_with(s, seq![c]) == (s.len() > 0 && s.last() == c),
{
    if s.len() > 0 {
        if s.last() == c {
            assert(s.subrange(s.len() - 1, s.len() as int) =~= seq![c]);
        } else {
            assert(s.subrange(s.len() - 1, s.len() as int)[0] != seq![c][0]);
        }
    }
}

// ───────────────────────────── executable helpers ─────────────────────────────

/// The characters of a string slice.
pub fn chars_of(s: &str) -> (v: Vec<char>)
    ensures
        v@ == s@,
{
    let mut v: Vec<char> = Vec::new();
    for c in it: s.chars()
        invariant
            v@ == it.seq().take(it.index() as int),
    {
        v.push(c);
    }
    v
}

/// Calls `std::str::from_utf8` (std): `Ok` exactly when the bytes are
/// valid UTF-8, with the decoded text; the error is rendered as its message.
#[verifier::external_body]
pub fn str_from_utf8(data: &[u8]) -> (r: Result<&str, String>)
    ensures
        r is Ok == vstd::utf8::valid_utf8(data@),
        r matches Ok(s) ==> s@ == vstd::utf8::decode_utf8(data@),
{
    match std::str::from_utf8(data) {
        Ok(s) => Ok(s),
        Err(e) => Err(e.to_string()),
    }
}

/// Appends a character to a `String` (`String::push`).
#[verifier::external_body]
fn push_char(s: &mut String, c: char)
    ensures
        final(s)@ == old(s)@.push(c),
{
    s.push(c);
}

/// Builds a `String` from characters.
pub fn string_of(v: &[char]) -> (s: String)
    ensures
        s@ == v@,
{
    let mut s = String::new();
    let mut i: usize = 0;
    while i < v.len()
        invariant
            i <= v@.len(),
            s@ == v@.subrange(0, i as int),
        decreases v@.len() - i,
    {
        push_char(&mut s, v[i]);
        i += 1;
        assert(v@.subrange(0, i as int) == v@.subrange(0, i - 1).push(v@[i - 1]));
    }
    assert(v@.subrange(0, v@.len() as int) == v@);
    s
}

/// Appends the characters of `p` to `s`.
pub fn append_chars(s: &mut String, p: &[char])
    ensures
        final(s)@ == old(s)@ + p@,
{
    let mut i: usize = 0;
    while i < p.len()
        invariant
            i <= p@.len(),
            s@ == old(s)@ + p@.subrange(0, i as int),
        decreases p@.len() - i,
    {
        push_char(s, p[i]);
        i += 1;
        assert(p@.subrange(0, i as int) == p@.subrange(0, i - 1).push(p@[i - 1]));
    }
    assert(p@.subrange(0, p@.len() as int) == p@);
}

/// Whether two string slices hold the same text.
pub fn same_text(a: &str, b: &str) -> (r: bool)
    ensures
        r == (a@ == b@),
{
    let x = chars_of(a);
    let y = chars_of(b);
    same_chars(x.as_slice(), y.as_slice())
}

/// Whether two character slices are equal.
pub fn same_chars(x: &[char], y: &[char]) -> (r: bool)
    ensures
        r == (x@ == y@),
{
    if x.len() != y.len() {
        return false;
    }
    let mut i: usize = 0;
    while i < x.len()
        invariant
            x@.len() == y@.len(),
            i <= x@.len(),
            forall|j: int| 0 <= j < i ==> x@[j] == y@[j],
        decreases x@.len() - i,
    {
        if x[i] != y[i] {
            return false;
        }
        i += 1;
    }
    assert(x@ =~= y@);
    true
}

/// `char::is_whitespace`.
pub fn is_whitespace(c: char) -> (r: bool)
    ensures
        r == is_ws(c),
{
    let u = c as u32;
    (0x09 <= u && u <= 0x0D) || u == 0x20 || u == 0x85 || u == 0xA0 || u == 0x1680 || (0x2000
        <= u && u <= 0x200A) || u == 0x2028 || u == 0x2029 || u == 0x202F || u == 0x205F || u
        == 0x3000
}

/// Bounds `(a, b)` such that `s[a..b]` is `trim(s)`.
pub fn trim_bounds(s: &[char]) -> (r: (usize, usize))
    ensures
        r.0 <= r.1 <= s@.len(),
        s@.subrange(r.0 as int, r.1 as int) == trim(s@),
        s@.subrange(r.0 as int, s@.len() as int) == trim_start(s@),
{
    let mut a: usize = 0;
    assert(s@.subrange(0, s@.len() as int) == s@);
    while a < s.len() && is_whitespace(s[a])
        invariant
            a <= s@.len(),
            trim_start(s@) == trim_start(s@.subrange(a as int, s@.len() as int)),
        decreases s@.len() - a,
    {
        assert(s@.subrange(a as int, s@.len() as int).drop_first() == s@.subrange(
            a + 1,
            s@.len() as int,
        ));
        a += 1;
    }
    let ghost ts = s@.subrange(a as int, s@.len() as int);
    assert(trim_start(ts) == ts);
    let mut b: usize = s.len();
    while b > a && is_whitespace(s[b - 1])
        invariant
            a <= b <= s@.len(),
            trim_end(ts) == trim_end(s@.subrange(a as int, b as int)),
            ts == s@.subrange(a as int, s@.len() as int),
        decreases b,
    {
        assert(s@.subrange(a as int, b as int).drop_last() == s@.subrange(a as int, b - 1));
        b -= 1;
    }
    (a, b)
}

/// `str::trim` on a character slice.
pub fn trimmed(s: &[char]) -> (r: &[char])
    ensures
        r@ == trim(s@),
{
    let (a, b) = trim_bounds(s);
    &s[a..b]
}

/// `str::trim_start` on a character slice.
pub fn trimmed_start(s: &[char]) -> (r: &[char])
    ensures
        r@ == trim_start(s@),
{
    let (a, _b) = trim_bounds(s);
    &s[a..s.len()]
}

/// `str::trim_start_matches` with one character.
pub fn trimmed_start_char(s: &[char], c: char) -> (r: &[char])
    ensures
        r@ == trim_start_char(s@, c),
{
    let mut a: usize = 0;
    assert(s@.subrange(0, s@.len() as int) == s@);
    while a < s.len() && s[a] == c
        invariant
            a <= s@.len(),
            trim_start_char(s@, c) == trim_start_char(s@.subrange(a as int, s@.len() as int), c),
        decreases s@.len() - a,
    {
        assert(s@.subrange(a as int, s@.len() as int).drop_first() == s@.subrange(
            a + 1,
            s@.len() as int,
        ));
        a += 1;
    }
    &s[a..s.len()]
}

/// `str::trim_end_matches` with one character.
pub fn trimmed_end_char(s: &[char], c: char) -> (r: &[char])
    ensures
        r@ == trim_end_char(s@, c),
{
    let mut b: usize = s.len();
    assert(s@.subrange(0, s@.len() as int) == s@);
    while b > 0 && s[b - 1] == c
        invariant
            b <= s@.len(),
            trim_end_char(s@, c) == trim_end_char(s@.subrange(0, b as int), c),
        decreases b,
    {
        assert(s@.subrange(0, b as int).drop_last() == s@.subrange(0, b - 1));
        b -= 1;
    }
    &s[0..b]
}

/// `str::trim_matches` with one character.
pub fn trimmed_char(s: &[char], c: char) -> (r: &[char])
    ensures
        r@ == trim_char(s@, c),
{
    let t = trimmed_start_char(s, c);
    trimmed_end_char(t, c)
}

/// Whether `s` starts with the characters `p`.
pub fn starts_with_chars(s: &[char], p: &[char]) -> (r: bool)
    ensures
        r == starts_with(s@, p@),
{
    if p.len() > s.len() {
        return false;
    }
    let mut i: usize = 0;
    while i < p.len()
        invariant
            p@.len() <= s@.len(),
            i <= p@.len(),
            forall|j: int| 0 <= j < i ==> s@[j] == p@[j],
        decreases p@.len() - i,
    {
        if s[i] != p[i] {
            assert(s@.subrange(0, p@.len() as int)[i as int] != p@[i as int]);
            return false;
        }
        i += 1;
    }
    assert(s@.subrange(0, p@.len() as int) =~= p@);
    true
}

/// `str::starts_with` with a literal pattern.
pub fn starts_with_str(s: &[char], p: &str) -> (r: bool)
    ensures
        r == starts_with(s@, p@),
{
    let pc = chars_of(p);
    starts_with_chars(s, pc.as_slice())
}

/// `str::ends_with` with a literal pattern.
pub fn ends_with_str(s: &[char], p: &str) -> (r: bool)
    ensures
        r == ends_with(s@, p@),
{
    let pc = chars_of(p);
    if pc.len() > s.len() {
        return false;
    }
    let start = s.len() - pc.len();
    same_chars(&s[start..s.len()], pc.as_slice())
}

/// `str::strip_prefix` with a literal pattern.
pub fn strip_prefix_str<'a>(s: &'a [char], p: &str) -> (r: Option<&'a [char]>)
    ensures
        r is Some == starts_with(s@, p@),
        r matches Some(t) ==> t@ == s@.subrange(p@.len() as int, s@.len() as int),
{
    let pc = chars_of(p);
    if starts_with_chars(s, pc.as_slice()) {
        Some(&s[pc.len()..s.len()])
    } else {
        None
    }
}

/// Whether `p` occurs in `s` at position `i`.
fn occurs_at_exec(s: &[char], p: &[char], i: usize) -> (r: bool)
    ensures
        r == occurs_at(s@, p@, i as int),
{
    if i > s.len() || p.len() > s.len() - i {
        return false;
    }
    let mut j: usize = 0;
    while j < p.len()
        invariant
            s@.len() <= usize::MAX,
            i <= s@.len(),
            i + p@.len() <= s@.len(),
            j <= p@.len(),
            forall|k: int| 0 <= k < j ==> s@[i + k] == p@[k],
        decreases p@.len() - j,
    {
        assert(j < p@.len());
        if s[i + j] != p[j] {
            assert(s@.subrange(i as int, i + p@.len())[j as int] != p@[j as int]);
            return false;
        }
        j += 1;
    }
    assert(s@.subrange(i as int, i + p@.len()) =~= p@);
    true
}

/// `str::find` with a character-sequence pattern.
pub fn find_chars(s: &[char], p: &[char]) -> (r: Option<usize>)
    ensures
        match r {
            Some(i) => find(s@, p@) == Some(i as int),
            None => find(s@, p@) is None,
        },
{
    let mut i: usize = 0;
    while i <= s.len()
        invariant
            i <= s@.len() + 1,
            find(s@, p@) == find_from(s@, p@, i as int),
        decreases s@.len() + 1 - i,
    {
        if p.len() > s.len() - i {
            return None;
        }
        if occurs_at_exec(s, p, i) {
            return Some(i);
        }
        if i == s.len() {
            return None;
        }
        i += 1;
    }
    None
}

/// `str::find` with a literal pattern.
pub fn find_str(s: &[char], p: &str) -> (r: Option<usize>)
    ensures
        match r {
            Some(i) => find(s@, p@) == Some(i as int),
            None => find(s@, p@) is None,
        },
{
    let pc = chars_of(p);
    find_chars(s, pc.as_slice())
}

proof fn lemma_find_from_bounds(s: Seq<char>, p: Seq<char>, i: int)
    ensures
        find_from(s, p, i) matches Some(k) ==> occurs_at(s, p, k),
    decreases s.len() - i,
{
    if i < 0 || i + p.len() > s.len() {
    } else if occurs_at(s, p, i) {
    } else if i >= s.len() {
    } else {
        lemma_find_from_bounds(s, p, i + 1);
    }
}

/// The first occurrence found by `find` is an occurrence.
pub proof fn lemma_find_bounds(s: Seq<char>, p: Seq<char>)
    ensures
        find(s, p) matches Some(k) ==> occurs_at(s, p, k),
{
    lemma_find_from_bounds(s, p, 0);
}

/// `str::split_once` with a literal pattern.
pub fn split_once_str<'a>(s: &'a [char], p: &str) -> (r: Option<(&'a [char], &'a [char])>)
    ensures
        match r {
            Some((a, b)) => split_once(s@, p@) == Some((a@, b@)),
            None => split_once(s@, p@) is None,
        },
{
    let pc = chars_of(p);
    match find_chars(s, pc.as_slice()) {
        Some(i) => {
            proof {
                lemma_find_bounds(s@, p@);
            }
            let n = s.len();
            assert(i + pc@.len() <= n);
            Some((&s[0..i], &s[i + pc.len()..n]))
        },
        None => None,
    }
}

/// `str::contains` with a literal pattern.
pub fn contains_str(s: &[char], p: &str) -> (r: bool)
    ensures
        r == contains(s@, p@),
{
    find_str(s, p).is_some()
}

/// `str::rfind` with a literal pattern.
pub fn rfind_str(s: &[char], p: &str) -> (r: Option<usize>)
    ensures
        match r {
            Some(i) => rfind(s@, p@) == Some(i as int),
            None => rfind(s@, p@) is None,
        },
{
    let pc = chars_of(p);
    if pc.len() > s.len() {
        return None;
    }
    let mut i: usize = s.len() - pc.len();
    loop
        invariant
            pc@ == p@,
            i + pc@.len() <= s@.len(),
            rfind(s@, p@) == rfind_upto(s@, p@, i as int),
        decreases i,
    {
        if occurs_at_exec(s, pc.as_slice(), i) {
            return Some(i);
        }
        if i == 0 {
            assert(rfind_upto(s@, p@, -1) is None);
            return None;
        }
        i -= 1;
    }
}

/// First index of a character.
pub fn char_index_exec(s: &[char], c: char) -> (r: Option<usize>)
    ensures
        match r {
            Some(i) => char_index(s@, c) == Some(i as int),
            None => char_index(s@, c) is None,
        },
{
    let mut i: usize = 0;
    while i < s.len()
        invariant
            i <= s@.len(),
            char_index(s@, c) == char_index_from(s@, c, i as int),
        decreases s@.len() - i,
    {
        if s[i] == c {
            return Some(i);
        }
        i += 1;
    }
    None
}

/// `str::contains` with a character pattern.
pub fn contains_char_exec(s: &[char], c: char) -> (r: bool)
    ensures
        r == contains_char(s@, c),
{
    char_index_exec(s, c).is_some()
}

/// Last index of a character.
pub fn char_rindex_exec(s: &[char], c: char) -> (r: Option<usize>)
    ensures
        match r {
            Some(i) => char_rindex(s@, c) == Some(i as int),
            None => char_rindex(s@, c) is None,
        },
{
    let mut i: usize = s.len();
    while i > 0
        invariant
            i <= s@.len(),
            char_rindex(s@, c) == char_rindex_upto(s@, c, i - 1),
        decreases i,
    {
        if s[i - 1] == c {
            return Some(i - 1);
        }
        i -= 1;
    }
    None
}

/// `s.split(c).next().unwrap()`.
pub fn before_char_exec(s: &[char], c: char) -> (r: &[char])
    ensures
        r@ == before_char(s@, c),
{
    proof {
        lemma_char_index(s@, c);
    }
    match char_index_exec(s, c) {
        Some(i) => &s[0..i],
        None => s,
    }
}

/// `s.split(c).last().unwrap()`.
pub fn after_last_char_exec(s: &[char], c: char) -> (r: &[char])
    ensures
        r@ == after_last_char(s@, c),
{
    match char_rindex_exec(s, c) {
        Some(i) => {
            proof {
                lemma_char_rindex_bounds(s@, c, s@.len() - 1);
            }
            let n = s.len();
            assert(i < n);
            &s[i + 1..n]
        },
        None => s,
    }
}

proof fn lemma_char_rindex_bounds(s: Seq<char>, c: char, i: int)
    ensures
        char_rindex_upto(s, c, i) matches Some(k) ==> 0 <= k <= i && k < s.len(),
    decreases i + 1,
{
    if i >= 0 && i < s.len() && s[i] != c {
        lemma_char_rindex_bounds(s, c, i - 1);
    }
}

/// `s.rsplit(p).next().unwrap()` for a literal pattern.
pub fn after_last_str_exec<'a>(s: &'a [char], p: &str) -> (r: &'a [char])
    ensures
        r@ == after_last_str(s@, p@),
{
    let pc = chars_of(p);
    match rfind_str(s, p) {
        Some(i) => {
            proof {
                lemma_rfind_bounds(s@, p@, s@.len() - p@.len());
            }
            assert(occurs_at(s@, p@, i as int));
            let n = s.len();
            assert(i + pc@.len() <= n);
            &s[i + pc.len()..n]
        },
        None => s,
    }
}

proof fn lemma_rfind_bounds(s: Seq<char>, p: Seq<char>, i: int)
    ensures
        rfind_upto(s, p, i) matches Some(k) ==> occurs_at(s, p, k),
    decreases i + 1,
{
    if i >= 0 && !occurs_at(s, p, i) {
        lemma_rfind_bounds(s, p, i - 1);
    }
}

/// `s.split(&set[..]).next().unwrap()`.
pub fn before_any_exec<'a>(s: &'a [char], set: &[char]) -> (r: &'a [char])
    ensures
        r@ == before_any(s@, set@),
{
    let mut i: usize = 0;
    while i < s.len()
        invariant
            i <= s@.len(),
            any_index_from(s@, set@, 0) == any_index_from(s@, set@, i as int),
        decreases s@.len() - i,
    {
        let mut j: usize = 0;
        let mut hit = false;
        while j < set.len()
            invariant
                j <= set@.len(),
                i < s@.len(),
                hit == (exists|k: int| 0 <= k < j && set@[k] == s@[i as int]),
            decreases set@.len() - j,
        {
            if set[j] == s[i] {
                hit = true;
            }
            j += 1;
        }
        if hit {
            return &s[0..i];
        }
        i += 1;
    }
    s
}

/// Decimal rendering of a `usize`.
pub fn decimal_string(n: usize) -> (s: String)
    ensures
        s@ == decimal(n as nat),
    decreases n,
{
    if n < 10 {
        let mut s = String::new();
        push_char(&mut s, digit(n));
        s
    } else {
        let mut s = decimal_string(n / 10);
        push_char(&mut s, digit(n % 10));
        s
    }
}

/// Decimal rendering of a `u64`.
pub fn decimal_string_u64(n: u64) -> (s: String)
    ensures
        s@ == decimal(n as nat),
    decreases n,
{
    if n < 10 {
        let mut s = String::new();
        push_char(&mut s, digit(n as usize));
        s
    } else {
        let mut s = decimal_string_u64(n / 10);
        push_char(&mut s, digit((n % 10) as usize));
        s
    }
}

/// Decimal rendering of a `u128`.
pub fn decimal_string_u128(n: u128) -> (s: String)
    ensures
        s@ == decimal(n as nat),
    decreases n,
{
    if n < 10 {
        let mut s = String::new();
        push_char(&mut s, digit(n as usize));
        s
    } else {
        let mut s = decimal_string_u128(n / 10);
        push_char(&mut s, digit((n % 10) as usize));
        s
    }
}

/// `format!("{n:#x}")`: `0x` and the lower-case hexadecimal digits.
pub fn hex_string(n: u64) -> (s: String)
    ensures
        s@ == "0x"@ + hex_digits(n as nat),
{
    let mut s = string_of(chars_of("0x").as_slice());
    let d = hex_digits_string(n);
    append_chars(&mut s, chars_of(d.as_str()).as_slice());
    s
}

/// `format!("0x{b:02x}")`: `0x` and two lower-case hexadecimal digits.
pub fn byte_hex(b: u8) -> (s: String)
    ensures
        s@ == "0x"@ + seq![hex_char((b / 16) as nat), hex_char((b % 16) as nat)],
{
    let mut s = string_of(chars_of("0x").as_slice());
    push_char(&mut s, hex_digit((b / 16) as u64));
    push_char(&mut s, hex_digit((b % 16) as u64));
    assert(s@ =~= "0x"@ + seq![hex_char((b / 16) as nat), hex_char((b % 16) as nat)]);
    s
}

fn hex_digits_string(n: u64) -> (s: String)
    ensures
        s@ == hex_digits(n as nat),
    decreases n,
{
    if n < 16 {
        let mut s = String::new();
        push_char(&mut s, hex_digit(n));
        s
    } else {
        let mut s = hex_digits_string(n / 16);
        push_char(&mut s, hex_digit(n % 16));
        s
    }
}

fn hex_digit(d: u64) -> (c: char)
    requires
        d < 16,
    ensures
        c == hex_char(d as nat),
{
    if d < 10 {
        digit(d as usize)
    } else if d == 10 {
        'a'
    } else if d == 11 {
        'b'
    } else if d == 12 {
        'c'
    } else if d == 13 {
        'd'
    } else if d == 14 {
        'e'
    } else {
        'f'
    }
}

fn digit(d: usize) -> (c: char)
    requires
        d < 10,
    ensures
        c == digit_char(d as nat),
{
    if d == 0 {
        '0'
    } else if d == 1 {
        '1'
    } else if d == 2 {
        '2'
    } else if d == 3 {
        '3'
    } else if d == 4 {
        '4'
    } else if d == 5 {
        '5'
    } else if d == 6 {
        '6'
    } else if d == 7 {
        '7'
    } else if d == 8 {
        '8'
    } else {
        '9'
    }
}

/// `str::split_whitespace` on characters.
pub fn words_exec(s: &[char]) -> (r: Vec<String>)
    ensures
        texts(r@) == words(s@),
{
    let mut r: Vec<String> = Vec::new();
    let mut i: usize = 0;
    assert(texts(r@) =~= Seq::<Seq<char>>::empty());
    while i < s.len()
        invariant
            i <= s@.len(),
            texts(r@) + words_from(s@, i as int) == words(s@),
        decreases s@.len() - i,
    {
        if is_whitespace(s[i]) {
            i += 1;
        } else {
            let mut j: usize = i + 1;
            proof {
                lemma_word_end(s@, i as int);
            }
            while j < s.len() && !is_whitespace(s[j])
                invariant
                    i < j <= s@.len(),
                    word_end(s@, i as int) == word_end(s@, j as int),
                decreases s@.len() - j,
            {
                j += 1;
            }
            let ghost before = texts(r@);
            r.push(string_of(&s[i..j]));
            assert(texts(r@) =~= before.push(s@.subrange(i as int, j as int)));
            assert(before + words_from(s@, i as int) =~= texts(r@) + words_from(s@, j as int));
            i = j;
        }
    }
    assert(texts(r@) + Seq::<Seq<char>>::empty() =~= texts(r@));
    r
}

/// Whether `char::is_alphanumeric` holds of a character (the Unicode
/// `Alphabetic` and `Numeric` properties).
pub uninterp spec fn alphanumeric(c: char) -> bool;

/// Calls `char::is_alphanumeric`; the answer is named `alphanumeric`. ASCII
/// letters and digits are alphanumeric, as its documentation says.
#[verifier::external_body]
pub fn is_alphanumeric(c: char) -> (r: bool)
    ensures
        r == alphanumeric(c),
        ('a' <= c && c <= 'z') || ('A' <= c && c <= 'Z') || ('0' <= c && c <= '9') ==> r,
{
    c.is_alphanumeric()
}

/// Joins strings with a separator (`[String]::join`).
pub fn join_strings(items: &Vec<String>, sep: &str) -> (r: String)
    ensures
        r@ == join(texts(items@), sep@),
{
    let sep_chars = chars_of(sep);
    let mut out = String::new();
    let mut i: usize = 0;
    while i < items.len()
        invariant
            i <= items@.len(),
            sep_chars@ == sep@,
            out@ == join(texts(items@).subrange(0, i as int), sep@),
        decreases items@.len() - i,
    {
        let ghost prev = texts(items@).subrange(0, i as int);
        let ghost next = texts(items@).subrange(0, i + 1);
        assert(next.drop_last() == prev);
        if i > 0 {
            append_chars(&mut out, sep_chars.as_slice());
        }
        append_chars(&mut out, chars_of(items[i].as_str()).as_slice());
        i += 1;
        proof {
            if prev.len() == 0 {
                assert(out@ == next[0]);
            }
        }
    }
    assert(texts(items@).subrange(0, items@.len() as int) == texts(items@));
    out
}

/// The next line of `s` starting at `pos` (`pos < s.len()`): returns the
/// line's bounds and the position after its line ending.
pub fn next_line(s: &[char], pos: usize) -> (r: (usize, usize, usize))
    requires
        pos < s@.len(),
    ensures
        pos <= r.0 <= r.1 <= r.2 <= s@.len(),
        r.2 > pos,
        lines(s@.subrange(pos as int, s@.len() as int)) == seq![
            s@.subrange(r.0 as int, r.1 as int),
        ] + lines(s@.subrange(r.2 as int, s@.len() as int)),
{
    let ghost t = s@.subrange(pos as int, s@.len() as int);
    let rest = &s[pos..s.len()];
    assert(rest@ == t);
    proof {
        lemma_char_index(t, '\n');
    }
    match char_index_exec(rest, '\n') {
        Some(i) => {
            let mut end = pos + i;
            if end > pos && s[end - 1] == '\r' {
                end = end - 1;
                assert(strip_cr(t.subrange(0, i as int)) == s@.subrange(pos as int, end as int));
            } else {
                assert(strip_cr(t.subrange(0, i as int)) == s@.subrange(pos as int, end as int));
            }
            assert(t.subrange(i + 1, t.len() as int) == s@.subrange(
                pos + i + 1,
                s@.len() as int,
            ));
            (pos, end, pos + i + 1)
        },
        None => {
            let e = s.len();
            assert(s@.subrange(e as int, e as int).len() == 0);
            assert(lines(s@.subrange(e as int, e as int)) == Seq::<Seq<char>>::empty());
            assert(seq![t] + Seq::<Seq<char>>::empty() == seq![t]);
            (pos, e, e)
        },
    }
}

} // verus!
