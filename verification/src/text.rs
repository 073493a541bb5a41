//! Text as sequences of characters: the searches, splits and conversions that
//! the rest of the crate states its contracts over.

use vstd::prelude::*;

verus! {

/// `p` occurs in `s` at index `i`.
pub open spec fn occurs_at(s: Seq<char>, p: Seq<char>, i: int) -> bool {
    0 <= i && i + p.len() <= s.len() && s.subrange(i, i + p.len()) == p
}

/// `p` occurs somewhere in `s`.
pub open spec fn contains(s: Seq<char>, p: Seq<char>) -> bool {
    exists|i: int| occurs_at(s, p, i)
}

/// `s` begins with `p`.
pub open spec fn starts_with(s: Seq<char>, p: Seq<char>) -> bool {
    occurs_at(s, p, 0)
}

/// `s` ends with `p`.
pub open spec fn ends_with(s: Seq<char>, p: Seq<char>) -> bool {
    occurs_at(s, p, s.len() - p.len())
}

/// `i` is the leftmost index at which `p` occurs in `s`.
pub open spec fn is_first_occurrence(s: Seq<char>, p: Seq<char>, i: int) -> bool {
    occurs_at(s, p, i) && forall|j: int| 0 <= j < i ==> !occurs_at(s, p, j)
}

/// `i` is the rightmost index at which `p` occurs in `s`.
pub open spec fn is_last_occurrence(s: Seq<char>, p: Seq<char>, i: int) -> bool {
    occurs_at(s, p, i) && forall|j: int| i < j ==> !occurs_at(s, p, j)
}

/// The views of a sequence of character vectors.
pub open spec fn rows(v: Seq<Vec<char>>) -> Seq<Seq<char>> {
    v.map_values(|r: Vec<char>| r@)
}

/// The views of a sequence of strings.
pub open spec fn texts(v: Seq<String>) -> Seq<Seq<char>> {
    v.map_values(|r: String| r@)
}

/// The text of an optional string.
pub open spec fn opt_text(s: Option<String>) -> Option<Seq<char>> {
    match s {
        Some(t) => Some(t@),
        None => None,
    }
}

/// The text of an optional string slice.
pub open spec fn opt_slice(s: Option<&str>) -> Option<Seq<char>> {
    match s {
        Some(t) => Some(t@),
        None => None,
    }
}

/// The texts of a sequence of pairs of strings.
pub open spec fn text_pairs(v: Seq<(String, String)>) -> Seq<(Seq<char>, Seq<char>)> {
    v.map_values(|e: (String, String)| (e.0@, e.1@))
}

/// A copy of an optional string.
pub fn copy_opt(s: &Option<String>) -> (r: Option<String>)
    ensures
        r == *s,
{
    match s {
        Some(t) => Some(t.clone()),
        None => None,
    }
}

/// The characters of a string slice, in order.
pub fn chars_of(s: &str) -> (v: Vec<char>)
    ensures
        v@ == s@,
{
    let mut v: Vec<char> = Vec::new();
    for c in it: s.chars()
        invariant
            it.seq() == s@,
            v@ == it.seq().take(it.index() as int),
    {
        v.push(c);
    }
    v
}

/// `String::from_iter` on a slice of characters: the string that holds
/// exactly these characters, in this order.
#[verifier::external_body]
pub(crate) fn text_of(v: &[char]) -> (s: String)
    ensures
        s@ == v@,
{
    String::from_iter(v)
}

/// A copy of the characters `s[from..to]`.
pub fn slice_of(s: &[char], from: usize, to: usize) -> (v: Vec<char>)
    requires
        from <= to <= s@.len(),
    ensures
        v@ == s@.subrange(from as int, to as int),
{
    let mut v: Vec<char> = Vec::new();
    let mut i: usize = from;
    while i < to
        invariant
            from <= i <= to <= s@.len(),
            v@ == s@.subrange(from as int, i as int),
        decreases to - i,
    {
        v.push(s[i]);
        i += 1;
    }
    v
}

/// Appends the characters of `tail` to `out`.
pub fn push_all(out: &mut Vec<char>, tail: &[char])
    ensures
        final(out)@ == old(out)@ + tail@,
{
    let mut i: usize = 0;
    while i < tail.len()
        invariant
            i <= tail@.len(),
            out@ == old(out)@ + tail@.subrange(0, i as int),
        decreases tail@.len() - i,
    {
        out.push(tail[i]);
        i += 1;
    }
    assert(tail@.subrange(0, tail@.len() as int) == tail@);
}

/// Appends the characters of the string slice `tail` to `out`.
pub fn push_str(out: &mut Vec<char>, tail: &str)
    ensures
        final(out)@ == old(out)@ + tail@,
{
    let t = chars_of(tail);
    push_all(out, t.as_slice());
}

/// Whether two slices hold the same characters.
pub fn same(a: &[char], b: &[char]) -> (r: bool)
    ensures
        r == (a@ == b@),
{
    if a.len() != b.len() {
        return false;
    }
    let mut i: usize = 0;
    while i < a.len()
        invariant
            i <= a@.len(),
            a@.len() == b@.len(),
            forall|j: int| 0 <= j < i ==> a@[j] == b@[j],
        decreases a@.len() - i,
    {
        if a[i] != b[i] {
            return false;
        }
        i += 1;
    }
    assert(a@ =~= b@);
    true
}

/// Whether `s` holds exactly the characters of the string slice `p`.
pub fn same_as(s: &[char], p: &str) -> (r: bool)
    ensures
        r == (s@ == p@),
{
    let pc = chars_of(p);
    same(s, pc.as_slice())
}

/// Whether `p` occurs in `s` at index `i`.
pub fn matches_at(s: &[char], p: &[char], i: usize) -> (r: bool)
    ensures
        r == occurs_at(s@, p@, i as int),
{
    if p.len() > s.len() || i > s.len() - p.len() {
        return false;
    }
    let n: usize = s.len();
    let mut k: usize = 0;
    while k < p.len()
        invariant
            k <= p@.len(),
            n == s@.len(),
            i + p@.len() <= n,
            forall|j: int| 0 <= j < k ==> s@[i + j] == p@[j],
        decreases p@.len() - k,
    {
        if s[i + k] != p[k] {
            assert(s@.subrange(i as int, i + p@.len())[k as int] == s@[i + k]);
            return false;
        }
        k += 1;
    }
    assert(s@.subrange(i as int, i + p@.len()) =~= p@);
    true
}

/// Whether `s` begins with the string slice `p`.
pub fn has_prefix(s: &[char], p: &str) -> (r: bool)
    ensures
        r == starts_with(s@, p@),
{
    let pc = chars_of(p);
    matches_at(s, pc.as_slice(), 0)
}

/// Whether `s` ends with the string slice `p`.
pub fn has_suffix(s: &[char], p: &str) -> (r: bool)
    ensures
        r == ends_with(s@, p@),
{
    let pc = chars_of(p);
    if pc.len() > s.len() {
        return false;
    }
    matches_at(s, pc.as_slice(), s.len() - pc.len())
}

/// The leftmost index at which `p` occurs in `s`, if it occurs at all.
pub fn find(s: &[char], p: &[char]) -> (r: Option<usize>)
    ensures
        r is Some <==> contains(s@, p@),
        r matches Some(i) ==> is_first_occurrence(s@, p@, i as int),
{
    if p.len() > s.len() {
        return None;
    }
    let last: usize = s.len() - p.len();
    let mut i: usize = 0;
    loop
        invariant
            i <= last,
            last == s@.len() - p@.len(),
            forall|j: int| 0 <= j < i ==> !occurs_at(s@, p@, j),
        decreases last - i,
    {
        if matches_at(s, p, i) {
            return Some(i);
        }
        if i == last {
            return None;
        }
        i += 1;
    }
}

/// Whether the string slice `p` occurs in `s`.
pub fn has_infix(s: &[char], p: &str) -> (r: bool)
    ensures
        r == contains(s@, p@),
{
    let pc = chars_of(p);
    find(s, pc.as_slice()).is_some()
}

/// The rightmost index at which `p` occurs in `s`, if it occurs at all.
pub fn rfind(s: &[char], p: &[char]) -> (r: Option<usize>)
    ensures
        r is Some <==> contains(s@, p@),
        r matches Some(i) ==> is_last_occurrence(s@, p@, i as int),
{
    if p.len() > s.len() {
        return None;
    }
    let last: usize = s.len() - p.len();
    let mut i: usize = last;
    loop
        invariant
            i <= last,
            last == s@.len() - p@.len(),
            forall|j: int| i < j ==> !occurs_at(s@, p@, j),
        decreases i,
    {
        if matches_at(s, p, i) {
            return Some(i);
        }
        if i == 0 {
            return None;
        }
        i -= 1;
    }
}

/// The characters that carry the Unicode property `White_Space`.
pub open spec fn is_whitespace(c: char) -> bool {
    let u = c as u32;
    ||| 0x09 <= u <= 0x0D
    ||| u == 0x20
    ||| u == 0x85
    ||| u == 0xA0
    ||| u == 0x1680
    ||| 0x2000 <= u <= 0x200A
    ||| u == 0x2028
    ||| u == 0x2029
    ||| u == 0x202F
    ||| u == 0x205F
    ||| u == 0x3000
}

/// Whether `c` carries the Unicode property `White_Space`.
pub fn whitespace(c: char) -> (r: bool)
    ensures
        r == is_whitespace(c),
{
    let u: u32 = c as u32;
    (0x09 <= u && u <= 0x0D) || u == 0x20 || u == 0x85 || u == 0xA0 || u == 0x1680 || (0x2000 <= u
        && u <= 0x200A) || u == 0x2028 || u == 0x2029 || u == 0x202F || u == 0x205F || u == 0x3000
}

/// The first index at or after `i` that holds no whitespace, or the length.
pub open spec fn skip_whitespace(s: Seq<char>, i: int) -> int
    decreases s.len() - i,
{
    if 0 <= i < s.len() && is_whitespace(s[i]) {
        skip_whitespace(s, i + 1)
    } else {
        i
    }
}

/// The end of the last run of non-whitespace that ends at or before `j`.
pub open spec fn drop_whitespace(s: Seq<char>, j: int) -> int
    decreases j,
{
    if 0 < j <= s.len() && is_whitespace(s[j - 1]) {
        drop_whitespace(s, j - 1)
    } else {
        j
    }
}

/// `s` without its leading and trailing whitespace.
pub open spec fn trim(s: Seq<char>) -> Seq<char> {
    let a = skip_whitespace(s, 0);
    let b = drop_whitespace(s, s.len() as int);
    if a < b {
        s.subrange(a, b)
    } else {
        Seq::empty()
    }
}

/// `s` without its leading and trailing whitespace.
pub fn trimmed(s: &[char]) -> (v: Vec<char>)
    ensures
        v@ == trim(s@),
{
    let n: usize = s.len();
    let mut a: usize = 0;
    while a < n && whitespace(s[a])
        invariant
            a <= n,
            n == s@.len(),
            skip_whitespace(s@, 0) == skip_whitespace(s@, a as int),
        decreases n - a,
    {
        a += 1;
    }
    let mut b: usize = n;
    while b > 0 && whitespace(s[b - 1])
        invariant
            b <= n,
            n == s@.len(),
            drop_whitespace(s@, n as int) == drop_whitespace(s@, b as int),
        decreases b,
    {
        b -= 1;
    }
    if a < b {
        slice_of(s, a, b)
    } else {
        Vec::new()
    }
}

/// The first index at or after `i` that holds a line feed, or the length.
pub open spec fn line_end(s: Seq<char>, i: int) -> int
    decreases s.len() - i,
{
    if 0 <= i < s.len() && s[i] != '\n' {
        line_end(s, i + 1)
    } else {
        i
    }
}

/// `s` without one trailing carriage return.
pub open spec fn strip_cr(s: Seq<char>) -> Seq<char> {
    if s.len() > 0 && s.last() == '\r' {
        s.drop_last()
    } else {
        s
    }
}

/// The lines of `s` from index `i` on.
pub open spec fn lines_from(s: Seq<char>, i: int) -> Seq<Seq<char>>
    decreases s.len() - i,
{
    if 0 <= i < s.len() {
        let e = line_end(s, i);
        if i <= e < s.len() {
            seq![strip_cr(s.subrange(i, e))] + lines_from(s, e + 1)
        } else {
            seq![s.subrange(i, s.len() as int)]
        }
    } else {
        Seq::empty()
    }
}

/// The lines of `s`: the pieces between line feeds, each without the
/// carriage return that stood before its line feed. A line feed at the very
/// end opens no further line.
pub open spec fn lines(s: Seq<char>) -> Seq<Seq<char>> {
    lines_from(s, 0)
}

/// The lines of `s`.
pub fn split_lines(s: &[char]) -> (v: Vec<Vec<char>>)
    ensures
        rows(v@) == lines(s@),
{
    let n: usize = s.len();
    let mut v: Vec<Vec<char>> = Vec::new();
    let mut start: usize = 0;
    while start < n
        invariant
            start <= n,
            n == s@.len(),
            lines(s@) == rows(v@) + lines_from(s@, start as int),
        decreases n - start,
    {
        let mut e: usize = start;
        while e < n && s[e] != '\n'
            invariant
                start <= e <= n,
                n == s@.len(),
                line_end(s@, start as int) == line_end(s@, e as int),
            decreases n - e,
        {
            e += 1;
        }
        let ghost before = rows(v@);
        if e < n {
            let line = if e > start && s[e - 1] == '\r' {
                slice_of(s, start, e - 1)
            } else {
                slice_of(s, start, e)
            };
            assert(line@ == strip_cr(s@.subrange(start as int, e as int)));
            v.push(line);
            assert(rows(v@) =~= before + seq![line@]);
            assert(lines(s@) =~= rows(v@) + lines_from(s@, e + 1));
            start = e + 1;
        } else {
            let line = slice_of(s, start, n);
            v.push(line);
            assert(rows(v@) =~= before + seq![line@]);
            assert(lines_from(s@, n as int) =~= Seq::<Seq<char>>::empty());
            assert(lines(s@) =~= rows(v@) + lines_from(s@, n as int));
            start = n;
        }
    }
    assert(lines_from(s@, start as int) =~= Seq::<Seq<char>>::empty());
    assert(lines(s@) =~= rows(v@));
    v
}

/// The lower-case form that `str::to_lowercase` gives a text.
pub uninterp spec fn lowercase(s: Seq<char>) -> Seq<char>;

/// `str::to_lowercase`: the lower-case form of `s` under the Unicode
/// case mapping. Nothing more is claimed of it than that it depends on the
/// characters of `s` alone.
#[verifier::external_body]
pub(crate) fn to_lowercase(s: &str) -> (r: String)
    ensures
        r@ == lowercase(s@),
{
    s.to_lowercase()
}

/// The character of a decimal digit.
pub open spec fn digit_char(d: nat) -> char {
    if d == 0 {
        '0'
    } else if d == 1 {
        '1'
    } else if d == 2 {
        '2'
    } else if d == 3 {
        '3'
    } else if d == 4 {
        '4'
    } else if d == 5 {
        '5'
    } else if d == 6 {
        '6'
    } else if d == 7 {
        '7'
    } else if d == 8 {
        '8'
    } else {
        '9'
    }
}

/// A number in decimal digits, without leading zeros.
pub open spec fn decimal(n: nat) -> Seq<char>
    decreases n,
{
    if n < 10 {
        seq![digit_char(n)]
    } else {
        decimal(n / 10).push(digit_char(n % 10))
    }
}

/// The character of a decimal digit.
pub fn digit(d: u8) -> (c: char)
    requires
        d < 10,
    ensures
        c == digit_char(d as nat),
{
    if d == 0 {
        '0'
    } else if d == 1 {
        '1'
    } else if d == 2 {
        '2'
    } else if d == 3 {
        '3'
    } else if d == 4 {
        '4'
    } else if d == 5 {
        '5'
    } else if d == 6 {
        '6'
    } else if d == 7 {
        '7'
    } else if d == 8 {
        '8'
    } else {
        '9'
    }
}

/// Appends `n` in decimal digits to `out`.
pub fn push_decimal(out: &mut Vec<char>, n: u64)
    ensures
        final(out)@ == old(out)@ + decimal(n as nat),
    decreases n,
{
    if n >= 10 {
        push_decimal(out, n / 10);
    }
    out.push(digit((n % 10) as u8));
    assert(out@ =~= old(out)@ + decimal(n as nat));
}

/// The first index at or after `i` that holds whitespace, or the length.
pub open spec fn word_end(s: Seq<char>, i: int) -> int
    decreases s.len() - i,
{
    if 0 <= i < s.len() && !is_whitespace(s[i]) {
        word_end(s, i + 1)
    } else {
        i
    }
}

/// The words of `s` from index `i` on.
pub open spec fn words_from(s: Seq<char>, i: int) -> Seq<Seq<char>>
    decreases s.len() - i,
{
    let start = skip_whitespace(s, i);
    if 0 <= i <= start < s.len() {
        let end = word_end(s, start);
        if start < end <= s.len() {
            seq![s.subrange(start, end)] + words_from(s, end)
        } else {
            Seq::empty()
        }
    } else {
        Seq::empty()
    }
}

/// The words of `s`: its longest runs without whitespace.
pub open spec fn words(s: Seq<char>) -> Seq<Seq<char>> {
    words_from(s, 0)
}

/// The words of `s`.
pub fn split_words(s: &[char]) -> (v: Vec<Vec<char>>)
    ensures
        rows(v@) == words(s@),
{
    let n: usize = s.len();
    let mut v: Vec<Vec<char>> = Vec::new();
    let mut i: usize = 0;
    loop
        invariant
            i <= n,
            n == s@.len(),
            words(s@) == rows(v@) + words_from(s@, i as int),
        decreases n - i,
    {
        let mut start: usize = i;
        while start < n && whitespace(s[start])
            invariant
                i <= start <= n,
                n == s@.len(),
                skip_whitespace(s@, i as int) == skip_whitespace(s@, start as int),
            decreases n - start,
        {
            start += 1;
        }
        if start >= n {
            assert(words_from(s@, i as int) =~= Seq::<Seq<char>>::empty());
            assert(words(s@) =~= rows(v@));
            return v;
        }
        let mut end: usize = start;
        while end < n && !whitespace(s[end])
            invariant
                start <= end <= n,
                n == s@.len(),
                word_end(s@, start as int) == word_end(s@, end as int),
            decreases n - end,
        {
            end += 1;
        }
        assert(start < end);
        let ghost before = rows(v@);
        let word = slice_of(s, start, end);
        v.push(word);
        assert(rows(v@) =~= before + seq![word@]);
        assert(words(s@) =~= rows(v@) + words_from(s@, end as int));
        i = end;
    }
}

/// The first index at or after `i` that holds `c`, or the length.
pub open spec fn index_of(s: Seq<char>, c: char, i: int) -> int
    decreases s.len() - i,
{
    if 0 <= i < s.len() && s[i] != c {
        index_of(s, c, i + 1)
    } else {
        i
    }
}

/// The first index that holds `c`, or the length.
pub fn position_of(s: &[char], c: char) -> (r: usize)
    ensures
        r == index_of(s@, c, 0),
        r <= s@.len(),
{
    let n: usize = s.len();
    let mut i: usize = 0;
    while i < n && s[i] != c
        invariant
            i <= n,
            n == s@.len(),
            index_of(s@, c, 0) == index_of(s@, c, i as int),
        decreases n - i,
    {
        i += 1;
    }
    i
}

/// A decimal digit.
pub open spec fn is_digit(c: char) -> bool {
    '0' <= c <= '9'
}

/// The number that a decimal digit stands for.
pub open spec fn digit_value(c: char) -> nat {
    (c as int - '0' as int) as nat
}

/// The number that a text of decimal digits stands for.
pub open spec fn digits_value(s: Seq<char>) -> nat
    decreases s.len(),
{
    if s.len() == 0 {
        0
    } else {
        digits_value(s.drop_last()) * 10 + digit_value(s.last())
    }
}

/// A text without the plus sign that may stand before its digits.
pub open spec fn unsigned(s: Seq<char>) -> Seq<char> {
    if s.len() > 0 && s[0] == '+' {
        s.subrange(1, s.len() as int)
    } else {
        s
    }
}

/// The number that a text stands for as `u64`: one decimal digit or more,
/// after at most one plus sign, with a value that fits.
pub open spec fn parsed_u64(s: Seq<char>) -> Option<u64> {
    let d = unsigned(s);
    if d.len() > 0 && (forall|i: int| 0 <= i < d.len() ==> is_digit(#[trigger] d[i]))
        && digits_value(d) <= u64::MAX {
        Some(digits_value(d) as u64)
    } else {
        None
    }
}

/// The value of a text of digits is at least that of each of its prefixes.
proof fn lemma_digits_grow(s: Seq<char>, k: int)
    requires
        0 <= k <= s.len(),
    ensures
        digits_value(s.subrange(0, k)) <= digits_value(s),
    decreases s.len() - k,
{
    if k < s.len() {
        lemma_digits_grow(s, k + 1);
        let longer = s.subrange(0, k + 1);
        assert(longer.drop_last() =~= s.subrange(0, k));
    } else {
        assert(s.subrange(0, k) =~= s);
    }
}

/// The number that a text stands for as `u64`, if it stands for one.
pub fn parse_u64(s: &[char]) -> (r: Option<u64>)
    ensures
        r == parsed_u64(s@),
{
    let n: usize = s.len();
    let first: usize = if n > 0 && s[0] == '+' {
        1
    } else {
        0
    };
    let ghost d = unsigned(s@);
    assert(d == s@.subrange(first as int, n as int)) by {
        if first == 0 {
            assert(s@.subrange(0, n as int) =~= s@);
        }
    }
    if first >= n {
        return None;
    }
    let mut value: u64 = 0;
    let mut i: usize = first;
    while i < n
        invariant
            first <= i <= n,
            n == s@.len(),
            d == unsigned(s@),
            d == s@.subrange(first as int, n as int),
            forall|j: int| 0 <= j < i - first ==> is_digit(#[trigger] d[j]),
            value == digits_value(d.subrange(0, i - first)),
        decreases n - i,
    {
        let c: char = s[i];
        assert(d[i - first] == c);
        if !('0' <= c && c <= '9') {
            return None;
        }
        let digit: u64 = (c as u32 - '0' as u32) as u64;
        let ghost longer = d.subrange(0, i - first + 1);
        assert(longer.drop_last() =~= d.subrange(0, i - first));
        assert(longer.last() == c);
        assert(digits_value(longer) == value * 10 + digit);
        if value > (u64::MAX - digit) / 10 {
            proof {
                lemma_digits_grow(d, i - first + 1);
                if forall|j: int| 0 <= j < d.len() ==> is_digit(#[trigger] d[j]) {
                    assert(digits_value(d) > u64::MAX);
                }
            }
            return None;
        }
        value = value * 10 + digit;
        i += 1;
    }
    assert(d.subrange(0, n - first) =~= d);
    Some(value)
}

/// The number of bytes that a character takes in UTF-8.
pub open spec fn utf8_width(c: char) -> nat {
    let u = c as u32;
    if u < 0x80 {
        1
    } else if u < 0x800 {
        2
    } else if u < 0x10000 {
        3
    } else {
        4
    }
}

/// The number of bytes that the first `n` characters of a text take in
/// UTF-8.
pub open spec fn byte_len(s: Seq<char>, n: int) -> nat
    decreases n,
{
    if n <= 0 {
        0
    } else {
        byte_len(s, n - 1) + utf8_width(s[n - 1])
    }
}

/// The number of bytes that a character takes in UTF-8.
pub fn width(c: char) -> (w: usize)
    ensures
        w == utf8_width(c),
{
    let u: u32 = c as u32;
    if u < 0x80 {
        1
    } else if u < 0x800 {
        2
    } else if u < 0x10000 {
        3
    } else {
        4
    }
}

/// The number of bytes that a text takes in UTF-8, as far as `u128`
/// counts.
pub fn byte_length(s: &[char]) -> (n: u128)
    ensures
        n == byte_len(s@, s@.len() as int),
        n <= 4 * s@.len(),
{
    let total: usize = s.len();
    let mut n: u128 = 0;
    let mut k: usize = 0;
    while k < total
        invariant
            k <= total,
            total == s@.len(),
            n == byte_len(s@, k as int),
            n <= 4 * k,
        decreases total - k,
    {
        n = n + width(s[k]) as u128;
        k += 1;
    }
    n
}

/// `s` from index `i` on, with `to` in place of each `from`; the places
/// are taken from the left and do not overlap.
pub open spec fn replaced_from(s: Seq<char>, from: Seq<char>, to: Seq<char>, i: int) -> Seq<char>
    decreases s.len() - i,
{
    if from.len() == 0 || i < 0 || i >= s.len() {
        Seq::empty()
    } else if occurs_at(s, from, i) {
        to + replaced_from(s, from, to, i + from.len())
    } else {
        seq![s[i]] + replaced_from(s, from, to, i + 1)
    }
}

/// `s` with `to` in place of each `from`. An empty `from` has no place.
pub open spec fn replaced(s: Seq<char>, from: Seq<char>, to: Seq<char>) -> Seq<char> {
    if from.len() == 0 {
        s
    } else {
        replaced_from(s, from, to, 0)
    }
}

/// `s` with `to` in place of each `from`.
pub fn replace_all(s: &[char], from: &[char], to: &[char]) -> (v: Vec<char>)
    ensures
        v@ == replaced(s@, from@, to@),
{
    if from.len() == 0 {
        let whole = slice_of(s, 0, s.len());
        assert(whole@ =~= s@);
        return whole;
    }
    let n: usize = s.len();
    let mut v: Vec<char> = Vec::new();
    let mut i: usize = 0;
    while i < n
        invariant
            i <= n,
            n == s@.len(),
            from@.len() > 0,
            replaced(s@, from@, to@) == v@ + replaced_from(s@, from@, to@, i as int),
        decreases n - i,
    {
        let ghost before = v@;
        if matches_at(s, from, i) {
            push_all(&mut v, to);
            assert(replaced(s@, from@, to@) =~= v@ + replaced_from(
                s@,
                from@,
                to@,
                i + from@.len(),
            ));
            i += from.len();
        } else {
            v.push(s[i]);
            assert(replaced(s@, from@, to@) =~= v@ + replaced_from(s@, from@, to@, i + 1));
            i += 1;
        }
    }
    assert(replaced(s@, from@, to@) =~= v@);
    v
}

/// The pieces of `s` between the places of `sep`, where the piece at hand
/// began at `start` and the reading stands at `i`.
pub open spec fn pieces_from(s: Seq<char>, sep: Seq<char>, start: int, i: int) -> Seq<Seq<char>>
    decreases s.len() - i,
{
    if sep.len() == 0 || i < 0 || start < 0 || start > i || i >= s.len() {
        if 0 <= start <= s.len() {
            seq![s.subrange(start, s.len() as int)]
        } else {
            Seq::empty()
        }
    } else if occurs_at(s, sep, i) {
        seq![s.subrange(start, i)] + pieces_from(s, sep, i + sep.len(), i + sep.len())
    } else {
        pieces_from(s, sep, start, i + 1)
    }
}

/// The pieces of `s` between the places of `sep`, taken from the left: one
/// piece more than there are places. An empty `sep` has no place.
pub open spec fn pieces(s: Seq<char>, sep: Seq<char>) -> Seq<Seq<char>> {
    pieces_from(s, sep, 0, 0)
}

/// The pieces of `s` between the places of `sep`.
pub fn split_on(s: &[char], sep: &[char]) -> (v: Vec<Vec<char>>)
    ensures
        rows(v@) == pieces(s@, sep@),
{
    if sep.len() == 0 {
        let mut v: Vec<Vec<char>> = Vec::new();
        let whole = slice_of(s, 0, s.len());
        v.push(whole);
        assert(rows(v@) =~= seq![s@.subrange(0, s@.len() as int)]);
        return v;
    }
    let n: usize = s.len();
    let mut v: Vec<Vec<char>> = Vec::new();
    let mut start: usize = 0;
    let mut i: usize = 0;
    while i < n
        invariant
            start <= i <= n,
            n == s@.len(),
            sep@.len() > 0,
            pieces(s@, sep@) == rows(v@) + pieces_from(s@, sep@, start as int, i as int),
        decreases n - i,
    {
        if matches_at(s, sep, i) {
            let ghost before = rows(v@);
            let piece = slice_of(s, start, i);
            v.push(piece);
            assert(rows(v@) =~= before + seq![piece@]);
            i += sep.len();
            start = i;
            assert(pieces(s@, sep@) =~= rows(v@) + pieces_from(s@, sep@, start as int, i as int));
        } else {
            i += 1;
        }
    }
    let ghost before = rows(v@);
    let piece = slice_of(s, start, n);
    v.push(piece);
    assert(rows(v@) =~= before + seq![piece@]);
    assert(pieces(s@, sep@) =~= rows(v@));
    v
}

/// The number of indices below `n` at which `p` occurs in `s`.
pub open spec fn count_of(s: Seq<char>, p: Seq<char>, n: int) -> nat
    decreases n,
{
    if n <= 0 {
        0
    } else {
        count_of(s, p, n - 1) + if occurs_at(s, p, n - 1) {
            1nat
        } else {
            0nat
        }
    }
}

/// The number of places at which `p` occurs in `s`.
pub fn occurrences(s: &[char], p: &[char]) -> (count: usize)
    ensures
        count == count_of(s@, p@, s@.len() as int),
{
    let n: usize = s.len();
    let mut count: usize = 0;
    let mut i: usize = 0;
    while i < n
        invariant
            i <= n,
            n == s@.len(),
            count == count_of(s@, p@, i as int),
            count <= i,
        decreases n - i,
    {
        if matches_at(s, p, i) {
            count += 1;
        }
        i += 1;
    }
    count
}

/// The first `n` rows as one text, with `sep` between each two.
pub open spec fn joined_with(rows: Seq<Seq<char>>, sep: Seq<char>, n: int) -> Seq<char>
    decreases n,
{
    if n <= 0 {
        Seq::empty()
    } else if n == 1 {
        rows[0]
    } else {
        joined_with(rows, sep, n - 1) + sep + rows[n - 1]
    }
}

/// The text of the first `n` rows rests on those rows alone.
pub proof fn lemma_joined_prefix(a: Seq<Seq<char>>, b: Seq<Seq<char>>, sep: Seq<char>, n: int)
    requires
        0 <= n <= a.len(),
        n <= b.len(),
        forall|k: int| 0 <= k < n ==> a[k] == b[k],
    ensures
        joined_with(a, sep, n) == joined_with(b, sep, n),
    decreases n,
{
    if n > 1 {
        lemma_joined_prefix(a, b, sep, n - 1);
    }
}

/// The rows as one text, with `sep` between each two.
pub fn join(parts: &Vec<Vec<char>>, sep: &str) -> (v: Vec<char>)
    ensures
        v@ == joined_with(rows(parts@), sep@, parts@.len() as int),
{
    let mut v: Vec<char> = Vec::new();
    let mut i: usize = 0;
    while i < parts.len()
        invariant
            i <= parts@.len(),
            v@ == joined_with(rows(parts@), sep@, i as int),
        decreases parts@.len() - i,
    {
        assert(rows(parts@)[i as int] == parts@[i as int]@);
        if i > 0 {
            push_str(&mut v, sep);
        } else {
            assert(v@ =~= Seq::<char>::empty());
        }
        push_all(&mut v, parts[i].as_slice());
        if i == 0 {
            assert(v@ =~= rows(parts@)[0]);
        }
        i += 1;
    }
    v
}

/// The number of different texts among `items`.
pub fn count_distinct(items: &Vec<Vec<char>>) -> (n: usize)
    ensures
        n == rows(items@).to_set().len(),
{
    let ghost all = rows(items@);
    let mut firsts: Vec<usize> = Vec::new();
    let ghost mut seen: Seq<Seq<char>> = Seq::empty();
    let mut i: usize = 0;
    assert(all.subrange(0, 0).to_set() =~= seen.to_set());
    while i < items.len()
        invariant
            i <= items@.len(),
            all == rows(items@),
            firsts@.len() == seen.len(),
            firsts@.len() <= i,
            forall|k: int|
                0 <= k < firsts@.len() ==> (#[trigger] firsts@[k]) < i && all[firsts@[k] as int]
                    == seen[k],
            seen.no_duplicates(),
            seen.to_set() == all.subrange(0, i as int).to_set(),
        decreases items@.len() - i,
    {
        let mut k: usize = 0;
        let mut known = false;
        while k < firsts.len() && !known
            invariant
                k <= firsts@.len(),
                i < items@.len(),
                all == rows(items@),
                firsts@.len() == seen.len(),
                forall|x: int|
                    0 <= x < firsts@.len() ==> (#[trigger] firsts@[x]) < i && all[firsts@[x] as int]
                        == seen[x],
                known ==> seen.contains(all[i as int]),
                !known ==> forall|x: int| 0 <= x < k ==> seen[x] != all[i as int],
            decreases firsts@.len() - k + if known { 0int } else { 1int },
        {
            assert(all[i as int] == items@[i as int]@);
            assert(all[firsts@[k as int] as int] == items@[firsts@[k as int] as int]@);
            if same(items[firsts[k]].as_slice(), items[i].as_slice()) {
                assert(seen[k as int] == all[i as int]);
                known = true;
            } else {
                k += 1;
            }
        }
        proof {
            let next = all.subrange(0, i + 1);
            let prev = all.subrange(0, i as int);
            assert forall|x: Seq<char>| next.to_set().contains(x) <==> (prev.to_set().contains(x)
                || x == all[i as int]) by {
                if next.contains(x) {
                    let idx = choose|idx: int| 0 <= idx < next.len() && next[idx] == x;
                    if idx < i {
                        assert(prev[idx] == x);
                    }
                }
                if prev.contains(x) {
                    let idx = choose|idx: int| 0 <= idx < prev.len() && prev[idx] == x;
                    assert(next[idx] == x);
                }
                if x == all[i as int] {
                    assert(next[i as int] == x);
                }
            }
            if known {
                assert(seen.to_set() =~= next.to_set());
            } else {
                let grown = seen.push(all[i as int]);
                assert forall|x: Seq<char>| grown.to_set().contains(x) <==> (seen.to_set().contains(
                    x,
                ) || x == all[i as int]) by {
                    if grown.contains(x) {
                        let idx = choose|idx: int| 0 <= idx < grown.len() && grown[idx] == x;
                        if idx < seen.len() {
                            assert(seen[idx] == x);
                        }
                    }
                    if seen.contains(x) {
                        let idx = choose|idx: int| 0 <= idx < seen.len() && seen[idx] == x;
                        assert(grown[idx] == x);
                    }
                    if x == all[i as int] {
                        assert(grown[seen.len() as int] == x);
                    }
                }
                assert(grown.to_set() =~= next.to_set());
            }
        }
        if !known {
            firsts.push(i);
            proof {
                seen = seen.push(all[i as int]);
            }
        }
        i += 1;
    }
    proof {
        assert(all.subrange(0, all.len() as int) =~= all);
        seen.unique_seq_to_set();
    }
    firsts.len()
}

/// The index of the first place at which `p` occurs in `s`.
pub open spec fn first_occurrence(s: Seq<char>, p: Seq<char>) -> int {
    choose|i: int| is_first_occurrence(s, p, i)
}

/// The index of the last place at which `p` occurs in `s`.
pub open spec fn last_occurrence(s: Seq<char>, p: Seq<char>) -> int {
    choose|i: int| is_last_occurrence(s, p, i)
}

/// The leftmost place of `p` in `s` is the first occurrence.
pub proof fn lemma_first_occurrence(s: Seq<char>, p: Seq<char>, i: int)
    requires
        is_first_occurrence(s, p, i),
    ensures
        first_occurrence(s, p) == i,
{
    let first = first_occurrence(s, p);
    assert(is_first_occurrence(s, p, first));
    if first < i {
        assert(!occurs_at(s, p, first));
    }
    if i < first {
        assert(!occurs_at(s, p, i));
    }
}

} // verus!
