//! Character-level text handling: the string operations that the agent's
//! parsing and formatting rest on, each stated over `Seq<char>`.
use vstd::prelude::*;

verus! {

// ─────────────────────────────────────────────────────────────────────────
// Specifications
// ─────────────────────────────────────────────────────────────────────────

/// Unicode `White_Space`, the property that `char::is_whitespace` and
/// `str::trim` go by.
pub open spec fn is_white(c: char) -> bool {
    let u = c as u32;
    ||| 0x09 <= u <= 0x0d
    ||| u == 0x20
    ||| u == 0x85
    ||| u == 0xa0
    ||| u == 0x1680
    ||| 0x2000 <= u <= 0x200a
    ||| u == 0x2028
    ||| u == 0x2029
    ||| u == 0x202f
    ||| u == 0x205f
    ||| u == 0x3000
}

/// `s` without its leading white space.
pub open spec fn trim_start(s: Seq<char>) -> Seq<char>
    decreases s.len(),
{
    if s.len() > 0 && is_white(s[0]) {
        trim_start(s.drop_first())
    } else {
        s
    }
}

/// `s` without its trailing white space.
pub open spec fn trim_end(s: Seq<char>) -> Seq<char>
    decreases s.len(),
{
    if s.len() > 0 && is_white(s.last()) {
        trim_end(s.drop_last())
    } else {
        s
    }
}

/// `s` without white space at either end (`str::trim`).
pub open spec fn trim(s: Seq<char>) -> Seq<char> {
    trim_end(trim_start(s))
}

/// `p` occurs in `s` at position `i`.
pub open spec fn matches_at(s: Seq<char>, p: Seq<char>, i: int) -> bool {
    0 <= i && i + p.len() <= s.len() && s.subrange(i, i + p.len()) == p
}

/// The first position at or after `i` where `p` occurs in `s`.
pub open spec fn find_from(s: Seq<char>, p: Seq<char>, i: int) -> Option<int>
    decreases s.len() + 1 - i,
{
    if i < 0 || i + p.len() > s.len() {
        None
    } else if matches_at(s, p, i) {
        Some(i)
    } else {
        find_from(s, p, i + 1)
    }
}

/// The first position where `p` occurs in `s` (`str::find`).
pub open spec fn find(s: Seq<char>, p: Seq<char>) -> Option<int> {
    find_from(s, p, 0)
}

/// `p` occurs somewhere in `s` (`str::contains`).
pub open spec fn contains(s: Seq<char>, p: Seq<char>) -> bool {
    find(s, p) is Some
}

/// `s` begins with `p` (`str::starts_with`).
pub open spec fn starts_with(s: Seq<char>, p: Seq<char>) -> bool {
    matches_at(s, p, 0)
}

/// `s` with every leading copy of `p` removed (`str::trim_start_matches`).
pub open spec fn trim_start_matches(s: Seq<char>, p: Seq<char>) -> Seq<char>
    decreases s.len(),
{
    if p.len() > 0 && starts_with(s, p) {
        trim_start_matches(s.skip(p.len() as int), p)
    } else {
        s
    }
}

/// `line` without one trailing carriage return.
pub open spec fn strip_cr(line: Seq<char>) -> Seq<char> {
    if line.len() > 0 && line.last() == '\r' {
        line.drop_last()
    } else {
        line
    }
}

/// The lines of `s[start..]`, scanning from `cur`: a line ends at `\n`, a
/// `\r` just before that `\n` is dropped, and a final line ending is optional.
pub open spec fn lines_from(s: Seq<char>, start: int, cur: int) -> Seq<Seq<char>>
    decreases s.len() - cur,
{
    if cur >= s.len() {
        if 0 <= start < s.len() {
            seq![s.subrange(start, s.len() as int)]
        } else {
            seq![]
        }
    } else if s[cur] == '\n' {
        seq![strip_cr(s.subrange(start, cur))] + lines_from(s, cur + 1, cur + 1)
    } else {
        lines_from(s, start, cur + 1)
    }
}

/// The lines of `s` (`str::lines`).
pub open spec fn lines(s: Seq<char>) -> Seq<Seq<char>> {
    lines_from(s, 0, 0)
}

/// The pieces of `s[start..]` between occurrences of `c`, scanning from `cur`.
pub open spec fn split_from(s: Seq<char>, c: char, start: int, cur: int) -> Seq<Seq<char>>
    decreases s.len() - cur,
{
    if cur >= s.len() {
        seq![s.subrange(start, s.len() as int)]
    } else if s[cur] == c {
        seq![s.subrange(start, cur)] + split_from(s, c, cur + 1, cur + 1)
    } else {
        split_from(s, c, start, cur + 1)
    }
}

/// The pieces of `s` between occurrences of `c` (`str::split` with a `char`).
pub open spec fn split(s: Seq<char>, c: char) -> Seq<Seq<char>> {
    split_from(s, c, 0, 0)
}

/// The pieces joined with `c` between each two.
pub open spec fn join(parts: Seq<Seq<char>>, c: char) -> Seq<char>
    decreases parts.len(),
{
    if parts.len() == 0 {
        seq![]
    } else if parts.len() == 1 {
        parts[0]
    } else {
        parts[0] + seq![c] + join(parts.drop_first(), c)
    }
}

/// The views of a sequence of character vectors.
pub open spec fn views(v: Seq<Vec<char>>) -> Seq<Seq<char>> {
    v.map_values(|x: Vec<char>| x@)
}

/// The hexadecimal (and, below ten, decimal) digit for `d`, lower case.
pub open spec fn hex_digit(d: int) -> char {
    if d == 0 { '0' } else if d == 1 { '1' } else if d == 2 { '2' } else if d == 3 { '3' }
    else if d == 4 { '4' } else if d == 5 { '5' } else if d == 6 { '6' } else if d == 7 { '7' }
    else if d == 8 { '8' } else if d == 9 { '9' } else if d == 10 { 'a' } else if d == 11 { 'b' }
    else if d == 12 { 'c' } else if d == 13 { 'd' } else if d == 14 { 'e' } else { 'f' }
}

/// The decimal numeral of `n`, without leading zeros (`{}` on an integer).
pub open spec fn decimal(n: nat) -> Seq<char>
    decreases n,
{
    if n < 10 {
        seq![hex_digit(n as int)]
    } else {
        decimal(n / 10).push(hex_digit((n % 10) as int))
    }
}

/// The last `w` hexadecimal digits of `n`, zero-padded (`{:0w$x}` when `n`
/// has at most `w` digits).
pub open spec fn hex_fixed(n: nat, w: nat) -> Seq<char>
    decreases w,
{
    if w == 0 {
        seq![]
    } else {
        hex_fixed(n / 16, (w - 1) as nat).push(hex_digit((n % 16) as int))
    }
}

/// `c` is an ASCII decimal digit.
pub open spec fn is_digit(c: char) -> bool {
    48 <= c as u32 <= 57
}

/// Every character of `s` is an ASCII decimal digit.
pub open spec fn all_digits(s: Seq<char>) -> bool {
    forall|i: int| 0 <= i < s.len() ==> is_digit(#[trigger] s[i])
}

/// The number that the decimal digits `s` denote.
pub open spec fn digits_value(s: Seq<char>) -> int
    decreases s.len(),
{
    if s.len() == 0 {
        0
    } else {
        digits_value(s.drop_last()) * 10 + (s.last() as u32 - 48)
    }
}

/// `s` without one leading `+`.
pub open spec fn unsigned_body(s: Seq<char>) -> Seq<char> {
    if s.len() > 0 && s[0] == '+' {
        s.drop_first()
    } else {
        s
    }
}

/// What `s.parse::<u32>()` gives: an optional `+`, then one or more ASCII
/// digits whose value fits in a `u32`.
pub open spec fn parse_u32_spec(s: Seq<char>) -> Option<u32> {
    let b = unsigned_body(s);
    if b.len() > 0 && all_digits(b) && digits_value(b) <= u32::MAX {
        Some(digits_value(b) as u32)
    } else {
        None
    }
}

// ─────────────────────────────────────────────────────────────────────────
// Lemmas
// ─────────────────────────────────────────────────────────────────────────

/// A match found from `i` on is a match, and no earlier position from `i` on matches.
pub proof fn lemma_find_from(s: Seq<char>, p: Seq<char>, i: int)
    requires
        0 <= i,
    ensures
        find_from(s, p, i) matches Some(k) ==> i <= k && matches_at(s, p, k) && forall|j: int|
            i <= j < k ==> !matches_at(s, p, j),
        find_from(s, p, i) is None ==> forall|j: int| i <= j ==> !matches_at(s, p, j),
    decreases s.len() + 1 - i,
{
    if i + p.len() > s.len() {
    } else if matches_at(s, p, i) {
    } else {
        lemma_find_from(s, p, i + 1);
    }
}

/// A sequence holding a character that is not white space trims to a
/// non-empty sequence.
pub proof fn lemma_trim_nonempty(s: Seq<char>, k: int)
    requires
        0 <= k < s.len(),
        !is_white(s[k]),
    ensures
        trim(s).len() > 0,
{
    let m = lemma_trim_start_keeps(s, k);
    lemma_trim_end_keeps(trim_start(s), m);
}

proof fn lemma_trim_start_bound(t: Seq<char>) -> (s: int)
    ensures
        0 <= s <= t.len(),
        trim_start(t) == t.skip(s),
        forall|k: int| 0 <= k < s ==> is_white(#[trigger] t[k]),
        s < t.len() ==> !is_white(t[s]),
    decreases t.len(),
{
    if t.len() > 0 && is_white(t[0]) {
        let s1 = lemma_trim_start_bound(t.drop_first());
        assert(t.drop_first().skip(s1) =~= t.skip(s1 + 1));
        assert forall|k: int| 0 <= k < s1 + 1 implies is_white(#[trigger] t[k]) by {
            if k > 0 {
                assert(t.drop_first()[k - 1] == t[k]);
            }
        }
        s1 + 1
    } else {
        assert(t.skip(0) =~= t);
        0
    }
}

proof fn lemma_trim_end_bound(u: Seq<char>) -> (e: int)
    ensures
        0 <= e <= u.len(),
        trim_end(u) == u.take(e),
        forall|k: int| e <= k < u.len() ==> is_white(#[trigger] u[k]),
        e > 0 ==> !is_white(u[e - 1]),
    decreases u.len(),
{
    if u.len() > 0 && is_white(u.last()) {
        let e1 = lemma_trim_end_bound(u.drop_last());
        assert(u.drop_last().take(e1) =~= u.take(e1));
        assert forall|k: int| e1 <= k < u.len() implies is_white(#[trigger] u[k]) by {
            if k < u.len() - 1 {
                assert(u.drop_last()[k] == u[k]);
            }
        }
        e1
    } else {
        assert(u.take(u.len() as int) =~= u);
        u.len() as int
    }
}

/// `str::trim` keeps exactly the stretch from the first to the last
/// character that is not white space: what it drops at either end is white
/// space, and what it keeps, when anything, begins and ends with a character
/// that is not.
pub proof fn lemma_trim_bounds(t: Seq<char>) -> (r: (int, int))
    ensures
        0 <= r.0 <= r.1 <= t.len(),
        trim(t) == t.subrange(r.0, r.1),
        forall|k: int| 0 <= k < r.0 ==> is_white(#[trigger] t[k]),
        forall|k: int| r.1 <= k < t.len() ==> is_white(#[trigger] t[k]),
        r.0 < r.1 ==> !is_white(t[r.0]) && !is_white(t[r.1 - 1]),
        r.0 == r.1 ==> r.0 == t.len(),
{
    let s = lemma_trim_start_bound(t);
    let u = t.skip(s);
    let e = lemma_trim_end_bound(u);
    assert(u.take(e) =~= t.subrange(s, s + e));
    assert forall|k: int| s + e <= k < t.len() implies is_white(#[trigger] t[k]) by {
        assert(u[k - s] == t[k]);
    }
    if e > 0 {
        assert(u[e - 1] == t[s + e - 1]);
    }
    if s < t.len() {
        assert(u[0] == t[s]);
        assert(!is_white(u[0]));
        if e == 0 {
            assert(is_white(u[0]));
        }
    }
    (s, s + e)
}

proof fn lemma_trim_start_keeps(s: Seq<char>, k: int) -> (m: int)
    requires
        0 <= k < s.len(),
        !is_white(s[k]),
    ensures
        0 <= m < trim_start(s).len(),
        !is_white(trim_start(s)[m]),
    decreases s.len(),
{
    if s.len() > 0 && is_white(s[0]) {
        assert(k > 0);
        assert(s.drop_first()[k - 1] == s[k]);
        lemma_trim_start_keeps(s.drop_first(), k - 1)
    } else {
        k
    }
}

proof fn lemma_trim_end_keeps(s: Seq<char>, k: int)
    requires
        0 <= k < s.len(),
        !is_white(s[k]),
    ensures
        trim_end(s).len() > 0,
    decreases s.len(),
{
    if s.len() > 0 && is_white(s.last()) {
        assert(k < s.len() - 1);
        assert(s.drop_last()[k] == s[k]);
        lemma_trim_end_keeps(s.drop_last(), k);
    }
}


/// The digit for `d` below ten is an ASCII digit worth `d`.
pub proof fn lemma_digit(d: int)
    requires
        0 <= d < 10,
    ensures
        is_digit(hex_digit(d)),
        hex_digit(d) as u32 - 48 == d,
{
    assert('0' as u32 == 48);
}

proof fn lemma_digits_value_nonneg(s: Seq<char>)
    requires
        all_digits(s),
    ensures
        digits_value(s) >= 0,
    decreases s.len(),
{
    if s.len() > 0 {
        assert(is_digit(s[s.len() - 1]));
        lemma_digits_value_nonneg(s.drop_last());
    }
}

/// A prefix of a digit string never denotes more than the whole.
proof fn lemma_digits_prefix_le(s: Seq<char>, k: int)
    requires
        all_digits(s),
        0 <= k <= s.len(),
    ensures
        digits_value(s.take(k)) <= digits_value(s),
    decreases s.len(),
{
    if k < s.len() {
        assert(s.drop_last().take(k) =~= s.take(k));
        lemma_digits_prefix_le(s.drop_last(), k);
        lemma_digits_value_nonneg(s.drop_last());
        assert(is_digit(s[s.len() - 1]));
    } else {
        assert(s.take(k) =~= s);
    }
}

proof fn lemma_split_from(s: Seq<char>, c: char, start: int, cur: int)
    requires
        0 <= start <= cur <= s.len(),
        forall|j: int| start <= j < cur ==> s[j] != c,
    ensures
        split_from(s, c, start, cur).len() >= 1,
        join(split_from(s, c, start, cur), c) == s.subrange(start, s.len() as int),
        forall|i: int, j: int|
            0 <= i < split_from(s, c, start, cur).len() && 0 <= j < split_from(s, c, start, cur)[i].len()
                ==> #[trigger] split_from(s, c, start, cur)[i][j] != c,
    decreases s.len() - cur,
{
    let parts = split_from(s, c, start, cur);
    if cur >= s.len() {
        assert(parts =~= seq![s.subrange(start, s.len() as int)]);
    } else if s[cur] == c {
        lemma_split_from(s, c, cur + 1, cur + 1);
        let rest = split_from(s, c, cur + 1, cur + 1);
        let head = s.subrange(start, cur);
        assert(parts == seq![head] + rest);
        assert(parts.drop_first() =~= rest);
        assert(parts[0] == head);
        assert(join(parts, c) == head + seq![c] + join(rest, c));
        assert(head + seq![c] + s.subrange(cur + 1, s.len() as int) =~= s.subrange(start, s.len() as int));
        assert forall|i: int, j: int| 0 <= i < parts.len() && 0 <= j < parts[i].len() implies #[trigger] parts[i][j] != c by {
            if i == 0 {
                assert(parts[0][j] == s[start + j]);
            } else {
                assert(parts[i] == rest[i - 1]);
            }
        }
    } else {
        lemma_split_from(s, c, start, cur + 1);
    }
}

/// Splitting on `c` and joining the pieces with `c` gives back the text, and
/// no piece holds `c`.
pub proof fn law_split_rejoins(s: Seq<char>, c: char)
    ensures
        split(s, c).len() >= 1,
        join(split(s, c), c) == s,
        forall|i: int, j: int|
            0 <= i < split(s, c).len() && 0 <= j < split(s, c)[i].len() ==> #[trigger] split(s, c)[i][j]
                != c,
{
    lemma_split_from(s, c, 0, 0);
    assert(s.subrange(0, s.len() as int) =~= s);
}

/// The decimal numeral of `n` is a non-empty digit string denoting `n`.
pub proof fn lemma_decimal_value(n: nat)
    ensures
        decimal(n).len() > 0,
        all_digits(decimal(n)),
        digits_value(decimal(n)) == n,
    decreases n,
{
    if n < 10 {
        lemma_digit(n as int);
        assert(decimal(n).drop_last() =~= Seq::<char>::empty());
        assert(digits_value(Seq::<char>::empty()) == 0);
    } else {
        lemma_digit((n % 10) as int);
        lemma_decimal_value(n / 10);
        let d = decimal(n);
        assert(d.drop_last() =~= decimal(n / 10));
        assert(d.last() == hex_digit((n % 10) as int));
        assert(digits_value(d) == digits_value(d.drop_last()) * 10 + (d.last() as u32 - 48));
        assert(digits_value(d.drop_last()) == n / 10);
        assert(d.last() as u32 - 48 == n % 10);
        assert((n / 10) * 10 + n % 10 == n);
        assert(forall|i: int| 0 <= i < d.len() - 1 ==> d[i] == decimal(n / 10)[i]);
    }
}

/// Parsing the decimal numeral of a `u32` gives that `u32` back.
pub proof fn law_parse_after_format(n: u32)
    ensures
        parse_u32_spec(decimal(n as nat)) == Some(n),
{
    lemma_decimal_value(n as nat);
    assert(is_digit(decimal(n as nat)[0]));
    assert(unsigned_body(decimal(n as nat)) == decimal(n as nat));
}

// ─────────────────────────────────────────────────────────────────────────
// Executable operations
// ─────────────────────────────────────────────────────────────────────────

/// Appends one character to a `String` (`String::push`).
#[verifier::external_body]
fn push_char(s: &mut String, c: char)
    ensures
        final(s)@ == old(s)@.push(c),
{
    s.push(c);
}

/// The characters of `s`, in order.
pub fn chars_of(s: &str) -> (v: Vec<char>)
    ensures
        v@ == s@,
{
    let mut v: Vec<char> = Vec::new();
    for c in it: s.chars()
        invariant
            v@ == it.seq().take(it.index() as int),
            it.seq() == s@,
    {
        v.push(c);
    }
    v
}

/// Appends `v[lo..hi]` to `s`.
pub fn push_chars(s: &mut String, v: &Vec<char>, lo: usize, hi: usize)
    requires
        lo <= hi <= v@.len(),
    ensures
        final(s)@ == old(s)@ + v@.subrange(lo as int, hi as int),
{
    let mut i = lo;
    while i < hi
        invariant
            lo <= i <= hi <= v@.len(),
            s@ == old(s)@ + v@.subrange(lo as int, i as int),
        decreases hi - i,
    {
        push_char(s, v[i]);
        assert(v@.subrange(lo as int, i + 1) =~= v@.subrange(lo as int, i as int).push(v@[i as int]));
        i = i + 1;
    }
}

/// A `String` holding exactly the characters of `v`.
pub fn string_of(v: &Vec<char>) -> (s: String)
    ensures
        s@ == v@,
{
    let mut s = String::new();
    push_chars(&mut s, v, 0, v.len());
    assert(v@.subrange(0, v@.len() as int) =~= v@);
    s
}

/// `v[lo..hi]` as a vector of its own.
pub fn sub_chars(v: &Vec<char>, lo: usize, hi: usize) -> (r: Vec<char>)
    requires
        lo <= hi <= v@.len(),
    ensures
        r@ == v@.subrange(lo as int, hi as int),
{
    let mut r: Vec<char> = Vec::new();
    let mut i = lo;
    while i < hi
        invariant
            lo <= i <= hi <= v@.len(),
            r@ == v@.subrange(lo as int, i as int),
        decreases hi - i,
    {
        r.push(v[i]);
        assert(v@.subrange(lo as int, i + 1) =~= v@.subrange(lo as int, i as int).push(v@[i as int]));
        i = i + 1;
    }
    r
}

/// Whether `c` is Unicode white space (`char::is_whitespace`).
pub fn is_white_char(c: char) -> (b: bool)
    ensures
        b == is_white(c),
{
    let u = c as u32;
    (0x09 <= u && u <= 0x0d) || u == 0x20 || u == 0x85 || u == 0xa0 || u == 0x1680 || (0x2000 <= u
        && u <= 0x200a) || u == 0x2028 || u == 0x2029 || u == 0x202f || u == 0x205f || u == 0x3000
}

/// `v` without white space at either end (`str::trim`).
pub fn trim_chars(v: &Vec<char>) -> (r: Vec<char>)
    ensures
        r@ == trim(v@),
{
    let n = v.len();
    let mut lo: usize = 0;
    assert(v@.subrange(0, n as int) =~= v@);
    while lo < n && is_white_char(v[lo])
        invariant
            lo <= n == v@.len(),
            trim_start(v@) == trim_start(v@.subrange(lo as int, n as int)),
        decreases n - lo,
    {
        assert(v@.subrange(lo as int, n as int).drop_first() =~= v@.subrange(lo + 1, n as int));
        lo = lo + 1;
    }
    assert(trim_start(v@) == v@.subrange(lo as int, n as int));
    let mut hi: usize = n;
    while hi > lo && is_white_char(v[hi - 1])
        invariant
            lo <= hi <= n == v@.len(),
            trim_end(v@.subrange(lo as int, n as int)) == trim_end(v@.subrange(lo as int, hi as int)),
        decreases hi,
    {
        assert(v@.subrange(lo as int, hi as int).drop_last() =~= v@.subrange(lo as int, hi - 1));
        hi = hi - 1;
    }
    sub_chars(v, lo, hi)
}

/// Whether `p` occurs in `s` at position `i`.
pub fn matches_at_chars(s: &Vec<char>, p: &Vec<char>, i: usize) -> (b: bool)
    ensures
        b == matches_at(s@, p@, i as int),
{
    if i > s.len() || p.len() > s.len() - i {
        return false;
    }
    let mut j: usize = 0;
    while j < p.len()
        invariant
            i + p@.len() <= s@.len(),
            j <= p@.len(),
            i + j <= s@.len(),
            i + p.len() <= s.len(),
            forall|k: int| 0 <= k < j ==> s@[i + k] == p@[k],
        decreases p@.len() - j,
    {
        if s[i + j] != p[j] {
            assert(s@.subrange(i as int, i + p@.len())[j as int] != p@[j as int]);
            return false;
        }
        j = j + 1;
    }
    assert(s@.subrange(i as int, i + p@.len()) =~= p@);
    true
}

/// The first position where `p` occurs in `s` (`str::find`).
pub fn find_chars(s: &Vec<char>, p: &Vec<char>) -> (r: Option<usize>)
    ensures
        match r {
            Some(i) => find(s@, p@) == Some(i as int),
            None => find(s@, p@) is None,
        },
{
    if p.len() > s.len() {
        return None;
    }
    let last = s.len() - p.len();
    let mut i: usize = 0;
    loop
        invariant
            last + p@.len() == s@.len(),
            i <= last,
            find(s@, p@) == find_from(s@, p@, i as int),
        decreases last - i,
    {
        if matches_at_chars(s, p, i) {
            return Some(i);
        }
        if i == last {
            assert(find_from(s@, p@, i + 1) is None);
            return None;
        }
        i = i + 1;
    }
}

/// Whether `p` occurs in `s` (`str::contains`).
pub fn contains_chars(s: &Vec<char>, p: &Vec<char>) -> (b: bool)
    ensures
        b == contains(s@, p@),
{
    find_chars(s, p).is_some()
}

/// Whether `s` begins with `p` (`str::starts_with`).
pub fn starts_with_chars(s: &Vec<char>, p: &Vec<char>) -> (b: bool)
    ensures
        b == starts_with(s@, p@),
{
    matches_at_chars(s, p, 0)
}

/// `s` with every leading copy of `p` removed (`str::trim_start_matches`).
pub fn trim_start_matches_chars(s: &Vec<char>, p: &Vec<char>) -> (r: Vec<char>)
    ensures
        r@ == trim_start_matches(s@, p@),
{
    if p.len() == 0 {
        return sub_chars(s, 0, s.len());
    }
    let n = s.len();
    let mut i: usize = 0;
    assert(s@.subrange(0, n as int) =~= s@);
    while i <= n && matches_at_chars(s, p, i)
        invariant
            p@.len() > 0,
            i <= n == s@.len(),
            trim_start_matches(s@, p@) == trim_start_matches(s@.subrange(i as int, n as int), p@),
        decreases n - i,
    {
        let ghost t = s@.subrange(i as int, n as int);
        assert(t.subrange(0, p@.len() as int) =~= s@.subrange(i as int, i + p@.len()));
        assert(t.skip(p@.len() as int) =~= s@.subrange(i + p@.len(), n as int));
        i = i + p.len();
    }
    proof {
        let t = s@.subrange(i as int, n as int);
        if p@.len() <= t.len() {
            assert(t.subrange(0, p@.len() as int) =~= s@.subrange(i as int, i + p@.len()));
        }
    }
    sub_chars(s, i, n)
}


/// `line` without one trailing carriage return.
fn strip_cr_chars(line: Vec<char>) -> (r: Vec<char>)
    ensures
        r@ == strip_cr(line@),
{
    let mut line = line;
    let n = line.len();
    if n > 0 && line[n - 1] == '\r' {
        line.pop();
    }
    line
}

/// The lines of `s` (`str::lines`).
pub fn lines_chars(s: &Vec<char>) -> (r: Vec<Vec<char>>)
    ensures
        views(r@) == lines(s@),
{
    let n = s.len();
    let mut out: Vec<Vec<char>> = Vec::new();
    let mut start: usize = 0;
    let mut cur: usize = 0;
    while cur < n
        invariant
            start <= cur <= n == s@.len(),
            lines(s@) == views(out@) + lines_from(s@, start as int, cur as int),
        decreases n - cur,
    {
        if s[cur] == '\n' {
            let line = strip_cr_chars(sub_chars(s, start, cur));
            let ghost before = views(out@);
            out.push(line);
            assert(views(out@) =~= before.push(line@));
            cur = cur + 1;
            start = cur;
        } else {
            cur = cur + 1;
        }
    }
    if start < n {
        let line = sub_chars(s, start, n);
        let ghost before = views(out@);
        out.push(line);
        assert(views(out@) =~= before.push(line@));
    } else {
        assert(views(out@) + Seq::<Seq<char>>::empty() =~= views(out@));
    }
    out
}

/// The pieces of `s` between occurrences of `c` (`str::split` with a `char`).
pub fn split_chars(s: &Vec<char>, c: char) -> (r: Vec<Vec<char>>)
    ensures
        views(r@) == split(s@, c),
{
    let n = s.len();
    let mut out: Vec<Vec<char>> = Vec::new();
    let mut start: usize = 0;
    let mut cur: usize = 0;
    while cur < n
        invariant
            start <= cur <= n == s@.len(),
            split(s@, c) == views(out@) + split_from(s@, c, start as int, cur as int),
        decreases n - cur,
    {
        if s[cur] == c {
            let piece = sub_chars(s, start, cur);
            let ghost before = views(out@);
            out.push(piece);
            assert(views(out@) =~= before.push(piece@));
            cur = cur + 1;
            start = cur;
        } else {
            cur = cur + 1;
        }
    }
    let piece = sub_chars(s, start, n);
    let ghost before = views(out@);
    out.push(piece);
    assert(views(out@) =~= before.push(piece@));
    out
}

/// The digit for `d` (lower-case hexadecimal; decimal below ten).
pub fn hex_digit_char(d: u64) -> (c: char)
    requires
        d < 16,
    ensures
        c == hex_digit(d as int),
{
    if d == 0 { '0' } else if d == 1 { '1' } else if d == 2 { '2' } else if d == 3 { '3' }
    else if d == 4 { '4' } else if d == 5 { '5' } else if d == 6 { '6' } else if d == 7 { '7' }
    else if d == 8 { '8' } else if d == 9 { '9' } else if d == 10 { 'a' } else if d == 11 { 'b' }
    else if d == 12 { 'c' } else if d == 13 { 'd' } else if d == 14 { 'e' } else { 'f' }
}

/// The decimal numeral of `n`.
pub fn decimal_chars(n: u64) -> (v: Vec<char>)
    ensures
        v@ == decimal(n as nat),
{
    let mut m = n;
    let mut acc: Vec<char> = Vec::new();
    while m >= 10
        invariant
            decimal(n as nat) == decimal(m as nat) + acc@,
        decreases m,
    {
        let ghost old_acc = acc@;
        acc.insert(0, hex_digit_char(m % 10));
        assert(decimal(m as nat) == decimal((m / 10) as nat).push(hex_digit((m % 10) as int)));
        assert(decimal((m / 10) as nat).push(hex_digit((m % 10) as int)) + old_acc =~= decimal(
            (m / 10) as nat,
        ) + acc@);
        m = m / 10;
    }
    let ghost old_acc = acc@;
    acc.insert(0, hex_digit_char(m));
    assert(decimal(m as nat) + old_acc =~= acc@);
    acc
}

/// Appends the decimal numeral of `n` to `s`.
pub fn push_decimal(s: &mut String, n: u64)
    ensures
        final(s)@ == old(s)@ + decimal(n as nat),
{
    let d = decimal_chars(n);
    push_chars(s, &d, 0, d.len());
    assert(d@.subrange(0, d@.len() as int) =~= d@);
}

/// Appends the last `w` hexadecimal digits of `n`, zero-padded, to `s`.
pub fn push_hex(s: &mut String, n: u64, w: usize)
    ensures
        final(s)@ == old(s)@ + hex_fixed(n as nat, w as nat),
{
    let mut m = n;
    let mut acc: Vec<char> = Vec::new();
    let mut k: usize = 0;
    while k < w
        invariant
            k <= w,
            hex_fixed(n as nat, w as nat) == hex_fixed(m as nat, (w - k) as nat) + acc@,
        decreases w - k,
    {
        let ghost old_acc = acc@;
        acc.insert(0, hex_digit_char(m % 16));
        assert(hex_fixed(m as nat, (w - k) as nat) == hex_fixed((m / 16) as nat, (w - k - 1) as nat).push(
            hex_digit((m % 16) as int),
        ));
        assert(hex_fixed((m / 16) as nat, (w - k - 1) as nat).push(hex_digit((m % 16) as int))
            + old_acc =~= hex_fixed((m / 16) as nat, (w - k - 1) as nat) + acc@);
        m = m / 16;
        k = k + 1;
    }
    assert(hex_fixed(m as nat, 0) + acc@ =~= acc@);
    push_chars(s, &acc, 0, acc.len());
    assert(acc@.subrange(0, acc@.len() as int) =~= acc@);
}

/// `s.parse::<u32>().ok()`: an optional `+`, then one or more ASCII digits
/// whose value fits in a `u32`.
pub fn parse_u32(s: &str) -> (r: Option<u32>)
    ensures
        r == parse_u32_spec(s@),
{
    let v = chars_of(s);
    let n = v.len();
    let start: usize = if n > 0 && v[0] == '+' { 1 } else { 0 };
    let ghost b = unsigned_body(v@);
    assert(b =~= v@.subrange(start as int, n as int));
    if start == n {
        return None;
    }
    let mut acc: u64 = 0;
    let mut i: usize = start;
    assert(v@.subrange(start as int, start as int) =~= Seq::<char>::empty());
    while i < n
        invariant
            start <= i <= n == v@.len(),
            v@ == s@,
            b == unsigned_body(s@),
            b.len() > 0,
            b == v@.subrange(start as int, n as int),
            acc as int == digits_value(v@.subrange(start as int, i as int)),
            all_digits(v@.subrange(start as int, i as int)),
            acc <= u32::MAX,
        decreases n - i,
    {
        let c = v[i];
        let u = c as u32;
        if u < 48 || u > 57 {
            assert(u == c as u32);
            assert(!is_digit(c));
            assert(b[i - start] == v@[i as int]);
            assert(!is_digit(b[i - start]));
            assert(!all_digits(b));
            return None;
        }
        let ghost pre = v@.subrange(start as int, i as int);
        let ghost post = v@.subrange(start as int, i + 1);
        assert(post.drop_last() =~= pre);
        assert(post.last() == c);
        acc = acc * 10 + (u - 48) as u64;
        assert(acc as int == digits_value(post));
        assert(all_digits(post)) by {
            assert forall|j: int| 0 <= j < post.len() implies is_digit(#[trigger] post[j]) by {
                if j < pre.len() {
                    assert(post[j] == pre[j]);
                }
            }
        }
        if acc > 0xffff_ffff {
            proof {
                if all_digits(b) {
                    assert(b.take((i + 1 - start) as int) =~= post);
                    lemma_digits_prefix_le(b, (i + 1 - start) as int);
                }
            }
            return None;
        }
        i = i + 1;
    }
    Some(acc as u32)
}

} // verus!
