//! Character-level text operations over `Seq<char>`, with executable
//! counterparts on `Vec<char>`.
use vstd::prelude::*;

verus! {

// ---------------------------------------------------------------------
// Specifications
// ---------------------------------------------------------------------

/// `s` begins with `p`.
pub open spec fn has_prefix(s: Seq<char>, p: Seq<char>) -> bool {
    p.len() <= s.len() && s.take(p.len() as int) == p
}

/// `s` ends with `p`.
pub open spec fn has_suffix(s: Seq<char>, p: Seq<char>) -> bool {
    p.len() <= s.len() && s.skip(s.len() - p.len()) == p
}

/// `p` occurs in `s` at position `k`.
pub open spec fn occurs_at(s: Seq<char>, p: Seq<char>, k: int) -> bool {
    0 <= k && k + p.len() <= s.len() && s.subrange(k, k + p.len()) == p
}

/// `p` occurs somewhere in `s`.
pub open spec fn has_infix(s: Seq<char>, p: Seq<char>) -> bool {
    exists|k: int| occurs_at(s, p, k)
}

/// Index of the first `c` at or after `i`, or `s.len()` when there is none.
pub open spec fn find_char_from(s: Seq<char>, c: char, i: int) -> int
    decreases s.len() - i,
{
    if i >= s.len() {
        s.len() as int
    } else if s[i] == c {
        i
    } else {
        find_char_from(s, c, i + 1)
    }
}

/// A character that ends the host part of a URL authority: `/`, `?` or `#`.
pub open spec fn is_host_delim(c: char) -> bool {
    c == '/' || c == '?' || c == '#'
}

/// Index of the first host delimiter at or after `i`, or `s.len()`.
pub open spec fn find_host_delim_from(s: Seq<char>, i: int) -> int
    decreases s.len() - i,
{
    if i >= s.len() {
        s.len() as int
    } else if is_host_delim(s[i]) {
        i
    } else {
        find_host_delim_from(s, i + 1)
    }
}

/// Index of the last `c` strictly before `end`, or -1 when there is none.
pub open spec fn rfind_char_before(s: Seq<char>, c: char, end: int) -> int
    decreases end,
{
    if end <= 0 {
        -1
    } else if s[end - 1] == c {
        end - 1
    } else {
        rfind_char_before(s, c, end - 1)
    }
}

/// Index of the first occurrence of `p` starting at or after `i`, or `s.len()`
/// when there is none.
pub open spec fn find_pat_from(s: Seq<char>, p: Seq<char>, i: int) -> int
    decreases s.len() - i,
{
    if i >= s.len() || i + p.len() > s.len() {
        s.len() as int
    } else if occurs_at(s, p, i) {
        i
    } else {
        find_pat_from(s, p, i + 1)
    }
}

/// The characters of Unicode's `White_Space` property, which `char::is_whitespace`
/// and `str::trim` go by.
pub open spec fn is_white_space(c: char) -> bool {
    let u = c as u32;
    ||| 0x09 <= u <= 0x0D
    ||| u == 0x20
    ||| u == 0x85
    ||| u == 0xA0
    ||| u == 0x1680
    ||| 0x2000 <= u <= 0x200A
    ||| u == 0x2028
    ||| u == 0x2029
    ||| u == 0x202F
    ||| u == 0x205F
    ||| u == 0x3000
}

/// Index of the first non-white-space character at or after `i`, or `s.len()`.
pub open spec fn find_non_ws_from(s: Seq<char>, i: int) -> int
    decreases s.len() - i,
{
    if i >= s.len() {
        s.len() as int
    } else if !is_white_space(s[i]) {
        i
    } else {
        find_non_ws_from(s, i + 1)
    }
}

/// Index of the last non-white-space character strictly before `end`, or -1.
pub open spec fn rfind_non_ws_before(s: Seq<char>, end: int) -> int
    decreases end,
{
    if end <= 0 {
        -1
    } else if !is_white_space(s[end - 1]) {
        end - 1
    } else {
        rfind_non_ws_before(s, end - 1)
    }
}

/// `s` with leading and trailing white space removed (what `str::trim` gives).
pub open spec fn trim_spec(s: Seq<char>) -> Seq<char> {
    let a = find_non_ws_from(s, 0);
    if a >= s.len() {
        Seq::empty()
    } else {
        s.subrange(a, rfind_non_ws_before(s, s.len() as int) + 1)
    }
}

/// ASCII lower-casing of one character (what `char::to_ascii_lowercase` does).
pub open spec fn lower_char(c: char) -> char {
    if 65 <= (c as u32) <= 90 {
        ((c as u8) + 32) as char
    } else {
        c
    }
}

/// ASCII lower-casing of a whole sequence (what `str::to_ascii_lowercase` does).
pub open spec fn lower_spec(s: Seq<char>) -> Seq<char> {
    Seq::new(s.len(), |i: int| lower_char(s[i]))
}

/// The ASCII digit for `d` (taken modulo 10).
pub open spec fn digit_char(d: nat) -> char {
    (((d % 10) as u8) + 48) as char
}

/// The decimal representation of `n`, without leading zeros.
pub open spec fn decimal(n: nat) -> Seq<char>
    decreases n,
{
    if n < 10 {
        seq![digit_char(n)]
    } else {
        decimal(n / 10).push(digit_char(n % 10))
    }
}

// ---------------------------------------------------------------------
// Lemmas
// ---------------------------------------------------------------------

/// What `find_char_from` returns: the first match at or after `i`.
pub proof fn lemma_find_char(s: Seq<char>, c: char, i: int)
    requires
        0 <= i <= s.len(),
    ensures
        i <= find_char_from(s, c, i) <= s.len(),
        find_char_from(s, c, i) < s.len() ==> s[find_char_from(s, c, i)] == c,
        forall|k: int| i <= k < find_char_from(s, c, i) ==> s[k] != c,
    decreases s.len() - i,
{
    if i < s.len() && s[i] != c {
        lemma_find_char(s, c, i + 1);
    }
}

/// What `find_pat_from` returns: the first occurrence at or after `i`.
pub proof fn lemma_find_pat(s: Seq<char>, p: Seq<char>, i: int)
    requires
        0 <= i <= s.len(),
        p.len() > 0,
    ensures
        i <= find_pat_from(s, p, i) <= s.len(),
        find_pat_from(s, p, i) < s.len() ==> occurs_at(s, p, find_pat_from(s, p, i)),
        forall|k: int| i <= k < find_pat_from(s, p, i) ==> !occurs_at(s, p, k),
        find_pat_from(s, p, i) == s.len() ==> forall|k: int| i <= k ==> !occurs_at(s, p, k),
    decreases s.len() - i,
{
    if i < s.len() && i + p.len() <= s.len() && !occurs_at(s, p, i) {
        lemma_find_pat(s, p, i + 1);
    }
}

/// What `find_host_delim_from` returns.
pub proof fn lemma_find_host_delim(s: Seq<char>, i: int)
    requires
        0 <= i <= s.len(),
    ensures
        i <= find_host_delim_from(s, i) <= s.len(),
    decreases s.len() - i,
{
    if i < s.len() && !is_host_delim(s[i]) {
        lemma_find_host_delim(s, i + 1);
    }
}

/// What `rfind_char_before` returns: the last match before `end`.
pub proof fn lemma_rfind_char(s: Seq<char>, c: char, end: int)
    requires
        0 <= end <= s.len(),
    ensures
        -1 <= rfind_char_before(s, c, end) < end,
        rfind_char_before(s, c, end) >= 0 ==> s[rfind_char_before(s, c, end)] == c,
        forall|k: int| rfind_char_before(s, c, end) < k < end ==> s[k] != c,
    decreases end,
{
    if end > 0 && s[end - 1] != c {
        lemma_rfind_char(s, c, end - 1);
    }
}

/// What `rfind_non_ws_before` returns.
pub proof fn lemma_rfind_non_ws(s: Seq<char>, end: int)
    requires
        0 <= end <= s.len(),
    ensures
        -1 <= rfind_non_ws_before(s, end) < end,
        rfind_non_ws_before(s, end) >= 0 ==> !is_white_space(s[rfind_non_ws_before(s, end)]),
        forall|k: int| rfind_non_ws_before(s, end) < k < end ==> is_white_space(s[k]),
    decreases end,
{
    if end > 0 && is_white_space(s[end - 1]) {
        lemma_rfind_non_ws(s, end - 1);
    }
}

// ---------------------------------------------------------------------
// Executable operations
// ---------------------------------------------------------------------

/// Appends one character to a `String` (`String::push`); the contract claims
/// that the string's characters afterwards are the old ones followed by `c`.
#[verifier::external_body]
fn push_char(s: &mut String, c: char)
    ensures
        final(s)@ == old(s)@.push(c),
{
    s.push(c);
}

/// The characters of a string slice.
pub fn chars_of(s: &str) -> (v: Vec<char>)
    ensures
        v@ == s@,
{
    let mut v: Vec<char> = Vec::new();
    for c in it: s.chars()
        invariant
            v@ == it.seq().take(it.index() as int),
    {
        v.push(c);
    }
    v
}

/// A `String` holding exactly the given characters.
pub fn string_of(v: &Vec<char>) -> (s: String)
    ensures
        s@ == v@,
{
    let mut s = String::new();
    let mut i: usize = 0;
    while i < v.len()
        invariant
            i <= v.len(),
            s@ == v@.take(i as int),
        decreases v.len() - i,
    {
        push_char(&mut s, v[i]);
        assert(v@.take(i + 1) =~= v@.take(i as int).push(v@[i as int]));
        i = i + 1;
    }
    assert(v@.take(v.len() as int) =~= v@);
    s
}

/// Concatenation of two strings into a new `String`.
pub fn concat(a: &str, b: &str) -> (s: String)
    ensures
        s@ == a@ + b@,
{
    let s = String::from_str(a);
    s.concat(b)
}

/// Character-wise equality of two sequences.
pub fn chars_eq(a: &Vec<char>, b: &Vec<char>) -> (r: bool)
    ensures
        r == (a@ == b@),
{
    if a.len() != b.len() {
        return false;
    }
    let mut i: usize = 0;
    while i < a.len()
        invariant
            i <= a.len(),
            a.len() == b.len(),
            forall|k: int| 0 <= k < i ==> a@[k] == b@[k],
        decreases a.len() - i,
    {
        if a[i] != b[i] {
            return false;
        }
        i = i + 1;
    }
    assert(a@ =~= b@);
    true
}

/// Equality of a character sequence with a string slice.
pub fn chars_eq_str(a: &Vec<char>, b: &str) -> (r: bool)
    ensures
        r == (a@ == b@),
{
    let bv = chars_of(b);
    chars_eq(a, &bv)
}

/// Equality of two string slices.
pub fn str_eq(a: &str, b: &str) -> (r: bool)
    ensures
        r == (a@ == b@),
{
    let av = chars_of(a);
    chars_eq_str(&av, b)
}

/// `p` occurs in `s` at position `k`.
pub fn occurs_at_exec(s: &Vec<char>, p: &Vec<char>, k: usize) -> (r: bool)
    ensures
        r == occurs_at(s@, p@, k as int),
{
    if k > s.len() || p.len() > s.len() - k {
        return false;
    }
    let mut j: usize = 0;
    while j < p.len()
        invariant
            j <= p.len(),
            k + p.len() <= s.len(),
            forall|m: int| 0 <= m < j ==> s@[k + m] == p@[m],
        decreases p.len() - j,
    {
        if s[k + j] != p[j] {
            assert(s@.subrange(k as int, k + p.len())[j as int] != p@[j as int]);
            return false;
        }
        j = j + 1;
    }
    assert(s@.subrange(k as int, k + p.len()) =~= p@);
    true
}

/// Whether `s` begins with `p`.
pub fn starts_with(s: &Vec<char>, p: &Vec<char>) -> (r: bool)
    ensures
        r == has_prefix(s@, p@),
{
    let r = occurs_at_exec(s, p, 0);
    assert(r == has_prefix(s@, p@)) by {
        if p@.len() <= s@.len() {
            assert(s@.subrange(0, p@.len() as int) =~= s@.take(p@.len() as int));
        }
    }
    r
}

/// Whether the string `s` begins with the string `p`.
pub fn str_starts_with(s: &str, p: &str) -> (r: bool)
    ensures
        r == has_prefix(s@, p@),
{
    let sv = chars_of(s);
    let pv = chars_of(p);
    starts_with(&sv, &pv)
}

/// Whether `s` ends with `p`.
pub fn ends_with(s: &Vec<char>, p: &Vec<char>) -> (r: bool)
    ensures
        r == has_suffix(s@, p@),
{
    if p.len() > s.len() {
        return false;
    }
    let k = s.len() - p.len();
    let r = occurs_at_exec(s, p, k);
    assert(s@.subrange(k as int, k + p.len()) =~= s@.skip(k as int));
    r
}

/// First index of `c` at or after `from`, or `s.len()`.
pub fn find_char(s: &Vec<char>, c: char, from: usize) -> (i: usize)
    requires
        from <= s.len(),
    ensures
        i == find_char_from(s@, c, from as int),
{
    let mut i = from;
    while i < s.len()
        invariant
            from <= i <= s.len(),
            find_char_from(s@, c, from as int) == find_char_from(s@, c, i as int),
        decreases s.len() - i,
    {
        if s[i] == c {
            return i;
        }
        i = i + 1;
    }
    i
}

/// First index of a host delimiter at or after `from`, or `s.len()`.
pub fn find_host_delim(s: &Vec<char>, from: usize) -> (i: usize)
    requires
        from <= s.len(),
    ensures
        i == find_host_delim_from(s@, from as int),
{
    let mut i = from;
    while i < s.len()
        invariant
            from <= i <= s.len(),
            find_host_delim_from(s@, from as int) == find_host_delim_from(s@, i as int),
        decreases s.len() - i,
    {
        let c = s[i];
        if c == '/' || c == '?' || c == '#' {
            return i;
        }
        i = i + 1;
    }
    i
}

/// Whether `c` occurs in `s`.
pub fn contains_char(s: &Vec<char>, c: char) -> (r: bool)
    ensures
        r == s@.contains(c),
{
    let i = find_char(s, c, 0);
    proof {
        lemma_find_char(s@, c, 0);
    }
    i < s.len()
}

/// Index of the last `c` before `end`, or `None`.
pub fn rfind_char(s: &Vec<char>, c: char, end: usize) -> (r: Option<usize>)
    requires
        end <= s.len(),
    ensures
        match r {
            Some(k) => k as int == rfind_char_before(s@, c, end as int),
            None => rfind_char_before(s@, c, end as int) == -1,
        },
{
    let mut e = end;
    while e > 0
        invariant
            e <= end <= s.len(),
            rfind_char_before(s@, c, end as int) == rfind_char_before(s@, c, e as int),
        decreases e,
    {
        if s[e - 1] == c {
            return Some(e - 1);
        }
        e = e - 1;
    }
    None
}

/// First occurrence of `p` at or after `from`, or `s.len()`.
pub fn find_pat(s: &Vec<char>, p: &Vec<char>, from: usize) -> (i: usize)
    requires
        from <= s.len(),
        p@.len() > 0,
    ensures
        i == find_pat_from(s@, p@, from as int),
{
    let mut i = from;
    while i < s.len() && p.len() <= s.len() - i
        invariant
            from <= i <= s.len(),
            p@.len() > 0,
            find_pat_from(s@, p@, from as int) == find_pat_from(s@, p@, i as int),
        decreases s.len() - i,
    {
        if occurs_at_exec(s, p, i) {
            return i;
        }
        i = i + 1;
    }
    s.len()
}

/// Whether `p` occurs in `s`.
pub fn contains_pat(s: &Vec<char>, p: &Vec<char>) -> (r: bool)
    requires
        p@.len() > 0,
    ensures
        r == has_infix(s@, p@),
{
    let i = find_pat(s, p, 0);
    proof {
        lemma_find_pat(s@, p@, 0);
        if i < s.len() {
            assert(occurs_at(s@, p@, i as int));
        } else {
            assert forall|k: int| !occurs_at(s@, p@, k) by {
                if k < 0 {
                }
            }
        }
    }
    i < s.len()
}

/// The characters of `s` from `a` up to (not including) `b`.
pub fn slice_chars(s: &Vec<char>, a: usize, b: usize) -> (r: Vec<char>)
    requires
        a <= b <= s.len(),
    ensures
        r@ == s@.subrange(a as int, b as int),
{
    let mut r: Vec<char> = Vec::new();
    let mut i = a;
    while i < b
        invariant
            a <= i <= b <= s.len(),
            r@ == s@.subrange(a as int, i as int),
        decreases b - i,
    {
        r.push(s[i]);
        assert(s@.subrange(a as int, i + 1) =~= s@.subrange(a as int, i as int).push(s@[i as int]));
        i = i + 1;
    }
    r
}

/// Executable form of `is_white_space` (what `char::is_whitespace` computes).
pub fn is_white_space_exec(c: char) -> (r: bool)
    ensures
        r == is_white_space(c),
{
    let u = c as u32;
    (0x09 <= u && u <= 0x0D) || u == 0x20 || u == 0x85 || u == 0xA0 || u == 0x1680 || (0x2000
        <= u && u <= 0x200A) || u == 0x2028 || u == 0x2029 || u == 0x202F || u == 0x205F || u
        == 0x3000
}

/// `s` with leading and trailing white space removed.
pub fn trim(s: &Vec<char>) -> (r: Vec<char>)
    ensures
        r@ == trim_spec(s@),
{
    let mut a: usize = 0;
    while a < s.len() && is_white_space_exec(s[a])
        invariant
            a <= s.len(),
            find_non_ws_from(s@, 0) == find_non_ws_from(s@, a as int),
        decreases s.len() - a,
    {
        a = a + 1;
    }
    if a >= s.len() {
        return Vec::new();
    }
    assert(find_non_ws_from(s@, a as int) == a);
    let mut e: usize = s.len();
    while e > 0 && is_white_space_exec(s[e - 1])
        invariant
            e <= s.len(),
            rfind_non_ws_before(s@, s.len() as int) == rfind_non_ws_before(s@, e as int),
        decreases e,
    {
        e = e - 1;
    }
    proof {
        lemma_rfind_non_ws(s@, s.len() as int);
        assert(!is_white_space(s@[a as int]));
        if e == 0 {
            assert(rfind_non_ws_before(s@, 0) == -1);
        }
        assert(rfind_non_ws_before(s@, e as int) == e - 1);
    }
    slice_chars(s, a, e)
}

/// ASCII lower-casing of one character.
pub fn lower_char_exec(c: char) -> (r: char)
    ensures
        r == lower_char(c),
{
    let u = c as u32;
    if 65 <= u && u <= 90 {
        ((c as u8) + 32) as char
    } else {
        c
    }
}

/// ASCII lower-casing of a sequence of characters.
pub fn lower(s: &Vec<char>) -> (r: Vec<char>)
    ensures
        r@ == lower_spec(s@),
{
    let mut r: Vec<char> = Vec::new();
    let mut i: usize = 0;
    while i < s.len()
        invariant
            i <= s.len(),
            r@.len() == i,
            forall|k: int| 0 <= k < i ==> r@[k] == lower_char(s@[k]),
        decreases s.len() - i,
    {
        r.push(lower_char_exec(s[i]));
        i = i + 1;
    }
    assert(r@ =~= lower_spec(s@));
    r
}

/// Appends the decimal digits of `n` to `out`.
pub fn push_decimal(out: &mut Vec<char>, n: u128)
    ensures
        final(out)@ == old(out)@ + decimal(n as nat),
    decreases n,
{
    if n >= 10 {
        push_decimal(out, n / 10);
    }
    let d = (n % 10) as u8;
    out.push((d + 48) as char);
    assert(out@ =~= old(out)@ + decimal(n as nat));
}

/// Concatenation of two character sequences.
pub fn append_chars(a: &Vec<char>, b: &Vec<char>) -> (r: Vec<char>)
    ensures
        r@ == a@ + b@,
{
    let mut r: Vec<char> = Vec::new();
    let mut i: usize = 0;
    while i < a.len()
        invariant
            i <= a.len(),
            r@ == a@.take(i as int),
        decreases a.len() - i,
    {
        r.push(a[i]);
        assert(a@.take(i + 1) =~= a@.take(i as int).push(a@[i as int]));
        i = i + 1;
    }
    let mut j: usize = 0;
    while j < b.len()
        invariant
            j <= b.len(),
            r@ == a@ + b@.take(j as int),
        decreases b.len() - j,
    {
        r.push(b[j]);
        assert(b@.take(j + 1) =~= b@.take(j as int).push(b@[j as int]));
        assert(a@ + b@.take(j + 1) =~= (a@ + b@.take(j as int)).push(b@[j as int]));
        j = j + 1;
    }
    assert(a@.take(a.len() as int) =~= a@);
    assert(b@.take(b.len() as int) =~= b@);
    r
}

} // verus!
