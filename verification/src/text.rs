//! Text operations over character sequences.
//!
//! Every executable function takes and returns ordinary strings; its contract speaks of
//! the characters of those strings through the specification functions of this module.
use vstd::prelude::*;

verus! {

// ---------------------------------------------------------------------------
// Specification
// ---------------------------------------------------------------------------

/// The characters of each string of `v`, in order.
pub open spec fn texts(v: Seq<String>) -> Seq<Seq<char>> {
    Seq::new(v.len(), |i: int| v[i]@)
}

/// The characters of an optional string.
pub open spec fn opt_text(o: Option<String>) -> Option<Seq<char>> {
    match o {
        Some(s) => Some(s@),
        None => None,
    }
}

/// The characters of an optional string slice.
pub open spec fn opt_str(o: Option<&str>) -> Option<Seq<char>> {
    match o {
        Some(s) => Some(s@),
        None => None,
    }
}

/// `p` stands in `s` at position `i`.
pub open spec fn occurs_at(s: Seq<char>, p: Seq<char>, i: int) -> bool {
    0 <= i && i + p.len() <= s.len() && s.subrange(i, i + p.len()) == p
}

/// `p` stands somewhere in `s`.
pub open spec fn occurs(s: Seq<char>, p: Seq<char>) -> bool {
    exists|i: int| occurs_at(s, p, i)
}

/// The first position at or after `i` at which `p` stands in `s`.
pub open spec fn find_from(s: Seq<char>, p: Seq<char>, i: int) -> Option<int>
    decreases s.len() + 1 - i,
{
    if i < 0 || i + p.len() > s.len() {
        None
    } else if occurs_at(s, p, i) {
        Some(i)
    } else {
        find_from(s, p, i + 1)
    }
}

/// The first position at which `p` stands in `s`.
pub open spec fn find(s: Seq<char>, p: Seq<char>) -> Option<int> {
    find_from(s, p, 0)
}

/// The last position before `i` at which `p` stands in `s`.
pub open spec fn rfind_before(s: Seq<char>, p: Seq<char>, i: int) -> Option<int>
    decreases i,
{
    if i <= 0 {
        None
    } else if occurs_at(s, p, i - 1) {
        Some(i - 1)
    } else {
        rfind_before(s, p, i - 1)
    }
}

/// The last position at which `p` stands in `s`.
pub open spec fn rfind(s: Seq<char>, p: Seq<char>) -> Option<int> {
    rfind_before(s, p, s.len() as int + 1)
}

/// `s` with every occurrence of `p` from position `i` on replaced by `r`, searching from
/// the left and not looking inside a replacement.
pub open spec fn replace_from(s: Seq<char>, p: Seq<char>, r: Seq<char>, i: int) -> Seq<char>
    decreases s.len() - i,
{
    if i < 0 || i >= s.len() {
        Seq::empty()
    } else if p.len() > 0 && occurs_at(s, p, i) {
        r + replace_from(s, p, r, i + p.len())
    } else {
        seq![s[i]] + replace_from(s, p, r, i + 1)
    }
}

/// `s` with every occurrence of the non-empty `p` replaced by `r`.
pub open spec fn replace(s: Seq<char>, p: Seq<char>, r: Seq<char>) -> Seq<char> {
    replace_from(s, p, r, 0)
}

/// The first position at or after `i` that holds one of the characters of `set`.
pub open spec fn find_any_from(s: Seq<char>, set: Seq<char>, i: int) -> Option<int>
    decreases s.len() - i,
{
    if i < 0 || i >= s.len() {
        None
    } else if set.contains(s[i]) {
        Some(i)
    } else {
        find_any_from(s, set, i + 1)
    }
}

/// The last position before `i` that holds one of the characters of `set`.
pub open spec fn rfind_any_before(s: Seq<char>, set: Seq<char>, i: int) -> Option<int>
    decreases i,
{
    if i <= 0 || i > s.len() {
        None
    } else if set.contains(s[i - 1]) {
        Some(i - 1)
    } else {
        rfind_any_before(s, set, i - 1)
    }
}

/// What stands before the first character of `set`, all of `s` where there is none.
pub open spec fn before_first(s: Seq<char>, set: Seq<char>) -> Seq<char> {
    match find_any_from(s, set, 0) {
        Some(i) => s.take(i),
        None => s,
    }
}

/// What stands behind the first character of `set`, if there is one.
pub open spec fn after_first(s: Seq<char>, set: Seq<char>) -> Option<Seq<char>> {
    match find_any_from(s, set, 0) {
        Some(i) => Some(s.skip(i + 1)),
        None => None,
    }
}

/// What stands behind the last character of `set`, all of `s` where there is none.
pub open spec fn after_last(s: Seq<char>, set: Seq<char>) -> Seq<char> {
    match rfind_any_before(s, set, s.len() as int) {
        Some(i) => s.skip(i + 1),
        None => s,
    }
}

/// The pieces of `s` between the occurrences of `sep`, one more than there are of those.
pub open spec fn pieces(s: Seq<char>, sep: char) -> Seq<Seq<char>>
    decreases s.len(),
{
    match find_any_from(s, seq![sep], 0) {
        Some(i) => if 0 <= i < s.len() {
            seq![s.take(i)] + pieces(s.skip(i + 1), sep)
        } else {
            seq![s]
        },
        None => seq![s],
    }
}

/// The characters with the Unicode property White_Space.
pub open spec fn is_white_space(c: char) -> bool {
    let n = c as u32;
    ||| 0x9 <= n <= 0xd
    ||| n == 0x20
    ||| n == 0x85
    ||| n == 0xa0
    ||| n == 0x1680
    ||| 0x2000 <= n <= 0x200a
    ||| n == 0x2028
    ||| n == 0x2029
    ||| n == 0x202f
    ||| n == 0x205f
    ||| n == 0x3000
}

/// The control characters: Unicode's general category Cc.
pub open spec fn is_control_char(c: char) -> bool {
    let n = c as u32;
    n < 0x20 || 0x7f <= n < 0xa0
}

pub open spec fn is_digit(c: char) -> bool {
    '0' <= c && c <= '9'
}

pub open spec fn is_ascii_alpha(c: char) -> bool {
    ('a' <= c && c <= 'z') || ('A' <= c && c <= 'Z')
}

/// `s` without the white space at its start.
pub open spec fn trim_start(s: Seq<char>) -> Seq<char>
    decreases s.len(),
{
    if s.len() > 0 && is_white_space(s[0]) {
        trim_start(s.skip(1))
    } else {
        s
    }
}

/// `s` without the white space at its end.
pub open spec fn trim_end(s: Seq<char>) -> Seq<char>
    decreases s.len(),
{
    if s.len() > 0 && is_white_space(s.last()) {
        trim_end(s.drop_last())
    } else {
        s
    }
}

/// `s` without the white space at either end.
pub open spec fn trim(s: Seq<char>) -> Seq<char> {
    trim_end(trim_start(s))
}

/// `s` without the characters `c` at its end.
pub open spec fn trim_end_char(s: Seq<char>, c: char) -> Seq<char>
    decreases s.len(),
{
    if s.len() > 0 && s.last() == c {
        trim_end_char(s.drop_last(), c)
    } else {
        s
    }
}

/// `s` without the characters `c` at its start.
pub open spec fn trim_start_char(s: Seq<char>, c: char) -> Seq<char>
    decreases s.len(),
{
    if s.len() > 0 && s[0] == c {
        trim_start_char(s.skip(1), c)
    } else {
        s
    }
}

/// `s` without the repetitions of the non-empty `p` at its end.
pub open spec fn trim_end_text(s: Seq<char>, p: Seq<char>) -> Seq<char>
    decreases s.len(),
{
    if p.len() > 0 && p.is_suffix_of(s) {
        trim_end_text(s.take(s.len() - p.len()), p)
    } else {
        s
    }
}

/// `s` without `p` at its end, if it ends in `p`.
pub open spec fn without_suffix(s: Seq<char>, p: Seq<char>) -> Option<Seq<char>> {
    if p.is_suffix_of(s) {
        Some(s.take(s.len() - p.len()))
    } else {
        None
    }
}

/// `s` without `p` at its start, if it begins with `p`.
pub open spec fn without_prefix(s: Seq<char>, p: Seq<char>) -> Option<Seq<char>> {
    if p.is_prefix_of(s) {
        Some(s.skip(p.len() as int))
    } else {
        None
    }
}

/// The lower-case form of an ASCII letter; any other character unchanged.
pub open spec fn ascii_lower(c: char) -> char {
    if 'A' <= c && c <= 'Z' {
        ((c as u32) + 32) as char
    } else {
        c
    }
}

/// `s` with its ASCII letters in lower case.
pub open spec fn ascii_lowercase(s: Seq<char>) -> Seq<char> {
    Seq::new(s.len(), |i: int| ascii_lower(s[i]))
}

/// `a` and `b` are the same but for the case of ASCII letters.
pub open spec fn same_but_case(a: Seq<char>, b: Seq<char>) -> bool {
    ascii_lowercase(a) == ascii_lowercase(b)
}

/// The upper-case form of an ASCII letter; any other character stays.
pub open spec fn ascii_upper(c: char) -> char {
    if 'a' <= c && c <= 'z' {
        ((c as u32) - 32) as char
    } else {
        c
    }
}

/// `s` with its ASCII letters in upper case.
pub open spec fn ascii_uppercase(s: Seq<char>) -> Seq<char> {
    Seq::new(s.len(), |i: int| ascii_upper(s[i]))
}

/// Every character of `s` is an ASCII character.
pub open spec fn is_ascii_text(s: Seq<char>) -> bool {
    forall|i: int| 0 <= i < s.len() ==> (#[trigger] s[i] as u32) < 128
}

// ---------------------------------------------------------------------------
// Characters
// ---------------------------------------------------------------------------

pub fn is_white(c: char) -> (r: bool)
    ensures
        r == is_white_space(c),
{
    let n: u32 = c as u32;
    (0x9 <= n && n <= 0xd) || n == 0x20 || n == 0x85 || n == 0xa0 || n == 0x1680 || (0x2000 <= n
        && n <= 0x200a) || n == 0x2028 || n == 0x2029 || n == 0x202f || n == 0x205f || n == 0x3000
}

pub fn is_control(c: char) -> (r: bool)
    ensures
        r == is_control_char(c),
{
    let n: u32 = c as u32;
    n < 0x20 || (0x7f <= n && n < 0xa0)
}

pub fn lower_char(c: char) -> (r: char)
    ensures
        r == ascii_lower(c),
{
    if 'A' <= c && c <= 'Z' {
        ((c as u8) + 32u8) as char
    } else {
        c
    }
}

// ---------------------------------------------------------------------------
// Strings and characters
// ---------------------------------------------------------------------------

/// The characters of `s`.
pub fn chars_of(s: &str) -> (r: Vec<char>)
    ensures
        r@ == s@,
{
    let mut out: Vec<char> = Vec::new();
    for c in it: s.chars()
        invariant
            it.seq() == s@,
            out@ == s@.take(it.index() as int),
    {
        out.push(c);
    }
    out
}

/// The string made of the characters `cs`.
pub fn text_of(cs: &[char]) -> (r: String)
    ensures
        r@ == cs@,
{
    let mut out = String::new();
    for i in 0..cs.len()
        invariant
            out@ == cs@.take(i as int),
    {
        out.push(cs[i]);
    }
    assert(cs@.take(cs@.len() as int) == cs@);
    out
}

/// Whether `a` and `b` are the same text.
pub fn same(a: &str, b: &str) -> (r: bool)
    ensures
        r == (a@ == b@),
{
    let x = chars_of(a);
    let y = chars_of(b);
    if x.len() != y.len() {
        return false;
    }
    for i in 0..x.len()
        invariant
            x@ == a@,
            y@ == b@,
            x.len() == y.len(),
            x@.take(i as int) == y@.take(i as int),
    {
        if x[i] != y[i] {
            assert(a@[i as int] != b@[i as int]);
            return false;
        }
        assert(x@.take(i + 1) == x@.take(i as int).push(x@[i as int]));
        assert(y@.take(i + 1) == y@.take(i as int).push(y@[i as int]));
    }
    assert(x@.take(x@.len() as int) == x@);
    assert(y@.take(y@.len() as int) == y@);
    true
}

/// Whether `p` stands in `s` at position `i`.
pub fn stands_at(s: &[char], p: &[char], i: usize) -> (r: bool)
    ensures
        r == occurs_at(s@, p@, i as int),
{
    if s.len() < p.len() || i > s.len() - p.len() {
        return false;
    }
    for k in 0..p.len()
        invariant
            i + p.len() <= s.len(),
            forall|j: int| 0 <= j < k ==> s@[i + j] == p@[j],
    {
        if s[i + k] != p[k] {
            assert(s@.subrange(i as int, i + p.len())[k as int] != p@[k as int]);
            return false;
        }
    }
    assert(s@.subrange(i as int, i + p.len()) =~= p@);
    true
}

/// Whether `s` begins with `p`.
pub fn starts_with(s: &str, p: &str) -> (r: bool)
    ensures
        r == p@.is_prefix_of(s@),
{
    let cs = chars_of(s);
    let ps = chars_of(p);
    stands_at(&cs, &ps, 0)
}

/// Whether `s` ends in `p`.
pub fn ends_with(s: &str, p: &str) -> (r: bool)
    ensures
        r == p@.is_suffix_of(s@),
{
    let cs = chars_of(s);
    let ps = chars_of(p);
    if cs.len() < ps.len() {
        return false;
    }
    let k: usize = cs.len() - ps.len();
    stands_at(&cs, &ps, k)
}

/// Where a text is found there is room for it.
pub proof fn lemma_find_in_range(s: Seq<char>, p: Seq<char>, i: int)
    requires
        0 <= i,
    ensures
        find_from(s, p, i) matches Some(j) ==> i <= j && j + p.len() <= s.len(),
    decreases s.len() + 1 - i,
{
    if i + p.len() <= s.len() {
        lemma_find_in_range(s, p, i + 1);
    }
}

/// The first position at which `p` stands in `s`, counted in characters.
pub fn find_text(s: &str, p: &str) -> (r: Option<usize>)
    ensures
        match r {
            Some(i) => find(s@, p@) == Some(i as int) && occurs_at(s@, p@, i as int),
            None => find(s@, p@) is None && !occurs(s@, p@),
        },
{
    let cs = chars_of(s);
    let ps = chars_of(p);
    if ps.len() > cs.len() {
        assert(!occurs(s@, p@));
        return None;
    }
    let last: usize = cs.len() - ps.len();
    let mut i: usize = 0;
    loop
        invariant
            cs@ == s@,
            ps@ == p@,
            last + p@.len() == s@.len(),
            i <= last,
            find(s@, p@) == find_from(s@, p@, i as int),
            forall|j: int| 0 <= j < i ==> !occurs_at(s@, p@, j),
        decreases last - i,
    {
        if stands_at(&cs, &ps, i) {
            return Some(i);
        }
        if i == last {
            assert(find_from(s@, p@, i + 1) is None);
            assert forall|j: int| !occurs_at(s@, p@, j) by {
                if 0 <= j < i {
                }
            }
            return None;
        }
        i = i + 1;
    }
}

/// Whether `p` stands somewhere in `s`.
pub fn contains_text(s: &str, p: &str) -> (r: bool)
    ensures
        r == occurs(s@, p@),
{
    find_text(s, p).is_some()
}

/// The last position at which `p` stands in `s`, counted in characters.
pub fn rfind_text(s: &str, p: &str) -> (r: Option<usize>)
    ensures
        match r {
            Some(i) => rfind(s@, p@) == Some(i as int) && occurs_at(s@, p@, i as int),
            None => rfind(s@, p@) is None,
        },
{
    let cs = chars_of(s);
    let ps = chars_of(p);
    let mut i: usize = cs.len();
    assert(rfind_before(s@, p@, s@.len() as int + 1) == rfind(s@, p@));
    loop
        invariant
            cs@ == s@,
            ps@ == p@,
            i <= s@.len(),
            rfind(s@, p@) == rfind_before(s@, p@, i + 1),
        decreases i,
    {
        if stands_at(&cs, &ps, i) {
            return Some(i);
        }
        if i == 0 {
            assert(rfind_before(s@, p@, 0) is None);
            return None;
        }
        i = i - 1;
    }
}

/// `s` with every occurrence of `p` replaced by `with`.
pub fn replace_text(s: &str, p: &str, with: &str) -> (r: String)
    requires
        p@.len() > 0,
    ensures
        r@ == replace(s@, p@, with@),
{
    let cs = chars_of(s);
    let ps = chars_of(p);
    let mut out = String::new();
    let mut i: usize = 0;
    while i < cs.len()
        invariant
            cs@ == s@,
            ps@ == p@,
            p@.len() > 0,
            i <= s@.len(),
            out@ + replace_from(s@, p@, with@, i as int) == replace(s@, p@, with@),
        decreases s@.len() - i,
    {
        if stands_at(&cs, &ps, i) {
            out.append(with);
            i = i + ps.len();
        } else {
            out.push(cs[i]);
            i = i + 1;
        }
    }
    assert(replace_from(s@, p@, with@, i as int) == Seq::<char>::empty());
    assert(out@ + Seq::<char>::empty() == out@);
    out
}

/// Whether `set` holds `c`.
fn holds(set: &[char], c: char) -> (r: bool)
    ensures
        r == set@.contains(c),
{
    for i in 0..set.len()
        invariant
            forall|j: int| 0 <= j < i ==> set@[j] != c,
    {
        if set[i] == c {
            return true;
        }
    }
    false
}

/// The first position of `s` that holds a character of `set`.
pub fn find_any(s: &str, set: &[char]) -> (r: Option<usize>)
    ensures
        match r {
            Some(i) => i < s@.len() && find_any_from(s@, set@, 0) == Some(i as int)
                && set@.contains(s@[i as int]),
            None => find_any_from(s@, set@, 0) is None,
        },
{
    let cs = chars_of(s);
    for i in 0..cs.len()
        invariant
            cs@ == s@,
            find_any_from(s@, set@, 0) == find_any_from(s@, set@, i as int),
    {
        if holds(set, cs[i]) {
            return Some(i);
        }
    }
    None
}

/// The last position of `s` that holds a character of `set`.
pub fn rfind_any(s: &str, set: &[char]) -> (r: Option<usize>)
    ensures
        match r {
            Some(i) => i < s@.len() && rfind_any_before(s@, set@, s@.len() as int) == Some(i as int)
                && set@.contains(s@[i as int]),
            None => rfind_any_before(s@, set@, s@.len() as int) is None,
        },
{
    let cs = chars_of(s);
    let mut i: usize = cs.len();
    while i > 0
        invariant
            cs@ == s@,
            i <= s@.len(),
            rfind_any_before(s@, set@, s@.len() as int) == rfind_any_before(s@, set@, i as int),
        decreases i,
    {
        if holds(set, cs[i - 1]) {
            return Some(i - 1);
        }
        i = i - 1;
    }
    None
}

/// What stands before the first character of `set`, all of `s` where there is none.
pub fn head_before<'a>(s: &'a str, set: &[char]) -> (r: &'a str)
    ensures
        r@ == before_first(s@, set@),
{
    match find_any(s, set) {
        Some(i) => s.substring_char(0, i),
        None => s,
    }
}

/// What stands behind the first character of `set`, if there is one.
pub fn rest_after<'a>(s: &'a str, set: &[char]) -> (r: Option<&'a str>)
    ensures
        opt_str(r) == after_first(s@, set@),
{
    match find_any(s, set) {
        Some(i) => {
            let n: usize = s.unicode_len();
            Some(s.substring_char(i + 1, n))
        },
        None => None,
    }
}

/// What stands behind the last character of `set`, all of `s` where there is none.
pub fn tail_after<'a>(s: &'a str, set: &[char]) -> (r: &'a str)
    ensures
        r@ == after_last(s@, set@),
{
    match rfind_any(s, set) {
        Some(i) => {
            let n: usize = s.unicode_len();
            s.substring_char(i + 1, n)
        },
        None => s,
    }
}

/// `s` without `p` at its start, if it begins with `p`.
pub fn strip_prefix<'a>(s: &'a str, p: &str) -> (r: Option<&'a str>)
    ensures
        opt_str(r) == without_prefix(s@, p@),
{
    if starts_with(s, p) {
        Some(s.substring_char(p.unicode_len(), s.unicode_len()))
    } else {
        None
    }
}

/// `s` without `p` at its end, if it ends in `p`.
pub fn strip_suffix<'a>(s: &'a str, p: &str) -> (r: Option<&'a str>)
    ensures
        opt_str(r) == without_suffix(s@, p@),
{
    if ends_with(s, p) {
        let n: usize = s.unicode_len() - p.unicode_len();
        Some(s.substring_char(0, n))
    } else {
        None
    }
}

proof fn lemma_trim_end_cut(s: Seq<char>, n: int)
    requires
        0 < n <= s.len(),
        is_white_space(s[n - 1]),
    ensures
        trim_end(s.take(n)) == trim_end(s.take(n - 1)),
{
    assert(s.take(n).drop_last() == s.take(n - 1));
}

/// `s` without the white space at either end.
pub fn trimmed<'a>(s: &'a str) -> (r: &'a str)
    ensures
        r@ == trim(s@),
{
    let cs = chars_of(s);
    let n: usize = cs.len();
    let mut i: usize = 0;
    assert(s@.skip(0) == s@);
    while i < n && is_white(cs[i])
        invariant
            cs@ == s@,
            n == cs.len(),
            i <= n,
            trim_start(s@) == trim_start(s@.skip(i as int)),
        decreases n - i,
    {
        assert(s@.skip(i as int).skip(1) == s@.skip(i + 1));
        i = i + 1;
    }
    let ghost left = s@.skip(i as int);
    assert(trim_start(s@) == left);
    let mut j: usize = n;
    assert(left.take(left.len() as int) == left);
    while j > i && is_white(cs[j - 1])
        invariant
            cs@ == s@,
            n == cs.len(),
            i <= j <= n,
            left == s@.skip(i as int),
            trim_end(left) == trim_end(left.take(j - i)),
        decreases j,
    {
        proof {
            lemma_trim_end_cut(left, j - i);
        }
        j = j - 1;
    }
    assert(left.take(j - i) == s@.subrange(i as int, j as int));
    s.substring_char(i, j)
}

/// `s` without the characters `c` at its end.
pub fn trimmed_end_char<'a>(s: &'a str, c: char) -> (r: &'a str)
    ensures
        r@ == trim_end_char(s@, c),
{
    let cs = chars_of(s);
    let mut j: usize = cs.len();
    assert(s@.take(s@.len() as int) == s@);
    while j > 0 && cs[j - 1] == c
        invariant
            cs@ == s@,
            j <= cs.len(),
            trim_end_char(s@, c) == trim_end_char(s@.take(j as int), c),
        decreases j,
    {
        assert(s@.take(j as int).drop_last() == s@.take(j - 1));
        j = j - 1;
    }
    s.substring_char(0, j)
}

/// `s` without the characters `c` at its start.
pub fn trimmed_start_char<'a>(s: &'a str, c: char) -> (r: &'a str)
    ensures
        r@ == trim_start_char(s@, c),
{
    let cs = chars_of(s);
    let n: usize = cs.len();
    let mut i: usize = 0;
    assert(s@.skip(0) == s@);
    while i < n && cs[i] == c
        invariant
            cs@ == s@,
            n == cs.len(),
            i <= n,
            trim_start_char(s@, c) == trim_start_char(s@.skip(i as int), c),
        decreases n - i,
    {
        assert(s@.skip(i as int).skip(1) == s@.skip(i + 1));
        i = i + 1;
    }
    s.substring_char(i, n)
}

/// `s` without the repetitions of `p` at its end.
pub fn trimmed_end_text<'a>(s: &'a str, p: &str) -> (r: &'a str)
    requires
        p@.len() > 0,
    ensures
        r@ == trim_end_text(s@, p@),
{
    let cs = chars_of(s);
    let ps = chars_of(p);
    let m: usize = ps.len();
    let mut j: usize = cs.len();
    assert(s@.take(s@.len() as int) == s@);
    while j >= m && stands_at(&cs, &ps, j - m)
        invariant
            cs@ == s@,
            ps@ == p@,
            m == p@.len(),
            m > 0,
            j <= cs.len(),
            trim_end_text(s@, p@) == trim_end_text(s@.take(j as int), p@),
        decreases j,
    {
        let ghost t = s@.take(j as int);
        assert(t.subrange(t.len() - m, t.len() as int) == s@.subrange(j - m, j as int));
        assert(p@.is_suffix_of(t));
        assert(t.take(t.len() - m) == s@.take(j - m));
        j = j - m;
    }
    proof {
        let t = s@.take(j as int);
        if p@.is_suffix_of(t) {
            assert(t.subrange(t.len() - m, t.len() as int) == s@.subrange(j - m, j as int));
            assert(occurs_at(s@, p@, j - m));
        }
    }
    s.substring_char(0, j)
}

/// `s` with its ASCII letters in lower case.
pub fn ascii_lowered(s: &str) -> (r: String)
    ensures
        r@ == ascii_lowercase(s@),
{
    let cs = chars_of(s);
    let mut out = String::new();
    for i in 0..cs.len()
        invariant
            cs@ == s@,
            out@ == ascii_lowercase(s@).take(i as int),
    {
        out.push(lower_char(cs[i]));
        assert(ascii_lowercase(s@).take(i + 1) == ascii_lowercase(s@).take(i as int).push(
            ascii_lower(s@[i as int]),
        ));
    }
    assert(ascii_lowercase(s@).take(s@.len() as int) == ascii_lowercase(s@));
    out
}

/// Whether `a` and `b` are the same but for the case of ASCII letters.
pub fn same_ignoring_case(a: &str, b: &str) -> (r: bool)
    ensures
        r == same_but_case(a@, b@),
{
    let x = ascii_lowered(a);
    let y = ascii_lowered(b);
    x == y
}

/// The pieces of `s` between the occurrences of `sep`.
pub fn split_char(s: &str, sep: char) -> (r: Vec<String>)
    ensures
        texts(r@) == pieces(s@, sep),
{
    let mut out: Vec<String> = Vec::new();
    let set = [sep];
    assert(set@ == seq![sep]);
    let mut rest: &str = s;
    loop
        invariant
            set@ == seq![sep],
            texts(out@) + pieces(rest@, sep) == pieces(s@, sep),
        decreases rest@.len(),
    {
        match find_any(rest, &set) {
            Some(i) => {
                let n: usize = rest.unicode_len();
                let piece = rest.substring_char(0, i).to_string();
                let ghost before = out@;
                let ghost whole = rest@;
                out.push(piece);
                rest = rest.substring_char(i + 1, n);
                proof {
                    assert(texts(out@) == texts(before).push(whole.take(i as int)));
                    assert(rest@ == whole.skip(i + 1));
                    assert(pieces(whole, sep) == seq![whole.take(i as int)] + pieces(rest@, sep));
                    assert(texts(before) + (seq![whole.take(i as int)] + pieces(rest@, sep))
                        == texts(out@) + pieces(rest@, sep));
                }
            },
            None => {
                let ghost before = out@;
                out.push(rest.to_string());
                assert(texts(out@) == texts(before) + seq![rest@]);
                return out;
            },
        }
    }
}

/// `a` comes before `b` in the order of their characters.
pub open spec fn comes_before(a: Seq<char>, b: Seq<char>) -> bool
    decreases a.len(),
{
    if b.len() == 0 {
        false
    } else if a.len() == 0 {
        true
    } else if a[0] == b[0] {
        comes_before(a.skip(1), b.skip(1))
    } else {
        a[0] < b[0]
    }
}

/// Whether `a` comes before `b` in the order of their characters.
pub fn is_before(a: &str, b: &str) -> (r: bool)
    ensures
        r == comes_before(a@, b@),
{
    let x = chars_of(a);
    let y = chars_of(b);
    let mut i: usize = 0;
    assert(a@.skip(0) == a@);
    assert(b@.skip(0) == b@);
    while i < x.len() && i < y.len() && x[i] == y[i]
        invariant
            x@ == a@,
            y@ == b@,
            i <= x.len(),
            i <= y.len(),
            comes_before(a@, b@) == comes_before(a@.skip(i as int), b@.skip(i as int)),
        decreases x.len() - i,
    {
        assert(a@.skip(i as int).skip(1) == a@.skip(i + 1));
        assert(b@.skip(i as int).skip(1) == b@.skip(i + 1));
        i = i + 1;
    }
    if i >= y.len() {
        false
    } else if i >= x.len() {
        true
    } else {
        x[i] < y[i]
    }
}

/// No text comes before itself.
pub proof fn lemma_before_irreflexive(a: Seq<char>)
    ensures
        !comes_before(a, a),
    decreases a.len(),
{
    if a.len() > 0 {
        lemma_before_irreflexive(a.skip(1));
    }
}

/// Of two different texts one comes before the other.
pub proof fn lemma_before_total(a: Seq<char>, b: Seq<char>)
    ensures
        a == b || comes_before(a, b) || comes_before(b, a),
    decreases a.len(),
{
    if a.len() == 0 {
        if b.len() == 0 {
            assert(a =~= b);
        }
    } else if b.len() > 0 && a[0] == b[0] {
        lemma_before_total(a.skip(1), b.skip(1));
        if a.skip(1) == b.skip(1) {
            assert(a =~= seq![a[0]] + a.skip(1));
            assert(b =~= seq![b[0]] + b.skip(1));
        }
    }
}

/// The order of texts is transitive.
pub proof fn lemma_before_transitive(a: Seq<char>, b: Seq<char>, c: Seq<char>)
    requires
        comes_before(a, b),
        comes_before(b, c),
    ensures
        comes_before(a, c),
    decreases a.len(),
{
    if a.len() > 0 && b.len() > 0 && c.len() > 0 && a[0] == b[0] && b[0] == c[0] {
        lemma_before_transitive(a.skip(1), b.skip(1), c.skip(1));
    }
}

/// The number of characters before the first white space at or after place `i`.
pub open spec fn word_end(s: Seq<char>, i: int) -> int
    decreases s.len() - i,
{
    if i < 0 || i >= s.len() || is_white_space(s[i]) {
        i
    } else {
        word_end(s, i + 1)
    }
}

/// The first word of `s`, with what comes after it.
pub open spec fn first_word(s: Seq<char>) -> Option<(Seq<char>, Seq<char>)> {
    let t = trim_start(s);
    if t.len() == 0 {
        None
    } else {
        Some((t.take(word_end(t, 0)), t.skip(word_end(t, 0))))
    }
}

/// The first word of `s`, with what comes after it.
pub fn next_word<'a>(s: &'a str) -> (r: Option<(&'a str, &'a str)>)
    ensures
        match r {
            Some((w, rest)) => first_word(s@) == Some((w@, rest@)) && w@.len() > 0,
            None => first_word(s@) is None,
        },
{
    let cs = chars_of(s);
    let n: usize = cs.len();
    let mut from: usize = 0;
    assert(s@.skip(0) =~= s@);
    while from < n && is_white(cs[from])
        invariant
            cs@ == s@,
            n == cs.len(),
            from <= n,
            trim_start(s@) == trim_start(s@.skip(from as int)),
        decreases n - from,
    {
        assert(s@.skip(from as int).skip(1) =~= s@.skip(from + 1));
        from += 1;
    }
    let ghost t = s@.skip(from as int);
    if from == n {
        return None;
    }
    let mut to: usize = from;
    while to < n && !is_white(cs[to])
        invariant
            cs@ == s@,
            n == cs.len(),
            from <= to <= n,
            t == s@.skip(from as int),
            word_end(t, 0) == word_end(t, to - from),
            to == from ==> !is_white_space(t[0]),
            from < n,
        decreases n - to,
    {
        assert(t[to - from] == s@[to as int]);
        to += 1;
    }
    let w = s.substring_char(from, to);
    let rest = s.substring_char(to, n);
    assert(w@ =~= t.take(to - from));
    assert(rest@ =~= t.skip(to - from));
    Some((w, rest))
}

/// `s` without one carriage return at its end.
pub open spec fn without_return(s: Seq<char>) -> Seq<char> {
    if s.len() > 0 && s.last() == '\r' {
        s.drop_last()
    } else {
        s
    }
}

/// The lines of `s`: each ends with a newline, or with a carriage return and a newline, that
/// is no part of it; the last may also end with the text.
pub open spec fn lines(s: Seq<char>) -> Seq<Seq<char>>
    decreases s.len(),
{
    if s.len() == 0 {
        Seq::empty()
    } else {
        match find_any_from(s, seq!['\n'], 0) {
            Some(i) => if 0 <= i < s.len() {
                seq![without_return(s.take(i))] + lines(s.skip(i + 1))
            } else {
                Seq::empty()
            },
            None => seq![s],
        }
    }
}

/// The lines of `s`.
pub fn split_lines(s: &str) -> (r: Vec<String>)
    ensures
        texts(r@) == lines(s@),
{
    let mut out: Vec<String> = Vec::new();
    let set = ['\n'];
    assert(set@ == seq!['\n']);
    let mut rest: &str = s;
    assert(texts(out@) + lines(rest@) =~= lines(s@));
    while rest.unicode_len() > 0
        invariant
            set@ == seq!['\n'],
            texts(out@) + lines(rest@) == lines(s@),
        decreases rest@.len(),
    {
        let n: usize = rest.unicode_len();
        let ghost before = texts(out@);
        let ghost whole = rest@;
        match find_any(rest, &set) {
            Some(i) => {
                let mut end: usize = i;
                if i > 0 && rest.get_char(i - 1) == '\r' {
                    end = i - 1;
                }
                out.push(rest.substring_char(0, end).to_string());
                rest = rest.substring_char(i + 1, n);
                proof {
                    if i > 0 {
                        assert(whole.take(i as int).drop_last() =~= whole.take(i - 1));
                    }
                    let line = without_return(whole.take(i as int));
                    assert(texts(out@) =~= before.push(line));
                    assert(rest@ =~= whole.skip(i + 1));
                    assert(before + (seq![line] + lines(rest@)) =~= texts(out@) + lines(rest@));
                }
            },
            None => {
                out.push(rest.to_string());
                assert(texts(out@) =~= before + seq![whole]);
                return out;
            },
        }
    }
    assert(texts(out@) + Seq::<Seq<char>>::empty() =~= texts(out@));
    out
}

/// The texts in a row, with `sep` between each two.
pub open spec fn join(s: Seq<Seq<char>>, sep: Seq<char>) -> Seq<char>
    decreases s.len(),
{
    if s.len() == 0 {
        Seq::empty()
    } else if s.len() == 1 {
        s[0]
    } else {
        join(s.drop_last(), sep) + sep + s.last()
    }
}

/// The texts in a row, with `sep` between each two.
pub fn join_texts(list: &Vec<String>, sep: &str) -> (r: String)
    ensures
        r@ == join(texts(list@), sep@),
{
    let mut out = String::new();
    let ghost all = texts(list@);
    assert(all.take(0) =~= Seq::empty());
    for i in 0..list.len()
        invariant
            all == texts(list@),
            out@ == join(all.take(i as int), sep@),
    {
        assert(all.take(i + 1).drop_last() =~= all.take(i as int));
        assert(all.take(i + 1).last() == all[i as int]);
        if i > 0 {
            out.append(sep);
        }
        let ghost front = out@;
        out.append(&list[i]);
        assert(i == 0 ==> front =~= Seq::empty() && out@ =~= all[0]);
    }
    assert(all.take(all.len() as int) =~= all);
    out
}

// ---------------------------------------------------------------------------
// Laws
// ---------------------------------------------------------------------------

/// Trimming leaves no white space at either end, takes nothing else off, and leaves a text
/// that has none there as it is.
pub proof fn law_trimming(s: Seq<char>)
    ensures
        trim(s).len() > 0 ==> !is_white_space(trim(s)[0]) && !is_white_space(trim(s).last()),
        s.len() > 0 && !is_white_space(s[0]) && !is_white_space(s.last()) ==> trim(s) == s,
        trim(trim(s)) == trim(s),
        exists|i: int, j: int|
            #![trigger s.subrange(i, j)]
            0 <= i <= j <= s.len() && trim(s) == s.subrange(i, j) && (forall|k: int|
                0 <= k < i || j <= k < s.len() ==> is_white_space(#[trigger] s[k])),
{
    let a = trim_start(s);
    let b = trim_end(a);
    lemma_trim_start(s);
    lemma_trim_end(a);
    let i = s.len() - a.len();
    let j = i + b.len();
    assert(b =~= s.subrange(i, j)) by {
        assert(a == s.skip(i));
        assert(b == a.take(b.len() as int));
    }
    assert forall|k: int| 0 <= k < i || j <= k < s.len() implies is_white_space(
        #[trigger] s[k],
    ) by {
        if j <= k {
            assert(a[k - i] == s[k]);
        }
    }
    if b.len() > 0 {
        assert(a[0] == b[0]);
        assert(trim_start(b) == b);
        assert(trim_end(b) == b);
    } else {
        assert(b =~= Seq::empty());
    }
}

proof fn lemma_trim_start(s: Seq<char>)
    ensures
        trim_start(s).len() <= s.len(),
        trim_start(s) == s.skip(s.len() - trim_start(s).len()),
        trim_start(s).len() > 0 ==> !is_white_space(trim_start(s)[0]),
        forall|k: int|
            0 <= k < s.len() - trim_start(s).len() ==> is_white_space(#[trigger] s[k]),
    decreases s.len(),
{
    if s.len() > 0 && is_white_space(s[0]) {
        let t = s.skip(1);
        lemma_trim_start(t);
        let r = trim_start(t);
        assert(s.skip(s.len() - r.len()) =~= t.skip(t.len() - r.len()));
        assert forall|k: int| 0 <= k < s.len() - r.len() implies is_white_space(
            #[trigger] s[k],
        ) by {
            if k > 0 {
                assert(t[k - 1] == s[k]);
            }
        }
    } else {
        assert(s.skip(0) =~= s);
    }
}

proof fn lemma_trim_end(s: Seq<char>)
    ensures
        trim_end(s).len() <= s.len(),
        trim_end(s) == s.take(trim_end(s).len() as int),
        trim_end(s).len() > 0 ==> !is_white_space(trim_end(s).last()),
        forall|k: int| trim_end(s).len() <= k < s.len() ==> is_white_space(#[trigger] s[k]),
    decreases s.len(),
{
    if s.len() > 0 && is_white_space(s.last()) {
        let t = s.drop_last();
        lemma_trim_end(t);
        let r = trim_end(t);
        assert(s.take(r.len() as int) =~= t.take(r.len() as int));
        assert forall|k: int| r.len() <= k < s.len() implies is_white_space(#[trigger] s[k]) by {
            if k < t.len() {
                assert(t[k] == s[k]);
            }
        }
    } else {
        assert(s.take(s.len() as int) =~= s);
    }
}

proof fn lemma_find_any(s: Seq<char>, set: Seq<char>, i: int)
    requires
        0 <= i <= s.len(),
    ensures
        match find_any_from(s, set, i) {
            Some(j) => i <= j < s.len() && set.contains(s[j]) && forall|k: int|
                i <= k < j ==> !set.contains(#[trigger] s[k]),
            None => forall|k: int| i <= k < s.len() ==> !set.contains(#[trigger] s[k]),
        },
    decreases s.len() - i,
{
    if i < s.len() && !set.contains(s[i]) {
        lemma_find_any(s, set, i + 1);
    }
}

proof fn lemma_rfind_any(s: Seq<char>, set: Seq<char>, i: int)
    requires
        0 <= i <= s.len(),
    ensures
        match rfind_any_before(s, set, i) {
            Some(j) => 0 <= j < i && set.contains(s[j]) && forall|k: int|
                j < k < i ==> !set.contains(#[trigger] s[k]),
            None => forall|k: int| 0 <= k < i ==> !set.contains(#[trigger] s[k]),
        },
    decreases i,
{
    if i > 0 && !set.contains(s[i - 1]) {
        lemma_rfind_any(s, set, i - 1);
    }
}

/// A text is cut at the first of some characters: what stands before it holds none of them, and
/// with the character and what stands behind it makes the text again. Cut at the last, what
/// stands behind it holds none of them.
pub proof fn law_cutting(s: Seq<char>, c: char)
    ensures
        ({
            let head = before_first(s, seq![c]);
            &&& !head.contains(c)
            &&& after_first(s, seq![c]) is Some <==> s.contains(c)
            &&& after_first(s, seq![c]) matches Some(tail) ==> s == head + seq![c] + tail
            &&& !s.contains(c) ==> head == s
        }),
        ({
            let tail = after_last(s, seq![c]);
            &&& !tail.contains(c)
            &&& !s.contains(c) ==> tail == s
            &&& s.contains(c) ==> s.len() > tail.len() && s[s.len() - tail.len() - 1] == c && s.skip(
                s.len() - tail.len(),
            ) == tail
        }),
{
    lemma_find_any(s, seq![c], 0);
    lemma_rfind_any(s, seq![c], s.len() as int);
    assert(seq![c][0] == c);
    let head = before_first(s, seq![c]);
    if head.contains(c) {
        let k = choose|k: int| 0 <= k < head.len() && head[k] == c;
        assert(s[k] == c);
    }
    if let Some(tail) = after_first(s, seq![c]) {
        assert(s =~= head + seq![c] + tail);
        assert(s.contains(c));
    }
    if s.contains(c) {
        let k = choose|k: int| 0 <= k < s.len() && s[k] == c;
        assert(seq![c].contains(s[k]));
    }
    let tail = after_last(s, seq![c]);
    if tail.contains(c) {
        let k = choose|k: int| 0 <= k < tail.len() && tail[k] == c;
        let off = s.len() - tail.len();
        assert(s[off + k] == c);
        assert(seq![c].contains(s[off + k]));
    }
}

/// The pieces of a text hold no separator, and joined with it they make the text again.
pub proof fn law_pieces_make_the_text(s: Seq<char>, sep: char)
    ensures
        pieces(s, sep).len() > 0,
        joined_front(pieces(s, sep), sep) == s,
        forall|i: int| 0 <= i < pieces(s, sep).len() ==> !(#[trigger] pieces(s, sep)[i]).contains(sep),
    decreases s.len(),
{
    lemma_find_any(s, seq![sep], 0);
    law_cutting(s, sep);
    if let Some(i) = find_any_from(s, seq![sep], 0) {
        let rest = s.skip(i + 1);
        law_pieces_make_the_text(rest, sep);
        let all = pieces(s, sep);
        let tail = pieces(rest, sep);
        assert(all.skip(1) =~= tail);
        assert(all[0] == s.take(i));
        assert(joined_front(all, sep) == s.take(i) + seq![sep] + rest);
        assert(s =~= s.take(i) + seq![sep] + rest);
        assert forall|k: int| 0 <= k < all.len() implies !(#[trigger] all[k]).contains(sep) by {
            if k > 0 {
                assert(all[k] == tail[k - 1]);
            }
        }
    } else {
        assert(pieces(s, sep)[0] == s);
    }
}

/// Some pieces with a separator between each two.
pub open spec fn joined_front(parts: Seq<Seq<char>>, sep: char) -> Seq<char>
    decreases parts.len(),
{
    if parts.len() == 0 {
        Seq::empty()
    } else if parts.len() == 1 {
        parts[0]
    } else {
        parts[0] + seq![sep] + joined_front(parts.skip(1), sep)
    }
}

/// Small letters stay as they are, capital ones become small, and what is no letter of ASCII
/// does not change; capital letters the other way round.
pub proof fn law_letters(c: char)
    ensures
        'A' <= c && c <= 'Z' ==> 'a' <= ascii_lower(c) && ascii_lower(c) <= 'z' && ascii_upper(
            ascii_lower(c),
        ) == c,
        !('A' <= c && c <= 'Z') ==> ascii_lower(c) == c,
        'a' <= c && c <= 'z' ==> 'A' <= ascii_upper(c) && ascii_upper(c) <= 'Z' && ascii_lower(
            ascii_upper(c),
        ) == c,
        !('a' <= c && c <= 'z') ==> ascii_upper(c) == c,
{
}

/// A text is found where it stands first.
pub proof fn law_finding(s: Seq<char>, p: Seq<char>)
    ensures
        find(s, p) is Some <==> occurs(s, p),
        find(s, p) matches Some(i) ==> occurs_at(s, p, i) && forall|j: int|
            0 <= j < i ==> !#[trigger] occurs_at(s, p, j),
{
    lemma_find_first(s, p, 0);
    if occurs(s, p) {
        let j = choose|j: int| occurs_at(s, p, j);
        assert(occurs_at(s, p, j));
    }
}

proof fn lemma_find_first(s: Seq<char>, p: Seq<char>, i: int)
    requires
        0 <= i,
    ensures
        match find_from(s, p, i) {
            Some(k) => i <= k && occurs_at(s, p, k) && forall|j: int|
                i <= j < k ==> !#[trigger] occurs_at(s, p, j),
            None => forall|j: int| i <= j ==> !#[trigger] occurs_at(s, p, j),
        },
    decreases s.len() + 1 - i,
{
    if i + p.len() <= s.len() && !occurs_at(s, p, i) {
        lemma_find_first(s, p, i + 1);
    }
}

/// A text that stands between two others occurs in what they make together.
pub proof fn law_parts_occur(a: Seq<char>, p: Seq<char>, b: Seq<char>)
    ensures
        occurs(a + p + b, p),
        occurs_at(a + p + b, p, a.len() as int),
{
    assert((a + p + b).subrange(a.len() as int, (a.len() + p.len()) as int) =~= p);
    assert(occurs_at(a + p + b, p, a.len() as int));
}

/// Replacing a character puts a text in its place everywhere, and changes nothing else.
pub proof fn law_replacing(s: Seq<char>, c: char, r: Seq<char>, x: char)
    ensures
        replace(Seq::empty(), seq![c], r) == Seq::<char>::empty(),
        replace(seq![x] + s, seq![c], r) == (if x == c {
            r
        } else {
            seq![x]
        }) + replace(s, seq![c], r),
{
    let t = seq![x] + s;
    assert(t.subrange(0, 1) =~= seq![x]);
    assert(seq![x] == seq![c] ==> x == c) by {
        assert(seq![x][0] == x && seq![c][0] == c);
    }
    lemma_replace_later(s, c, r, x, 0);
}

proof fn lemma_replace_later(s: Seq<char>, c: char, r: Seq<char>, x: char, i: int)
    requires
        0 <= i,
    ensures
        replace_from(seq![x] + s, seq![c], r, i + 1) == replace_from(s, seq![c], r, i),
    decreases s.len() - i,
{
    let t = seq![x] + s;
    if i < s.len() {
        assert(t.subrange(i + 1, i + 2) =~= s.subrange(i, i + 1));
        assert(t[i + 1] == s[i]);
        lemma_replace_later(s, c, r, x, i + 1);
    }
}

/// What is put behind a row of joined texts stands behind the separator.
pub proof fn law_joining(s: Seq<Seq<char>>, sep: Seq<char>, t: Seq<char>)
    ensures
        join(Seq::empty(), sep) == Seq::<char>::empty(),
        join(seq![t], sep) == t,
        s.len() > 0 ==> join(s.push(t), sep) == join(s, sep) + sep + t,
{
    assert(s.push(t).drop_last() =~= s);
}

/// Two texts are the same but for case where they have as many characters, and each is the
/// other's or its letter in the other case.
pub proof fn law_same_but_case(a: Seq<char>, b: Seq<char>)
    ensures
        same_but_case(a, b) <==> a.len() == b.len() && forall|i: int|
            0 <= i < a.len() ==> (#[trigger] a[i] == b[i] || ascii_upper(a[i]) == b[i] || a[i]
                == ascii_upper(b[i])),
        same_but_case(a, ascii_uppercase(a)),
        same_but_case(a, ascii_lowercase(a)),
{
    let la = ascii_lowercase(a);
    let lb = ascii_lowercase(b);
    if la == lb {
        assert(la.len() == a.len() && lb.len() == b.len());
        assert forall|i: int| 0 <= i < a.len() implies (#[trigger] a[i] == b[i] || ascii_upper(a[i])
            == b[i] || a[i] == ascii_upper(b[i])) by {
            assert(la[i] == ascii_lower(a[i]) && lb[i] == ascii_lower(b[i]));
            law_letters(a[i]);
            law_letters(b[i]);
        }
    }
    if a.len() == b.len() && forall|i: int|
        0 <= i < a.len() ==> (#[trigger] a[i] == b[i] || ascii_upper(a[i]) == b[i] || a[i]
            == ascii_upper(b[i])) {
        assert forall|i: int| 0 <= i < a.len() implies #[trigger] la[i] == lb[i] by {
            assert(a[i] == b[i] || ascii_upper(a[i]) == b[i] || a[i] == ascii_upper(b[i]));
            law_letters(a[i]);
            law_letters(b[i]);
        }
        assert(la =~= lb);
    }
    assert(ascii_lowercase(ascii_uppercase(a)) =~= la) by {
        assert forall|i: int| 0 <= i < a.len() implies ascii_lowercase(ascii_uppercase(a))[i]
            == la[i] by {
            law_letters(a[i]);
        }
    }
    assert(ascii_lowercase(la) =~= la) by {
        assert forall|i: int| 0 <= i < a.len() implies ascii_lowercase(la)[i] == la[i] by {
            law_letters(a[i]);
        }
    }
}

/// Characters that are taken off an end leave none of them there, and what is left with some
/// of them is the text again.
pub proof fn law_ends_are_taken_off(s: Seq<char>, c: char)
    ensures
        trim_end_char(s, c).len() > 0 ==> trim_end_char(s, c).last() != c,
        trim_end_char(s, c).is_prefix_of(s),
        trim_end_char(s.push(c), c) == trim_end_char(s, c),
        s.len() > 0 && s.last() != c ==> trim_end_char(s, c) == s,
        trim_start_char(s, c).len() > 0 ==> trim_start_char(s, c)[0] != c,
        trim_start_char(seq![c] + s, c) == trim_start_char(s, c),
        s.len() > 0 && s[0] != c ==> trim_start_char(s, c) == s,
    decreases s.len(),
{
    assert(s.push(c).drop_last() =~= s);
    assert((seq![c] + s).skip(1) =~= s);
    if s.len() > 0 {
        if s.last() == c {
            law_ends_are_taken_off(s.drop_last(), c);
        }
        if s[0] == c {
            law_ends_are_taken_off(s.skip(1), c);
        }
    }
}

/// A text is found from behind where it stands last.
pub proof fn law_finding_from_behind(s: Seq<char>, p: Seq<char>)
    ensures
        rfind(s, p) is Some <==> occurs(s, p),
        rfind(s, p) matches Some(i) ==> occurs_at(s, p, i) && forall|j: int|
            i < j ==> !#[trigger] occurs_at(s, p, j),
{
    lemma_find_last(s, p, s.len() as int + 1);
    if occurs(s, p) {
        let j = choose|j: int| occurs_at(s, p, j);
        assert(occurs_at(s, p, j));
    }
}

proof fn lemma_find_last(s: Seq<char>, p: Seq<char>, i: int)
    requires
        0 <= i,
    ensures
        match rfind_before(s, p, i) {
            Some(k) => 0 <= k < i && occurs_at(s, p, k) && forall|j: int|
                k < j < i ==> !#[trigger] occurs_at(s, p, j),
            None => forall|j: int| 0 <= j < i ==> !#[trigger] occurs_at(s, p, j),
        },
    decreases i,
{
    if i > 0 && !occurs_at(s, p, i - 1) {
        lemma_find_last(s, p, i - 1);
    }
}

} // verus!
