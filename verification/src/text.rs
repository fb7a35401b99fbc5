//! Character-level text handling shared by the Gerber, Excellon and layer code.
//!
//! Text is modelled as `Seq<char>`, the view of `&str` and `String`.
use vstd::prelude::*;

verus! {

/// Unicode `White_Space`, the set that `char::is_whitespace` and `str::trim` use.
pub open spec fn is_ws(c: char) -> bool {
    let u = c as u32;
    ||| 9 <= u <= 13
    ||| u == 32
    ||| u == 0x85
    ||| u == 0xA0
    ||| u == 0x1680
    ||| 0x2000 <= u <= 0x200A
    ||| u == 0x2028
    ||| u == 0x2029
    ||| u == 0x202F
    ||| u == 0x205F
    ||| u == 0x3000
}

pub open spec fn is_digit(c: char) -> bool {
    '0' <= c && c <= '9'
}

pub open spec fn is_alpha(c: char) -> bool {
    ('A' <= c && c <= 'Z') || ('a' <= c && c <= 'z')
}

/// ASCII upper case of one character; every other character is kept.
pub open spec fn upper_char(c: char) -> char {
    if 'a' <= c && c <= 'z' {
        ((c as u32) - 32) as char
    } else {
        c
    }
}

/// ASCII lower case of one character; every other character is kept.
pub open spec fn lower_char(c: char) -> char {
    if 'A' <= c && c <= 'Z' {
        ((c as u32) + 32) as char
    } else {
        c
    }
}

pub open spec fn to_upper(s: Seq<char>) -> Seq<char> {
    s.map_values(|c: char| upper_char(c))
}

pub open spec fn to_lower(s: Seq<char>) -> Seq<char> {
    s.map_values(|c: char| lower_char(c))
}

/// `s` without its leading white space.
pub open spec fn trim_start(s: Seq<char>) -> Seq<char>
    decreases s.len(),
{
    if s.len() > 0 && is_ws(s[0]) {
        trim_start(s.drop_first())
    } else {
        s
    }
}

/// `s` without its trailing white space.
pub open spec fn trim_end(s: Seq<char>) -> Seq<char>
    decreases s.len(),
{
    if s.len() > 0 && is_ws(s.last()) {
        trim_end(s.drop_last())
    } else {
        s
    }
}

/// What `str::trim` keeps of `s`.
pub open spec fn trim(s: Seq<char>) -> Seq<char> {
    trim_end(trim_start(s))
}

pub open spec fn starts_with(s: Seq<char>, p: Seq<char>) -> bool {
    p.len() <= s.len() && s.take(p.len() as int) == p
}

pub open spec fn occurs_at(s: Seq<char>, p: Seq<char>, i: int) -> bool {
    0 <= i && i + p.len() <= s.len() && s.subrange(i, i + p.len()) == p
}

/// `p` occurs somewhere in `s`, as `str::contains` with a string pattern.
pub open spec fn contains(s: Seq<char>, p: Seq<char>) -> bool {
    exists|i: int| occurs_at(s, p, i)
}

/// Index of the first occurrence of `c` in `s`.
pub open spec fn first_index(s: Seq<char>, c: char) -> Option<int>
    decreases s.len(),
{
    if s.len() == 0 {
        None
    } else if s[0] == c {
        Some(0)
    } else {
        match first_index(s.drop_first(), c) {
            Some(i) => Some(i + 1),
            None => None,
        }
    }
}

/// Value of a string of ASCII digits.
pub open spec fn digits_value(s: Seq<char>) -> nat
    decreases s.len(),
{
    if s.len() == 0 {
        0
    } else {
        digits_value(s.drop_last()) * 10 + ((s.last() as u32) - 48) as nat
    }
}

pub open spec fn all_digits(s: Seq<char>) -> bool {
    forall|i: int| 0 <= i < s.len() ==> is_digit(#[trigger] s[i])
}

/// What `str::parse` gives for an unsigned integer type whose largest value is `max`:
/// an optional `+`, then at least one digit, and a value that fits.
pub open spec fn parse_unsigned(s: Seq<char>, max: nat) -> Option<nat> {
    let body = if s.len() > 0 && s[0] == '+' {
        s.drop_first()
    } else {
        s
    };
    if body.len() > 0 && all_digits(body) && digits_value(body) <= max {
        Some(digits_value(body))
    } else {
        None
    }
}

/// The pieces of `s` between the characters for which `sep` holds, as `str::split` gives them.
pub open spec fn split_where(s: Seq<char>, sep: spec_fn(char) -> bool) -> Seq<Seq<char>>
    decreases s.len(),
{
    if s.len() == 0 {
        seq![Seq::<char>::empty()]
    } else {
        let prev = split_where(s.drop_last(), sep);
        if sep(s.last()) {
            prev.push(Seq::<char>::empty())
        } else {
            prev.update(prev.len() - 1, prev.last().push(s.last()))
        }
    }
}

pub proof fn lemma_split_where_nonempty(s: Seq<char>, sep: spec_fn(char) -> bool)
    ensures
        split_where(s, sep).len() >= 1,
    decreases s.len(),
{
    if s.len() > 0 {
        lemma_split_where_nonempty(s.drop_last(), sep);
    }
}

pub proof fn lemma_trim_start_suffix(s: Seq<char>)
    ensures
        exists|a: int| 0 <= a <= s.len() && trim_start(s) == s.subrange(a, s.len() as int),
        trim_start(s).len() > 0 ==> !is_ws(trim_start(s)[0]),
    decreases s.len(),
{
    if s.len() > 0 && is_ws(s[0]) {
        lemma_trim_start_suffix(s.drop_first());
        let a = choose|a: int|
            0 <= a <= s.drop_first().len() && trim_start(s.drop_first()) == s.drop_first().subrange(
                a,
                s.drop_first().len() as int,
            );
        assert(s.drop_first().subrange(a, s.drop_first().len() as int) =~= s.subrange(
            a + 1,
            s.len() as int,
        ));
    } else {
        assert(s.subrange(0, s.len() as int) =~= s);
    }
}

pub proof fn lemma_trim_end_prefix(s: Seq<char>)
    ensures
        exists|b: int| 0 <= b <= s.len() && trim_end(s) == s.subrange(0, b),
        trim_end(s).len() > 0 ==> !is_ws(trim_end(s).last()),
    decreases s.len(),
{
    if s.len() > 0 && is_ws(s.last()) {
        lemma_trim_end_prefix(s.drop_last());
        let b = choose|b: int|
            0 <= b <= s.drop_last().len() && trim_end(s.drop_last()) == s.drop_last().subrange(
                0,
                b,
            );
        assert(s.drop_last().subrange(0, b) =~= s.subrange(0, b));
    } else {
        assert(s.subrange(0, s.len() as int) =~= s);
    }
}

/// What `str::trim` keeps starts and ends with a character that is not white space.
pub proof fn lemma_trim_ends(s: Seq<char>)
    ensures
        trim(s).len() > 0 ==> !is_ws(trim(s)[0]) && !is_ws(trim(s).last()),
        trim(s).len() <= s.len(),
{
    lemma_trim_start_suffix(s);
    let t = trim_start(s);
    lemma_trim_end_prefix(t);
    let b = choose|b: int| 0 <= b <= t.len() && trim_end(t) == t.subrange(0, b);
    if trim(s).len() > 0 {
        assert(trim(s)[0] == t[0]);
    }
}

pub proof fn lemma_trim_is_subrange(s: Seq<char>)
    ensures
        exists|a: int, b: int| 0 <= a <= b <= s.len() && trim(s) == s.subrange(a, b),
{
    lemma_trim_start_suffix(s);
    let a = choose|a: int| 0 <= a <= s.len() && trim_start(s) == s.subrange(a, s.len() as int);
    let t = trim_start(s);
    lemma_trim_end_prefix(t);
    let b = choose|b: int| 0 <= b <= t.len() && trim_end(t) == t.subrange(0, b);
    assert(t.subrange(0, b) =~= s.subrange(a, a + b));
}

/// The characters of a string slice.
pub fn chars_of(s: &str) -> (r: Vec<char>)
    ensures
        r@ == s@,
{
    let mut r: Vec<char> = Vec::new();
    for c in it: s.chars()
        invariant
            it.seq() == s@,
            r@ == s@.take(it.index() as int),
    {
        r.push(c);
    }
    assert(s@.take(s@.len() as int) =~= s@);
    r
}

/// Appends one character to a `String` (`String::push`).
#[verifier::external_body]
pub(crate) fn push_char(s: &mut String, c: char)
    ensures
        final(s)@ == old(s)@.push(c),
{
    s.push(c);
}

/// A `String` holding the characters `v[from..to]`.
pub fn string_from(v: &Vec<char>, from: usize, to: usize) -> (r: String)
    requires
        from <= to <= v.len(),
    ensures
        r@ == v@.subrange(from as int, to as int),
{
    let mut r = String::new();
    let mut i = from;
    while i < to
        invariant
            from <= i <= to <= v.len(),
            r@ == v@.subrange(from as int, i as int),
        decreases to - i,
    {
        push_char(&mut r, v[i]);
        assert(v@.subrange(from as int, i + 1) =~= v@.subrange(from as int, i as int).push(v@[i as int]));
        i = i + 1;
    }
    r
}

pub fn is_whitespace(c: char) -> (r: bool)
    ensures
        r == is_ws(c),
{
    let u = c as u32;
    (9 <= u && u <= 13) || u == 32 || u == 0x85 || u == 0xA0 || u == 0x1680 || (0x2000 <= u && u
        <= 0x200A) || u == 0x2028 || u == 0x2029 || u == 0x202F || u == 0x205F || u == 0x3000
}

pub fn is_ascii_digit(c: char) -> (r: bool)
    ensures
        r == is_digit(c),
{
    '0' <= c && c <= '9'
}

pub fn is_ascii_alphabetic(c: char) -> (r: bool)
    ensures
        r == is_alpha(c),
{
    ('A' <= c && c <= 'Z') || ('a' <= c && c <= 'z')
}

pub fn ascii_upper(c: char) -> (r: char)
    ensures
        r == upper_char(c),
{
    if 'a' <= c && c <= 'z' {
        ((c as u8) - 32) as char
    } else {
        c
    }
}

pub fn ascii_lower(c: char) -> (r: char)
    ensures
        r == lower_char(c),
{
    if 'A' <= c && c <= 'Z' {
        ((c as u8) + 32) as char
    } else {
        c
    }
}

/// The bounds `[a, b)` of what `str::trim` keeps of `v`.
pub fn trim_bounds(v: &Vec<char>) -> (r: (usize, usize))
    ensures
        r.0 <= r.1 <= v.len(),
        v@.subrange(r.0 as int, r.1 as int) == trim(v@),
{
    let n = v.len();
    let mut a: usize = 0;
    assert(v@.subrange(0, n as int) =~= v@);
    while a < n && is_whitespace(v[a])
        invariant
            a <= n == v.len(),
            trim_start(v@) == trim_start(v@.subrange(a as int, n as int)),
        decreases n - a,
    {
        assert(v@.subrange(a as int, n as int).drop_first() =~= v@.subrange(a + 1, n as int));
        a = a + 1;
    }
    assert(trim_start(v@) == v@.subrange(a as int, n as int));
    let mut b: usize = n;
    while b > a && is_whitespace(v[b - 1])
        invariant
            a <= b <= n == v.len(),
            trim(v@) == trim_end(v@.subrange(a as int, b as int)),
        decreases b,
    {
        assert(v@.subrange(a as int, b as int).drop_last() =~= v@.subrange(a as int, b - 1));
        b = b - 1;
    }
    (a, b)
}

/// The trimmed characters of `v`.
pub fn trimmed(v: &Vec<char>) -> (r: Vec<char>)
    ensures
        r@ == trim(v@),
{
    let (a, b) = trim_bounds(v);
    slice_vec(v, a, b)
}

/// The characters `v[from..to]`.
pub fn slice_vec(v: &Vec<char>, from: usize, to: usize) -> (r: Vec<char>)
    requires
        from <= to <= v.len(),
    ensures
        r@ == v@.subrange(from as int, to as int),
{
    let mut r: Vec<char> = Vec::new();
    let mut i = from;
    while i < to
        invariant
            from <= i <= to <= v.len(),
            r@ == v@.subrange(from as int, i as int),
        decreases to - i,
    {
        r.push(v[i]);
        assert(v@.subrange(from as int, i + 1) =~= v@.subrange(from as int, i as int).push(v@[i as int]));
        i = i + 1;
    }
    r
}

/// ASCII upper case of every character (`str::to_ascii_uppercase`).
pub fn upper_vec(v: &Vec<char>) -> (r: Vec<char>)
    ensures
        r@ == to_upper(v@),
{
    let mut r: Vec<char> = Vec::new();
    let mut i: usize = 0;
    while i < v.len()
        invariant
            i <= v.len(),
            r@ == to_upper(v@.take(i as int)),
        decreases v.len() - i,
    {
        r.push(ascii_upper(v[i]));
        assert(to_upper(v@.take(i + 1)) =~= to_upper(v@.take(i as int)).push(upper_char(v@[i as int])));
        i = i + 1;
    }
    assert(v@.take(v.len() as int) =~= v@);
    r
}

/// ASCII lower case of every character (`str::to_ascii_lowercase`).
pub fn lower_vec(v: &Vec<char>) -> (r: Vec<char>)
    ensures
        r@ == to_lower(v@),
{
    let mut r: Vec<char> = Vec::new();
    let mut i: usize = 0;
    while i < v.len()
        invariant
            i <= v.len(),
            r@ == to_lower(v@.take(i as int)),
        decreases v.len() - i,
    {
        r.push(ascii_lower(v[i]));
        assert(to_lower(v@.take(i + 1)) =~= to_lower(v@.take(i as int)).push(lower_char(v@[i as int])));
        i = i + 1;
    }
    assert(v@.take(v.len() as int) =~= v@);
    r
}

/// Whether `p` occurs in `v` at index `i`.
pub fn matches_at(v: &Vec<char>, p: &Vec<char>, i: usize) -> (r: bool)
    ensures
        r == occurs_at(v@, p@, i as int),
{
    if i > v.len() || p.len() > v.len() - i {
        return false;
    }
    let mut k: usize = 0;
    while k < p.len()
        invariant
            i + p.len() <= v.len(),
            k <= p.len(),
            forall|j: int| 0 <= j < k ==> v@[i + j] == p@[j],
        decreases p.len() - k,
    {
        if v[i + k] != p[k] {
            assert(v@.subrange(i as int, i + p.len())[k as int] != p@[k as int]);
            return false;
        }
        k = k + 1;
    }
    assert(v@.subrange(i as int, i + p.len()) =~= p@);
    true
}

/// Whether `v` starts with `p` (`str::starts_with`).
pub fn starts_with_vec(v: &Vec<char>, p: &str) -> (r: bool)
    ensures
        r == starts_with(v@, p@),
{
    let pv = chars_of(p);
    let r = matches_at(v, &pv, 0);
    assert(v@.take(pv.len() as int) =~= v@.subrange(0, pv.len() as int));
    r
}

/// Whether `p` occurs in `v` (`str::contains`).
pub fn contains_vec(v: &Vec<char>, p: &str) -> (r: bool)
    ensures
        r == contains(v@, p@),
{
    let pv = chars_of(p);
    if pv.len() > v.len() {
        return false;
    }
    let bound = v.len() - pv.len();
    let mut i: usize = 0;
    while i < bound
        invariant
            pv@ == p@,
            bound == v.len() - pv.len(),
            i <= bound,
            forall|j: int| 0 <= j < i ==> !occurs_at(v@, p@, j),
        decreases bound - i,
    {
        if matches_at(v, &pv, i) {
            return true;
        }
        i = i + 1;
    }
    let r = matches_at(v, &pv, bound);
    assert(!r ==> forall|j: int| !occurs_at(v@, p@, j));
    r
}

/// Whether `v` contains the character `c`.
pub fn has_char(v: &Vec<char>, c: char) -> (r: bool)
    ensures
        r == v@.contains(c),
{
    let mut i: usize = 0;
    while i < v.len()
        invariant
            i <= v.len(),
            forall|j: int| 0 <= j < i ==> v@[j] != c,
        decreases v.len() - i,
    {
        if v[i] == c {
            return true;
        }
        i = i + 1;
    }
    false
}

/// Index of the first `c` in `v` (`str::find` with a character, counted in characters).
pub fn find_char(v: &Vec<char>, c: char) -> (r: Option<usize>)
    ensures
        r matches Some(i) ==> first_index(v@, c) == Some(i as int) && i < v.len() && v@[i as int]
            == c,
        r is None ==> first_index(v@, c) is None,
{
    let mut i: usize = 0;
    assert(v@.skip(0) =~= v@);
    while i < v.len()
        invariant
            i <= v.len(),
            first_index(v@, c) == (match first_index(v@.skip(i as int), c) {
                Some(k) => Some(k + i),
                None => None,
            }),
            forall|j: int| 0 <= j < i ==> v@[j] != c,
        decreases v.len() - i,
    {
        if v[i] == c {
            return Some(i);
        }
        assert(v@.skip(i as int).drop_first() =~= v@.skip(i + 1));
        i = i + 1;
    }
    None
}

/// Whether `v` holds exactly the characters of `p`.
pub fn equals_str(v: &Vec<char>, p: &str) -> (r: bool)
    ensures
        r == (v@ == p@),
{
    let pv = chars_of(p);
    if pv.len() != v.len() {
        return false;
    }
    let r = matches_at(v, &pv, 0);
    assert(v@.subrange(0, v.len() as int) =~= v@);
    r
}

pub proof fn lemma_digits_value_prefix(s: Seq<char>, k: int)
    requires
        0 <= k <= s.len(),
    ensures
        digits_value(s.take(k)) <= digits_value(s),
    decreases s.len(),
{
    if k < s.len() {
        lemma_digits_value_prefix(s.drop_last(), k);
        assert(s.drop_last().take(k) =~= s.take(k));
    } else {
        assert(s.take(k) =~= s);
    }
}

/// The value of the digits `v[from..to]`, when all are digits and the value is at most `max`.
pub fn digits_upto(v: &Vec<char>, from: usize, to: usize, max: u64) -> (r: Option<u64>)
    requires
        from <= to <= v.len(),
    ensures
        r matches Some(x) ==> all_digits(v@.subrange(from as int, to as int)) && x == digits_value(
            v@.subrange(from as int, to as int),
        ) && x <= max,
        r is None ==> !all_digits(v@.subrange(from as int, to as int)) || digits_value(
            v@.subrange(from as int, to as int),
        ) > max,
{
    let ghost s = v@.subrange(from as int, to as int);
    let mut i = from;
    while i < to
        invariant
            from <= i <= to <= v.len(),
            s == v@.subrange(from as int, to as int),
            forall|j: int| from <= j < i ==> is_digit(#[trigger] v@[j]),
        decreases to - i,
    {
        if !is_ascii_digit(v[i]) {
            assert(!is_digit(s[i - from]));
            return None;
        }
        i = i + 1;
    }
    assert(all_digits(s)) by {
        assert forall|j: int| 0 <= j < s.len() implies is_digit(#[trigger] s[j]) by {
            assert(s[j] == v@[from + j]);
        }
    }
    let mut value: u64 = 0;
    let mut k = from;
    assert(s.take(0) =~= Seq::<char>::empty());
    while k < to
        invariant
            from <= k <= to <= v.len(),
            s == v@.subrange(from as int, to as int),
            all_digits(s),
            value == digits_value(s.take(k - from)),
            value <= max,
        decreases to - k,
    {
        assert(s[k - from] == v@[k as int]);
        assert(is_digit(s[k - from]));
        let d = (v[k] as u32 - 48) as u64;
        assert(s.take(k - from + 1).drop_last() =~= s.take(k - from));
        assert(s.take(k - from + 1).last() == v@[k as int]);
        if d > max || value > (max - d) / 10 {
            proof {
                assert(digits_value(s.take(k - from + 1)) == value * 10 + d);
                if d <= max {
                    assert(value * 10 + d > max) by (nonlinear_arith)
                        requires
                            value > (max - d) / 10,
                            d <= max,
                    ;
                }
                lemma_digits_value_prefix(s, k - from + 1);
            }
            return None;
        }
        value = value * 10 + d;
        k = k + 1;
    }
    assert(s.take(to - from) =~= s);
    Some(value)
}

/// `str::parse` of `v[from..to]` into an unsigned type whose largest value is `max`.
pub fn parse_unsigned_in(v: &Vec<char>, from: usize, to: usize, max: u64) -> (r: Option<u64>)
    requires
        from <= to <= v.len(),
    ensures
        r matches Some(x) ==> parse_unsigned(v@.subrange(from as int, to as int), max as nat)
            == Some(x as nat),
        r is None ==> parse_unsigned(v@.subrange(from as int, to as int), max as nat) is None,
{
    let ghost s = v@.subrange(from as int, to as int);
    if from < to && v[from] == '+' {
        assert(s.drop_first() =~= v@.subrange(from + 1, to as int));
        if from + 1 == to {
            return None;
        }
        digits_upto(v, from + 1, to, max)
    } else {
        if from == to {
            return None;
        }
        digits_upto(v, from, to, max)
    }
}

/// Index of the first occurrence of `p` in `v` (`str::find` with a string, in characters).
pub fn find_str(v: &Vec<char>, p: &str) -> (r: Option<usize>)
    ensures
        r matches Some(i) ==> occurs_at(v@, p@, i as int) && forall|j: int|
            0 <= j < i ==> !occurs_at(v@, p@, j),
        r is None ==> !contains(v@, p@),
{
    let pv = chars_of(p);
    if pv.len() > v.len() {
        return None;
    }
    let bound = v.len() - pv.len();
    let mut i: usize = 0;
    while i < bound
        invariant
            pv@ == p@,
            bound == v.len() - pv.len(),
            i <= bound,
            forall|j: int| 0 <= j < i ==> !occurs_at(v@, p@, j),
        decreases bound - i,
    {
        if matches_at(v, &pv, i) {
            return Some(i);
        }
        i = i + 1;
    }
    if matches_at(v, &pv, bound) {
        Some(bound)
    } else {
        None
    }
}

/// Every character of `s` is a digit exactly when its run of leading digits is all of it.
pub proof fn lemma_leading_digits_all(s: Seq<char>)
    ensures
        all_digits(s) <==> leading_digits(s) == s.len(),
        leading_digits(s) <= s.len(),
    decreases s.len(),
{
    if s.len() > 0 {
        lemma_leading_digits_all(s.drop_first());
        if is_digit(s[0]) {
            if all_digits(s.drop_first()) {
                assert forall|i: int| 0 <= i < s.len() implies is_digit(#[trigger] s[i]) by {
                    if i > 0 {
                        assert(s[i] == s.drop_first()[i - 1]);
                    }
                }
            } else {
                let i = choose|i: int| 0 <= i < s.drop_first().len() && !is_digit(#[trigger] s.drop_first()[i]);
                assert(s[i + 1] == s.drop_first()[i]);
            }
        }
    }
}

pub proof fn lemma_first_index_bounds(s: Seq<char>, c: char)
    ensures
        first_index(s, c) matches Some(k) ==> 0 <= k < s.len() && s[k] == c,
    decreases s.len(),
{
    if s.len() > 0 && s[0] != c {
        lemma_first_index_bounds(s.drop_first(), c);
    }
}

/// Splitting a concatenation: the last piece of `x` and the first piece of `y` join.
pub proof fn lemma_split_where_concat(x: Seq<char>, y: Seq<char>, sep: spec_fn(char) -> bool)
    ensures
        split_where(x + y, sep) == split_where(x, sep).drop_last() + seq![
            split_where(x, sep).last() + split_where(y, sep)[0],
        ] + split_where(y, sep).skip(1),
    decreases y.len(),
{
    lemma_split_where_nonempty(x, sep);
    lemma_split_where_nonempty(y, sep);
    let px = split_where(x, sep);
    if y.len() == 0 {
        assert(x + y =~= x);
        assert(split_where(y, sep) =~= seq![Seq::<char>::empty()]);
        assert(px.last() + Seq::<char>::empty() =~= px.last());
        assert(px.drop_last() + seq![px.last()] =~= px);
        assert(split_where(y, sep).skip(1) =~= Seq::<Seq<char>>::empty());
        assert(px.drop_last() + seq![px.last() + split_where(y, sep)[0]] + split_where(y, sep).skip(1)
            =~= px);
    } else {
        let y1 = y.drop_last();
        let c = y.last();
        lemma_split_where_concat(x, y1, sep);
        lemma_split_where_nonempty(y1, sep);
        assert((x + y).drop_last() =~= x + y1);
        assert((x + y).last() == c);
        let py1 = split_where(y1, sep);
        let prev = split_where(x + y1, sep);
        let d = px.drop_last();
        assert(prev == d + seq![px.last() + py1[0]] + py1.skip(1));
        if sep(c) {
            let py = py1.push(Seq::<char>::empty());
            assert(split_where(y, sep) == py);
            assert(py[0] == py1[0]);
            assert(py.skip(1) =~= py1.skip(1).push(Seq::<char>::empty()));
            assert(split_where(x + y, sep) == prev.push(Seq::<char>::empty()));
            assert(prev.push(Seq::<char>::empty()) =~= d + seq![px.last() + py[0]] + py.skip(1));
        } else {
            let py = py1.update(py1.len() - 1, py1.last().push(c));
            assert(split_where(y, sep) == py);
            assert(split_where(x + y, sep) == prev.update(prev.len() - 1, prev.last().push(c)));
            if py1.len() == 1 {
                assert(py[0] == py1[0].push(c));
                assert(py1.skip(1) =~= Seq::<Seq<char>>::empty());
                assert(py.skip(1) =~= Seq::<Seq<char>>::empty());
                assert((px.last() + py1[0]).push(c) =~= px.last() + py[0]);
                assert(prev.update(prev.len() - 1, prev.last().push(c)) =~= d + seq![
                    px.last() + py[0],
                ] + py.skip(1));
            } else {
                assert(py[0] == py1[0]);
                assert(py.skip(1) =~= py1.skip(1).update(
                    py1.skip(1).len() - 1,
                    py1.skip(1).last().push(c),
                ));
                assert(prev.update(prev.len() - 1, prev.last().push(c)) =~= d + seq![
                    px.last() + py[0],
                ] + py.skip(1));
            }
        }
    }
}

/// Number of leading ASCII digits of `s`.
pub open spec fn leading_digits(s: Seq<char>) -> nat
    decreases s.len(),
{
    if s.len() > 0 && is_digit(s[0]) {
        1 + leading_digits(s.drop_first())
    } else {
        0
    }
}

/// Number of ASCII digits in `v` from index `from` on, before the first other character.
pub fn count_leading_digits(v: &Vec<char>, from: usize) -> (r: usize)
    requires
        from <= v.len(),
    ensures
        r as nat == leading_digits(v@.skip(from as int)),
        from + r <= v.len(),
{
    let mut k: usize = from;
    while k < v.len() && is_ascii_digit(v[k])
        invariant
            from <= k <= v.len(),
            leading_digits(v@.skip(from as int)) == (k - from) + leading_digits(v@.skip(k as int)),
        decreases v.len() - k,
    {
        assert(v@.skip(k as int).drop_first() =~= v@.skip(k + 1));
        k = k + 1;
    }
    k - from
}

} // verus!
