//! Coordinate numbers as Gerber and Excellon write them, read without rounding.
use vstd::prelude::*;
use crate::text::{all_digits, digits_upto, digits_value};

verus! {

/// The unit that coordinates are written in: inches (25.4 mm) or millimetres.
#[derive(Debug, Clone, Copy, PartialEq, Eq, Structural)]
pub enum Units {
    Inch,
    Millimeter,
}


/// A number read from a coordinate field. `Literal` holds text written with a decimal point,
/// whose value is that decimal; `Scaled` stands for
/// `±mantissa × 10^shift ÷ 10^divisor_exp`, the integer form that omits the decimal point.
#[derive(Debug, PartialEq)]
pub enum ParsedNumber {
    Literal(String),
    Scaled { negative: bool, mantissa: i64, shift: i32, divisor_exp: i32 },
}

pub enum NumberModel {
    Literal(Seq<char>),
    Scaled { negative: bool, mantissa: i64, shift: i32, divisor_exp: i32 },
}

impl View for ParsedNumber {
    type V = NumberModel;

    open spec fn view(&self) -> NumberModel {
        match self {
            ParsedNumber::Literal(s) => NumberModel::Literal(s@),
            ParsedNumber::Scaled { negative, mantissa, shift, divisor_exp } => NumberModel::Scaled {
                negative: *negative,
                mantissa: *mantissa,
                shift: *shift,
                divisor_exp: *divisor_exp,
            },
        }
    }
}

/// `s` without its leading `+` and `-` signs (`trim_start_matches(['+', '-'])`).
pub open spec fn strip_signs(s: Seq<char>) -> Seq<char>
    decreases s.len(),
{
    if s.len() > 0 && (s[0] == '+' || s[0] == '-') {
        strip_signs(s.drop_first())
    } else {
        s
    }
}

/// The number of bytes that UTF-8 takes for `c`.
pub open spec fn utf8_width(c: char) -> nat {
    if (c as u32) < 0x80 {
        1
    } else if (c as u32) < 0x800 {
        2
    } else if (c as u32) < 0x10000 {
        3
    } else {
        4
    }
}

/// The length of `s` in UTF-8 bytes (`str::len`).
pub open spec fn utf8_len(s: Seq<char>) -> nat
    decreases s.len(),
{
    if s.len() == 0 {
        0
    } else {
        utf8_len(s.drop_last()) + utf8_width(s.last())
    }
}

/// `i64` parse of a sign-free string, with `0` where it fails.
pub open spec fn digits_or_zero(s: Seq<char>) -> i64 {
    if s.len() > 0 && all_digits(s) && digits_value(s) <= i64::MAX {
        digits_value(s) as i64
    } else {
        0
    }
}

pub open spec fn sat_sub(a: nat, b: nat) -> nat {
    if a >= b {
        (a - b) as nat
    } else {
        0
    }
}

pub open spec fn sat_add_usize(a: usize, b: usize) -> usize {
    if a + b <= usize::MAX {
        (a + b) as usize
    } else {
        usize::MAX
    }
}

/// Index where the leading signs of `v` end.
pub fn sign_prefix_end(v: &Vec<char>) -> (r: usize)
    ensures
        r <= v.len(),
        v@.subrange(r as int, v.len() as int) == strip_signs(v@),
{
    let mut i: usize = 0;
    assert(v@.subrange(0, v.len() as int) =~= v@);
    while i < v.len() && (v[i] == '+' || v[i] == '-')
        invariant
            i <= v.len(),
            strip_signs(v@) == strip_signs(v@.subrange(i as int, v.len() as int)),
        decreases v.len() - i,
    {
        assert(v@.subrange(i as int, v.len() as int).drop_first() =~= v@.subrange(
            i + 1,
            v.len() as int,
        ));
        i = i + 1;
    }
    i
}

/// UTF-8 length of `v[from..]`.
pub fn utf8_len_from(v: &Vec<char>, from: usize) -> (r: usize)
    requires
        from <= v.len(),
    ensures
        r as nat == utf8_len(v@.subrange(from as int, v.len() as int)) || (r == usize::MAX
            && utf8_len(v@.subrange(from as int, v.len() as int)) >= usize::MAX),
{
    let mut n: usize = 0;
    let mut i = from;
    while i < v.len()
        invariant
            from <= i <= v.len(),
            n as nat == utf8_len(v@.subrange(from as int, i as int)),
        decreases v.len() - i,
    {
        assert(v@.subrange(from as int, i + 1).drop_last() =~= v@.subrange(from as int, i as int));
        let u = v[i] as u32;
        let w: usize = if u < 0x80 {
            1
        } else if u < 0x800 {
            2
        } else if u < 0x10000 {
            3
        } else {
            4
        };
        if n > usize::MAX - w {
            proof {
                lemma_utf8_len_prefix(v@.subrange(from as int, v.len() as int), i + 1 - from);
                assert(v@.subrange(from as int, v.len() as int).take(i + 1 - from) =~= v@.subrange(
                    from as int,
                    i + 1,
                ));
            }
            return usize::MAX;
        }
        n = n + w;
        i = i + 1;
    }
    n
}

pub proof fn lemma_utf8_len_prefix(s: Seq<char>, k: int)
    requires
        0 <= k <= s.len(),
    ensures
        utf8_len(s.take(k)) <= utf8_len(s),
    decreases s.len(),
{
    if k < s.len() {
        lemma_utf8_len_prefix(s.drop_last(), k);
        assert(s.drop_last().take(k) =~= s.take(k));
    } else {
        assert(s.take(k) =~= s);
    }
}

/// The parts shared by both integer forms: the sign, the mantissa and the UTF-8 length
/// of the sign-free text.
pub struct IntegerParts {
    pub negative: bool,
    pub mantissa: i64,
    pub unsigned_len: usize,
}

pub open spec fn parts_of(value: Seq<char>, p: IntegerParts) -> bool {
    &&& p.negative == (value.len() > 0 && value[0] == '-')
    &&& p.mantissa == digits_or_zero(strip_signs(value))
    &&& (p.unsigned_len as nat == utf8_len(strip_signs(value)) || (p.unsigned_len == usize::MAX
        && utf8_len(strip_signs(value)) >= usize::MAX))
}

/// Reads the sign, the mantissa and the length of a number written without a decimal point.
pub fn integer_parts(v: &Vec<char>) -> (r: IntegerParts)
    ensures
        parts_of(v@, r),
{
    let negative = v.len() > 0 && v[0] == '-';
    let start = sign_prefix_end(v);
    let mantissa: i64 = if start < v.len() {
        match digits_upto(v, start, v.len(), i64::MAX as u64) {
            Some(x) => x as i64,
            None => 0,
        }
    } else {
        0
    };
    let unsigned_len = utf8_len_from(v, start);
    IntegerParts { negative, mantissa, unsigned_len }
}

pub proof fn lemma_utf8_len_first(s: Seq<char>)
    requires
        s.len() > 0,
    ensures
        utf8_len(s) == utf8_width(s[0]) + utf8_len(s.drop_first()),
    decreases s.len(),
{
    if s.len() > 1 {
        lemma_utf8_len_first(s.drop_last());
        assert(s.drop_last().drop_first() =~= s.drop_first().drop_last());
        assert(utf8_len(s.drop_last().drop_first()) == utf8_len(s.drop_first().drop_last()));
        assert(s.drop_first().last() == s.last());
        assert(s.drop_last()[0] == s[0]);
        assert(utf8_len(s) == utf8_len(s.drop_last()) + utf8_width(s.last()));
        assert(utf8_len(s.drop_first()) == utf8_len(s.drop_first().drop_last()) + utf8_width(
            s.drop_first().last(),
        ));
    } else {
        assert(s.drop_first().len() == 0);
        assert(s.drop_last().len() == 0);
        assert(utf8_len(s.drop_first()) == 0);
        assert(utf8_len(s.drop_last()) == 0);
        assert(s.last() == s[0]);
    }
}

/// Removing leading signs does not lengthen a text.
pub proof fn lemma_strip_signs_len(s: Seq<char>)
    ensures
        utf8_len(strip_signs(s)) <= utf8_len(s),
    decreases s.len(),
{
    if s.len() > 0 && (s[0] == '+' || s[0] == '-') {
        lemma_strip_signs_len(s.drop_first());
        lemma_utf8_len_first(s);
    }
}

/// A text of ASCII characters takes one byte per character.
pub proof fn lemma_utf8_len_ascii(s: Seq<char>)
    requires
        forall|i: int| 0 <= i < s.len() ==> (#[trigger] s[i] as u32) < 128,
    ensures
        utf8_len(s) == s.len(),
    decreases s.len(),
{
    if s.len() > 0 {
        assert(s.last() == s[s.len() - 1]);
        lemma_utf8_len_ascii(s.drop_last());
    }
}

} // verus!
