//! The inbound text protocol: decimal numbers and the `RESIZE:<cols>x<rows>`
//! control message, read from the UTF-8 bytes of a text frame.
use vstd::prelude::*;

verus! {

/// ASCII `0`.
pub const DIGIT_ZERO: u8 = 48;

/// ASCII `+`.
pub const PLUS_SIGN: u8 = 43;

pub open spec fn is_digit(b: u8) -> bool {
    DIGIT_ZERO <= b <= DIGIT_ZERO + 9
}

pub open spec fn all_digits(s: Seq<u8>) -> bool {
    forall|i: int| 0 <= i < s.len() ==> is_digit(#[trigger] s[i])
}

/// The number written by a sequence of decimal digits, most significant first.
pub open spec fn digits_value(s: Seq<u8>) -> nat
    decreases s.len(),
{
    if s.len() == 0 {
        0
    } else {
        digits_value(s.drop_last()) * 10 + (s.last() - DIGIT_ZERO) as nat
    }
}

/// What `u16::from_str` accepts: an optional `+`, then one or more decimal
/// digits whose value fits in 16 bits.
pub open spec fn decimal_u16(s: Seq<u8>) -> Option<u16> {
    let d = if s.len() > 0 && s[0] == PLUS_SIGN {
        s.drop_first()
    } else {
        s
    };
    if d.len() > 0 && all_digits(d) && digits_value(d) <= u16::MAX {
        Some(digits_value(d) as u16)
    } else {
        None
    }
}

proof fn lemma_digits_value_grows(s: Seq<u8>, j: int)
    requires
        0 <= j <= s.len(),
        all_digits(s),
    ensures
        digits_value(s.take(j)) <= digits_value(s),
    decreases s.len() - j,
{
    if j < s.len() {
        lemma_digits_value_grows(s, j + 1);
        assert(s.take(j + 1).drop_last() =~= s.take(j));
    } else {
        assert(s.take(j) =~= s);
    }
}

fn parse_digits(s: &[u8], start: usize) -> (r: Option<u16>)
    requires
        start <= s@.len(),
    ensures
        ({
            let d = s@.skip(start as int);
            r == if d.len() > 0 && all_digits(d) && digits_value(d) <= u16::MAX {
                Some(digits_value(d) as u16)
            } else {
                None
            }
        }),
{
    let ghost d = s@.skip(start as int);
    if start == s.len() {
        return None;
    }
    let mut value: u32 = 0;
    let mut i: usize = start;
    while i < s.len()
        invariant
            start <= i <= s@.len(),
            d == s@.skip(start as int),
            all_digits(d.take(i - start)),
            value as nat == digits_value(d.take(i - start)),
            value <= u16::MAX,
        decreases s@.len() - i,
    {
        let b = s[i];
        assert(d.take(i - start + 1).drop_last() =~= d.take(i - start));
        assert(d[i - start] == b);
        if b < DIGIT_ZERO || b > DIGIT_ZERO + 9 {
            assert(!all_digits(d)) by {
                assert(!is_digit(d[i - start]));
            }
            return None;
        }
        value = value * 10 + (b - DIGIT_ZERO) as u32;
        assert(all_digits(d.take(i - start + 1))) by {
            assert forall|k: int| 0 <= k < i - start + 1 implies is_digit(
                #[trigger] d.take(i - start + 1)[k],
            ) by {
                if k < i - start {
                    assert(d.take(i - start + 1)[k] == d.take(i - start)[k]);
                }
            }
        }
        if value > 65535 {
            proof {
                if all_digits(d) {
                    lemma_digits_value_grows(d, i - start + 1);
                }
            }
            return None;
        }
        i = i + 1;
    }
    assert(d.take(i - start) =~= d);
    Some(value as u16)
}

/// Reads a decimal `u16` the way `u16::from_str` does.
pub fn parse_u16(s: &[u8]) -> (r: Option<u16>)
    ensures
        r == decimal_u16(s@),
{
    if s.len() > 0 && s[0] == PLUS_SIGN {
        assert(s@.skip(1) =~= s@.drop_first());
        parse_digits(s, 1)
    } else {
        assert(s@.skip(0) =~= s@);
        parse_digits(s, 0)
    }
}

/// What `u64::from_str` accepts: an optional `+`, then one or more decimal
/// digits whose value fits in 64 bits.
pub open spec fn decimal_u64(s: Seq<u8>) -> Option<u64> {
    let d = if s.len() > 0 && s[0] == PLUS_SIGN {
        s.drop_first()
    } else {
        s
    };
    if d.len() > 0 && all_digits(d) && digits_value(d) <= u64::MAX {
        Some(digits_value(d) as u64)
    } else {
        None
    }
}

/// Reads a decimal `u64` the way `u64::from_str` does.
pub fn parse_u64(s: &[u8]) -> (r: Option<u64>)
    ensures
        r == decimal_u64(s@),
{
    let start: usize = if s.len() > 0 && s[0] == PLUS_SIGN {
        1
    } else {
        0
    };
    let ghost d = s@.skip(start as int);
    assert(d =~= (if s@.len() > 0 && s@[0] == PLUS_SIGN {
        s@.drop_first()
    } else {
        s@
    }));
    if start == s.len() {
        return None;
    }
    let mut value: u64 = 0;
    let mut i: usize = start;
    while i < s.len()
        invariant
            start <= i <= s@.len(),
            d == s@.skip(start as int),
            d == (if s@.len() > 0 && s@[0] == PLUS_SIGN {
                s@.drop_first()
            } else {
                s@
            }),
            all_digits(d.take(i - start)),
            value as nat == digits_value(d.take(i - start)),
        decreases s@.len() - i,
    {
        let b = s[i];
        assert(d.take(i - start + 1).drop_last() =~= d.take(i - start));
        assert(d[i - start] == b);
        if b < DIGIT_ZERO || b > DIGIT_ZERO + 9 {
            assert(!all_digits(d)) by {
                assert(!is_digit(d[i - start]));
            }
            return None;
        }
        let digit = (b - DIGIT_ZERO) as u64;
        assert(all_digits(d.take(i - start + 1))) by {
            assert forall|k: int| 0 <= k < i - start + 1 implies is_digit(
                #[trigger] d.take(i - start + 1)[k],
            ) by {
                if k < i - start {
                    assert(d.take(i - start + 1)[k] == d.take(i - start)[k]);
                }
            }
        }
        if value > (u64::MAX - digit) / 10 {
            assert(value * 10 + digit > u64::MAX) by (nonlinear_arith)
                requires
                    value > (u64::MAX - digit) / 10,
                    digit <= 9,
            ;
            proof {
                if all_digits(d) {
                    lemma_digits_value_grows(d, i - start + 1);
                }
            }
            return None;
        }
        assert(value * 10 + digit <= u64::MAX) by (nonlinear_arith)
            requires
                value <= (u64::MAX - digit) / 10,
                digit <= 9,
        ;
        value = value * 10 + digit;
        i = i + 1;
    }
    assert(d.take(i - start) =~= d);
    Some(value)
}

/// ASCII `x`, which separates the columns from the rows in a resize message.
pub const GEOMETRY_SEPARATOR: u8 = 120;

/// The largest number of columns or rows a resize message may ask for.
/// Zero and anything above this are refused, so the device is never handed
/// a degenerate or absurd geometry.
pub const MAX_TERMINAL_DIMENSION: u16 = 1000;

/// The ASCII bytes of `RESIZE:`, the tag that opens a resize message.
pub open spec fn resize_tag() -> Seq<u8> {
    seq![82u8, 69, 83, 73, 90, 69, 58]
}

pub open spec fn has_resize_tag(t: Seq<u8>) -> bool {
    t.len() >= resize_tag().len() && t.take(resize_tag().len() as int) == resize_tag()
}

pub open spec fn no_separator(s: Seq<u8>) -> bool {
    forall|i: int| 0 <= i < s.len() ==> #[trigger] s[i] != GEOMETRY_SEPARATOR
}

/// `k` is the position of the one and only separator in `d`: splitting `d`
/// at separators gives exactly two parts.
pub open spec fn is_sole_separator(d: Seq<u8>, k: int) -> bool {
    &&& 0 <= k < d.len()
    &&& d[k] == GEOMETRY_SEPARATOR
    &&& no_separator(d.take(k))
    &&& no_separator(d.skip(k + 1))
}

/// The `(cols, rows)` that `<cols>x<rows>` writes, if it splits into exactly
/// two parts that each read as a decimal `u16`.
pub open spec fn geometry_request(d: Seq<u8>) -> Option<(u16, u16)> {
    if exists|k: int| is_sole_separator(d, k) {
        let k = choose|k: int| is_sole_separator(d, k);
        match (decimal_u16(d.take(k)), decimal_u16(d.skip(k + 1))) {
            (Some(cols), Some(rows)) => Some((cols, rows)),
            _ => None,
        }
    } else {
        None
    }
}

pub open spec fn dimension_in_range(v: u16) -> bool {
    1 <= v <= MAX_TERMINAL_DIMENSION
}

/// What a text frame asks of the session.
#[derive(PartialEq, Eq, Structural, Clone, Copy, Debug)]
pub enum TextCommand {
    /// Ordinary input: the frame's bytes go to the shell.
    Input,
    /// A well-formed resize message with an acceptable geometry.
    Resize { cols: u16, rows: u16 },
    /// A resize message that is malformed or out of range: nothing happens.
    Ignored,
}

/// A text frame is a resize message when its bytes start with `RESIZE:`;
/// any other text frame is input for the shell.
pub open spec fn text_command(t: Seq<u8>) -> TextCommand {
    if has_resize_tag(t) {
        match geometry_request(t.skip(resize_tag().len() as int)) {
            Some(g) => if dimension_in_range(g.0) && dimension_in_range(g.1) {
                TextCommand::Resize { cols: g.0, rows: g.1 }
            } else {
                TextCommand::Ignored
            },
            None => TextCommand::Ignored,
        }
    } else {
        TextCommand::Input
    }
}

proof fn lemma_sole_separator_unique(d: Seq<u8>, k1: int, k2: int)
    requires
        is_sole_separator(d, k1),
        is_sole_separator(d, k2),
    ensures
        k1 == k2,
{
    if k1 < k2 {
        assert(d.skip(k1 + 1)[k2 - k1 - 1] == d[k2]);
    } else if k2 < k1 {
        assert(d.skip(k2 + 1)[k1 - k2 - 1] == d[k1]);
    }
}

fn starts_with_resize_tag(t: &[u8]) -> (r: bool)
    ensures
        r == has_resize_tag(t@),
{
    let tag: Vec<u8> = vec![82, 69, 83, 73, 90, 69, 58];
    assert(tag@ =~= resize_tag());
    if t.len() < tag.len() {
        return false;
    }
    let mut i: usize = 0;
    while i < tag.len()
        invariant
            tag@ == resize_tag(),
            t@.len() >= tag@.len(),
            i <= tag@.len(),
            forall|j: int| 0 <= j < i ==> t@[j] == tag@[j],
        decreases tag@.len() - i,
    {
        if t[i] != tag[i] {
            assert(t@.take(7)[i as int] != resize_tag()[i as int]);
            return false;
        }
        i = i + 1;
    }
    assert(t@.take(7) =~= resize_tag());
    true
}

/// Reads `<cols>x<rows>` from `t[start..]`.
fn parse_geometry(t: &[u8], start: usize) -> (r: Option<(u16, u16)>)
    requires
        start <= t@.len(),
    ensures
        r == geometry_request(t@.skip(start as int)),
{
    let ghost d = t@.skip(start as int);
    let mut i: usize = start;
    while i < t.len() && t[i] != GEOMETRY_SEPARATOR
        invariant
            start <= i <= t@.len(),
            d == t@.skip(start as int),
            no_separator(d.take(i - start)),
        decreases t@.len() - i,
    {
        assert(no_separator(d.take(i - start + 1))) by {
            assert forall|j: int| 0 <= j < i - start + 1 implies #[trigger] d.take(
                i - start + 1,
            )[j] != GEOMETRY_SEPARATOR by {
                if j < i - start {
                    assert(d.take(i - start + 1)[j] == d.take(i - start)[j]);
                }
            }
        }
        i = i + 1;
    }
    if i == t.len() {
        assert(d.take(i - start) =~= d);
        assert(!exists|k: int| is_sole_separator(d, k));
        return None;
    }
    let k: usize = i;
    let ghost kk: int = k - start;
    assert(d[kk] == GEOMETRY_SEPARATOR);
    let mut j: usize = k + 1;
    while j < t.len()
        invariant
            start <= k < j <= t@.len(),
            kk == k - start,
            d == t@.skip(start as int),
            d[kk] == GEOMETRY_SEPARATOR,
            no_separator(d.take(kk)),
            no_separator(d.skip(kk + 1).take(j - k - 1)),
        decreases t@.len() - j,
    {
        if t[j] == GEOMETRY_SEPARATOR {
            assert(d[j - start] == GEOMETRY_SEPARATOR);
            assert forall|m: int| !is_sole_separator(d, m) by {
                if !is_sole_separator(d, m) {
                } else if m < kk {
                    assert(d.skip(m + 1)[kk - m - 1] == d[kk]);
                    assert(d.skip(m + 1)[kk - m - 1] != GEOMETRY_SEPARATOR);
                } else if m > kk {
                    assert(d.take(m)[kk] == d[kk]);
                    assert(d.take(m)[kk] != GEOMETRY_SEPARATOR);
                } else {
                    assert(d.skip(kk + 1)[j - k - 1] == d[j - start]);
                    assert(d.skip(kk + 1)[j - k - 1] != GEOMETRY_SEPARATOR);
                }
            }
            return None;
        }
        assert(no_separator(d.skip(kk + 1).take(j - k))) by {
            assert forall|m: int| 0 <= m < j - k implies #[trigger] d.skip(kk + 1).take(
                j - k,
            )[m] != GEOMETRY_SEPARATOR by {
                if m < j - k - 1 {
                    assert(d.skip(kk + 1).take(j - k)[m] == d.skip(kk + 1).take(j - k - 1)[m]);
                } else {
                    assert(d.skip(kk + 1)[m] == t@[j as int]);
                }
            }
        }
        j = j + 1;
    }
    assert(d.skip(kk + 1).take(j - k - 1) =~= d.skip(kk + 1));
    assert(is_sole_separator(d, kk));
    proof {
        let c = choose|m: int| is_sole_separator(d, m);
        lemma_sole_separator_unique(d, c, kk);
    }
    let cols = parse_u16(&t[start..k]);
    let rows = parse_u16(&t[k + 1..t.len()]);
    assert(t@.subrange(start as int, k as int) =~= d.take(kk));
    assert(t@.subrange(k + 1, t@.len() as int) =~= d.skip(kk + 1));
    match (cols, rows) {
        (Some(c), Some(r)) => Some((c, r)),
        _ => None,
    }
}

/// Classifies a text frame by its UTF-8 bytes.
pub fn classify_text(t: &[u8]) -> (r: TextCommand)
    ensures
        r == text_command(t@),
{
    if !starts_with_resize_tag(t) {
        return TextCommand::Input;
    }
    match parse_geometry(t, 7) {
        Some((cols, rows)) => {
            if 1 <= cols && cols <= MAX_TERMINAL_DIMENSION && 1 <= rows && rows
                <= MAX_TERMINAL_DIMENSION {
                TextCommand::Resize { cols, rows }
            } else {
                TextCommand::Ignored
            }
        },
        None => TextCommand::Ignored,
    }
}

} // verus!
