//! The text form of a video mode, `WIDTHxHEIGHT@FRAMERATE`, as given on a
//! display program's command line. The frame rate is a float and is read by
//! the caller; this module finds it and reads the two dimensions.
use vstd::prelude::*;

verus! {

/// Why a video mode could not be read.
#[derive(Debug, Clone, Copy, PartialEq, Eq, Structural)]
pub enum ModeError {
    /// The text does not hold exactly one `@`.
    Format,
    /// The part before `@` does not hold exactly one `x`.
    Dimensions,
    /// The width is not a `u32`.
    Width,
    /// The height is not a `u32`.
    Height,
}

/// Number of bytes of `s` equal to `c`.
pub open spec fn occurrences(s: Seq<u8>, c: u8) -> nat
    decreases s.len(),
{
    if s.len() == 0 {
        0
    } else {
        occurrences(s.drop_last(), c) + if s.last() == c {
            1nat
        } else {
            0nat
        }
    }
}

/// Whether every byte of `s` is an ASCII digit.
pub open spec fn all_digits(s: Seq<u8>) -> bool {
    forall|i: int| 0 <= i < s.len() ==> 0x30 <= #[trigger] s[i] <= 0x39
}

/// The number written in decimal by the digits `s`.
pub open spec fn decimal_value(s: Seq<u8>) -> nat
    decreases s.len(),
{
    if s.len() == 0 {
        0
    } else {
        decimal_value(s.drop_last()) * 10 + (s.last() - 0x30) as nat
    }
}

/// The digits of `s` after an optional leading `+`.
pub open spec fn unsigned_digits(s: Seq<u8>) -> Seq<u8> {
    if s.len() > 0 && s[0] == 0x2b {
        s.skip(1)
    } else {
        s
    }
}

/// The `u32` that `s` denotes as Rust's `u32::from_str` reads it: an optional
/// `+`, then at least one decimal digit and nothing else, of a value that
/// fits.
pub open spec fn u32_text_value(s: Seq<u8>) -> Option<u32> {
    let d = unsigned_digits(s);
    if d.len() > 0 && all_digits(d) && decimal_value(d) <= u32::MAX {
        Some(decimal_value(d) as u32)
    } else {
        None
    }
}

proof fn lemma_decimal_value_grows(s: Seq<u8>, n: int)
    requires
        0 <= n <= s.len(),
        all_digits(s),
    ensures
        decimal_value(s.take(n)) <= decimal_value(s),
    decreases s.len() - n,
{
    if n < s.len() {
        lemma_decimal_value_grows(s, n + 1);
        assert(s.take(n + 1).drop_last() =~= s.take(n));
        assert(0x30 <= s[n] <= 0x39);
    } else {
        assert(s.take(n) =~= s);
    }
}

proof fn lemma_occurrences_step(s: Seq<u8>, j: int, c: u8)
    requires
        0 <= j < s.len(),
    ensures
        occurrences(s.take(j + 1), c) == occurrences(s.take(j), c) + if s[j] == c {
            1nat
        } else {
            0nat
        },
{
    assert(s.take(j + 1).drop_last() =~= s.take(j));
}

/// Reads `s` as Rust's `u32::from_str` does.
pub fn parse_u32(s: &[u8]) -> (r: Option<u32>)
    ensures
        r == u32_text_value(s@),
{
    let n = s.len();
    let start: usize = if n > 0 && s[0] == 0x2b {
        1
    } else {
        0
    };
    let ghost d = unsigned_digits(s@);
    assert(d =~= s@.skip(start as int));
    if start == n {
        return None;
    }
    let mut value: u64 = 0;
    let mut i: usize = start;
    while i < n
        invariant
            start <= i <= n,
            n == s@.len(),
            d =~= s@.skip(start as int),
            d == unsigned_digits(s@),
            all_digits(d.take(i - start)),
            value == decimal_value(d.take(i - start)),
            value <= u32::MAX,
        decreases n - i,
    {
        let b = s[i];
        let ghost k = i - start;
        assert(d.take(k + 1).drop_last() =~= d.take(k));
        assert(d.take(k + 1).last() == b);
        assert(d[k as int] == b);
        if b < 0x30 || b > 0x39 {
            assert(!all_digits(d));
            return None;
        }
        value = value * 10 + (b - 0x30) as u64;
        assert(decimal_value(d.take(k + 1)) == value);
        if value > 0xffff_ffff {
            proof {
                if all_digits(d) {
                    lemma_decimal_value_grows(d, k + 1);
                }
            }
            return None;
        }
        i = i + 1;
    }
    assert(d.take(n - start) =~= d);
    Some(value as u32)
}

/// The index of the only byte of `s` equal to `c`, or `None` when `c`
/// occurs zero times or more than once.
pub open spec fn only_index(s: Seq<u8>, c: u8) -> Option<int> {
    if occurrences(s, c) == 1 {
        Some(choose|i: int| 0 <= i < s.len() && s[i] == c)
    } else {
        None
    }
}

/// The dimensions `WIDTHxHEIGHT` denotes: exactly one `x`, with a `u32` on
/// each side.
pub open spec fn dimensions_value(s: Seq<u8>) -> Result<(u32, u32), ModeError> {
    match only_index(s, 0x78) {
        None => Err(ModeError::Dimensions),
        Some(i) => match (u32_text_value(s.take(i)), u32_text_value(s.skip(i + 1))) {
            (None, _) => Err(ModeError::Width),
            (Some(_), None) => Err(ModeError::Height),
            (Some(w), Some(h)) => Ok((w, h)),
        },
    }
}

/// The decimal text of `n`, as `format!("{}", n)` writes it: no sign, no
/// leading zero, `0` for zero.
pub open spec fn decimal_text(n: nat) -> Seq<u8>
    decreases n,
{
    if n < 10 {
        seq![(0x30 + n) as u8]
    } else {
        decimal_text(n / 10).push((0x30 + n % 10) as u8)
    }
}

proof fn lemma_occurrences_concat(s1: Seq<u8>, s2: Seq<u8>, c: u8)
    ensures
        occurrences(s1 + s2, c) == occurrences(s1, c) + occurrences(s2, c),
    decreases s2.len(),
{
    if s2.len() == 0 {
        assert(s1 + s2 =~= s1);
    } else {
        assert((s1 + s2).drop_last() =~= s1 + s2.drop_last());
        lemma_occurrences_concat(s1, s2.drop_last(), c);
    }
}

proof fn lemma_occurrences_none(s: Seq<u8>, c: u8)
    requires
        forall|i: int| 0 <= i < s.len() ==> s[i] != c,
    ensures
        occurrences(s, c) == 0,
    decreases s.len(),
{
    if s.len() > 0 {
        lemma_occurrences_none(s.drop_last(), c);
    }
}

proof fn lemma_occurrences_hit(s: Seq<u8>, i: int, c: u8)
    requires
        0 <= i < s.len(),
        s[i] == c,
    ensures
        occurrences(s, c) == occurrences(s.take(i), c) + 1 + occurrences(s.skip(i + 1), c),
{
    assert(s =~= s.take(i) + seq![c] + s.skip(i + 1));
    lemma_occurrences_concat(s.take(i) + seq![c], s.skip(i + 1), c);
    lemma_occurrences_concat(s.take(i), seq![c], c);
    lemma_occurrences_single(c, c);
}

proof fn lemma_occurrences_single(b: u8, c: u8)
    ensures
        occurrences(seq![b], c) == if b == c {
            1nat
        } else {
            0nat
        },
{
    assert(seq![b].drop_last() =~= Seq::<u8>::empty());
    assert(occurrences(Seq::<u8>::empty(), c) == 0);
    assert(seq![b].last() == b);
}

/// A byte that occurs once is found at its only index.
proof fn lemma_only_index(s: Seq<u8>, c: u8, i: int)
    requires
        occurrences(s, c) == 1,
        0 <= i < s.len(),
        s[i] == c,
    ensures
        only_index(s, c) == Some(i),
{
    assert(exists|k: int| 0 <= k < s.len() && s[k] == c) by {
        assert(0 <= i < s.len() && s[i] == c);
    }
    let k = only_index(s, c)->0;
    assert(0 <= k < s.len() && s[k] == c);
    if k != i {
        let (lo, hi) = if k < i {
            (k, i)
        } else {
            (i, k)
        };
        lemma_occurrences_hit(s, lo, c);
        let rest = s.skip(lo + 1);
        assert(rest[hi - lo - 1] == c);
        lemma_occurrences_hit(rest, hi - lo - 1, c);
        assert(false);
    }
}

/// Index of the only byte of `s` equal to `c`, or `None` when `c` occurs
/// zero times or more than once (`s` splits on `c` into other than two
/// parts).
pub fn only_index_of(s: &[u8], c: u8) -> (r: Option<usize>)
    ensures
        r is Some <==> only_index(s@, c) is Some,
        r matches Some(i) ==> only_index(s@, c) == Some(i as int) && i < s@.len() && s@[i as int]
            == c,
{
    let n = s.len();
    let mut found: Option<usize> = None;
    let mut j: usize = 0;
    while j < n
        invariant
            j <= n,
            n == s@.len(),
            occurrences(s@.take(j as int), c) <= 1,
            found is Some <==> occurrences(s@.take(j as int), c) == 1,
            found matches Some(i) ==> i < j && s@[i as int] == c,
        decreases n - j,
    {
        proof {
            lemma_occurrences_step(s@, j as int, c);
        }
        if s[j] == c {
            if found.is_some() {
                proof {
                    lemma_occurrences_grow(s@, j as int + 1, c);
                }
                return None;
            }
            found = Some(j);
        }
        j = j + 1;
    }
    assert(s@.take(n as int) =~= s@);
    proof {
        if let Some(i) = found {
            lemma_only_index(s@, c, i as int);
        }
    }
    found
}

proof fn lemma_occurrences_grow(s: Seq<u8>, j: int, c: u8)
    requires
        0 <= j <= s.len(),
    ensures
        occurrences(s.take(j), c) <= occurrences(s, c),
    decreases s.len() - j,
{
    if j < s.len() {
        lemma_occurrences_step(s, j, c);
        lemma_occurrences_grow(s, j + 1, c);
    } else {
        assert(s.take(j) =~= s);
    }
}

/// Index of the `@` that separates the dimensions from the frame rate in
/// `WIDTHxHEIGHT@FRAMERATE`.
pub fn framerate_separator(s: &[u8]) -> (r: Result<usize, ModeError>)
    ensures
        r == match only_index(s@, 0x40) {
            Some(i) => Ok::<usize, ModeError>(i as usize),
            None => Err(ModeError::Format),
        },
{
    match only_index_of(s, 0x40) {
        Some(i) => Ok(i),
        None => Err(ModeError::Format),
    }
}

/// Reads `WIDTHxHEIGHT` (the part before `@`): the text must hold exactly
/// one `x`, with a `u32` on each side.
pub fn parse_dimensions(s: &[u8]) -> (r: Result<(u32, u32), ModeError>)
    ensures
        r == dimensions_value(s@),
{
    match only_index_of(s, 0x78) {
        None => Err(ModeError::Dimensions),
        Some(i) => {
            let n = s.len();
            let width = parse_u32(vstd::slice::slice_subrange(s, 0, i));
            let height = parse_u32(vstd::slice::slice_subrange(s, i + 1, n));
            assert(s@.subrange(0, i as int) =~= s@.take(i as int));
            assert(s@.subrange(i + 1, s@.len() as int) =~= s@.skip(i + 1));
            match (width, height) {
                (None, _) => Err(ModeError::Width),
                (Some(_), None) => Err(ModeError::Height),
                (Some(w), Some(h)) => Ok((w, h)),
            }
        },
    }
}

proof fn lemma_decimal_text(n: nat)
    ensures
        decimal_text(n).len() > 0,
        all_digits(decimal_text(n)),
        decimal_value(decimal_text(n)) == n,
    decreases n,
{
    if n < 10 {
        let t = decimal_text(n);
        assert(t.drop_last() =~= Seq::<u8>::empty());
        assert(decimal_value(Seq::<u8>::empty()) == 0);
        assert(t.last() == (0x30 + n) as u8);
    } else {
        lemma_decimal_text(n / 10);
        let t = decimal_text(n);
        assert(t.drop_last() =~= decimal_text(n / 10));
        assert(t.last() == (0x30 + n % 10) as u8);
        assert((t.last() - 0x30) as nat == n % 10);
        assert(n == (n / 10) * 10 + n % 10);
        assert forall|i: int| 0 <= i < t.len() implies 0x30 <= #[trigger] t[i] <= 0x39 by {
            if i < t.len() - 1 {
                assert(t[i] == decimal_text(n / 10)[i]);
            }
        }
    }
}

/// Decimal digits are the ASCII bytes `'0'` (48) to `'9'` (57), each worth
/// its distance from `'0'`; a number's text is its last digit after the text
/// of its tenth, and a lone `'+'` (43) may come first.
pub proof fn lemma_decimal_rules(s: Seq<u8>, d: u8, n: nat)
    ensures
        48 <= d <= 57 ==> decimal_value(s.push(d)) == decimal_value(s) * 10 + (d as int - 48),
        decimal_value(Seq::<u8>::empty()) == 0,
        all_digits(seq![d]) <==> 48 <= d <= 57,
        unsigned_digits(seq![43u8].add(s)) == s,
        n < 10 ==> decimal_text(n) == seq![(48 + n) as u8],
        n >= 10 ==> decimal_text(n) == decimal_text(n / 10).push((48 + n % 10) as u8),
{
    assert(s.push(d).drop_last() =~= s);
    assert(seq![43u8].add(s).skip(1) =~= s);
    assert(seq![d][0] == d);
}

/// The decimal text of `n` reads back as `n`.
pub proof fn lemma_decimal_text_read_back(n: u32)
    ensures
        u32_text_value(decimal_text(n as nat)) == Some(n),
{
    lemma_decimal_text(n as nat);
    let t = decimal_text(n as nat);
    assert(0x30 <= t[0] <= 0x39);
    assert(unsigned_digits(t) == t);
}

/// The text of a video mode: `WIDTHxHEIGHT@` in decimal, then the frame rate
/// as written by the caller.
pub open spec fn mode_text(width: u32, height: u32, rate: Seq<u8>) -> Seq<u8> {
    decimal_text(width as nat) + seq![0x78u8] + decimal_text(height as nat) + seq![0x40u8] + rate
}

/// Writing a mode as `WIDTHxHEIGHT@RATE` and reading it gives the mode back:
/// the only `@` is the one after the dimensions, the rate is the text after
/// it, and the dimensions read back as `(width, height)`, whatever the rate
/// text holds besides `@` (a float's text holds none).
pub proof fn lemma_mode_text_read_back(width: u32, height: u32, rate: Seq<u8>)
    requires
        occurrences(rate, 0x40) == 0,
    ensures
        ({
            let dims = decimal_text(width as nat) + seq![0x78u8] + decimal_text(height as nat);
            &&& only_index(mode_text(width, height, rate), 0x40) == Some(dims.len() as int)
            &&& mode_text(width, height, rate).take(dims.len() as int) == dims
            &&& mode_text(width, height, rate).skip(dims.len() as int + 1) == rate
            &&& dimensions_value(dims) == Ok::<(u32, u32), ModeError>((width, height))
        }),
{
    let tw = decimal_text(width as nat);
    let th = decimal_text(height as nat);
    lemma_decimal_text(width as nat);
    lemma_decimal_text(height as nat);
    lemma_decimal_text_read_back(width);
    lemma_decimal_text_read_back(height);
    let dims = tw + seq![0x78u8] + th;
    let s = mode_text(width, height, rate);
    assert(forall|i: int| 0 <= i < tw.len() ==> 0x30 <= #[trigger] tw[i] <= 0x39);
    assert(forall|i: int| 0 <= i < th.len() ==> 0x30 <= #[trigger] th[i] <= 0x39);
    lemma_occurrences_none(tw, 0x78);
    lemma_occurrences_none(th, 0x78);
    lemma_occurrences_none(tw, 0x40);
    lemma_occurrences_none(th, 0x40);
    lemma_occurrences_concat(tw, seq![0x78u8], 0x78);
    lemma_occurrences_concat(tw + seq![0x78u8], th, 0x78);
    lemma_occurrences_concat(tw, seq![0x78u8], 0x40);
    lemma_occurrences_concat(tw + seq![0x78u8], th, 0x40);
    lemma_occurrences_concat(dims, seq![0x40u8], 0x40);
    lemma_occurrences_concat(dims + seq![0x40u8], rate, 0x40);
    lemma_occurrences_single(0x78, 0x78);
    lemma_occurrences_single(0x78, 0x40);
    lemma_occurrences_single(0x40, 0x40);
    assert(occurrences(dims, 0x78) == 1);
    assert(occurrences(s, 0x40) == 1);
    assert(dims[tw.len() as int] == 0x78);
    lemma_only_index(dims, 0x78, tw.len() as int);
    assert(s[dims.len() as int] == 0x40);
    lemma_only_index(s, 0x40, dims.len() as int);
    assert(s.take(dims.len() as int) =~= dims);
    assert(s.skip(dims.len() as int + 1) =~= rate);
    assert(dims.take(tw.len() as int) =~= tw);
    assert(dims.skip(tw.len() as int + 1) =~= th);
}

} // verus!
