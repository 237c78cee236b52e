//! The temperature sampler.
//!
//! Each tick of the sampler, the surrounding binary walks the sensor
//! topology — the chip with the platform identifier, the package-level
//! feature under it, the numeric sub-feature under that — and hands
//! the textual reading here. The library owns what is decidable from
//! plain values: which names match the topology stages, how the text
//! parses to a degree reading, and that any failure along the way
//! degrades to the sentinel reading instead of stopping the task.

use vstd::prelude::*;

verus! {

/// The reading emitted when any stage of a sample fails.
pub const TEMP_UNAVAILABLE: i32 = -1;

/// An ASCII whitespace byte: space, tab, line feed, vertical tab,
/// form feed or carriage return.
pub open spec fn is_space(b: u8) -> bool {
    b == 32 || (9 <= b && b <= 13)
}

/// An ASCII decimal digit byte.
pub open spec fn is_digit(b: u8) -> bool {
    48 <= b && b <= 57
}

/// The bytes left after the leading whitespace.
pub open spec fn spec_skip_spaces(s: Seq<u8>) -> Seq<u8>
    decreases s.len(),
{
    if s.len() == 0 {
        s
    } else if is_space(s[0]) {
        spec_skip_spaces(s.drop_first())
    } else {
        s
    }
}

/// The leading run of non-whitespace bytes.
pub open spec fn spec_token(s: Seq<u8>) -> Seq<u8>
    decreases s.len(),
{
    if s.len() == 0 || is_space(s[0]) {
        Seq::empty()
    } else {
        seq![s[0]] + spec_token(s.drop_first())
    }
}

/// The first whitespace-delimited token of `s` (empty when `s` is
/// empty or all whitespace).
pub open spec fn first_token(s: Seq<u8>) -> Seq<u8> {
    spec_token(spec_skip_spaces(s))
}

/// Every byte is a decimal digit.
pub open spec fn all_digits(t: Seq<u8>) -> bool {
    forall|i: int| 0 <= i < t.len() ==> is_digit(#[trigger] t[i])
}

/// Value of a run of decimal digits, most significant first.
pub open spec fn digits_value(t: Seq<u8>) -> int
    decreases t.len(),
{
    if t.len() == 0 {
        0
    } else {
        digits_value(t.drop_last()) * 10 + (t.last() - 48)
    }
}

/// A decimal integer literal: an optional sign (`+` is 43, `-` is 45)
/// followed by at least one digit, and nothing else.
pub open spec fn is_int_literal(t: Seq<u8>) -> bool {
    if t.len() == 0 {
        false
    } else if t[0] == 43 || t[0] == 45 {
        t.len() > 1 && all_digits(t.skip(1))
    } else {
        all_digits(t)
    }
}

/// The signed value of a decimal integer literal.
pub open spec fn literal_value(t: Seq<u8>) -> int {
    if t[0] == 45 {
        -digits_value(t.skip(1))
    } else if t[0] == 43 {
        digits_value(t.skip(1))
    } else {
        digits_value(t)
    }
}

/// What a textual sensor reading means: the first whitespace-delimited
/// token read as a decimal integer if it is one and fits the result
/// type, the sentinel otherwise.
pub open spec fn spec_parse_temp(s: Seq<u8>) -> int {
    let t = first_token(s);
    if is_int_literal(t) && i32::MIN <= literal_value(t) <= i32::MAX {
        literal_value(t)
    } else {
        TEMP_UNAVAILABLE as int
    }
}

proof fn lemma_skip_spaces_step(s: Seq<u8>, i: int)
    requires
        0 <= i < s.len(),
        is_space(s[i]),
    ensures
        spec_skip_spaces(s.skip(i)) == spec_skip_spaces(s.skip(i + 1)),
{
    assert(s.skip(i)[0] == s[i]);
    assert(s.skip(i).drop_first() =~= s.skip(i + 1));
}

proof fn lemma_token_is_range(s: Seq<u8>, i: int, j: int)
    requires
        0 <= i <= j <= s.len(),
        forall|k: int| i <= k < j ==> !is_space(#[trigger] s[k]),
        j == s.len() || is_space(s[j]),
    ensures
        spec_token(s.skip(i)) == s.subrange(i, j),
    decreases j - i,
{
    if i == j {
        if i < s.len() {
            assert(s.skip(i)[0] == s[i]);
        } else {
            assert(s.skip(i) =~= Seq::<u8>::empty());
        }
        assert(s.subrange(i, j) =~= Seq::<u8>::empty());
    } else {
        assert(s.skip(i)[0] == s[i]);
        assert(s.skip(i).drop_first() =~= s.skip(i + 1));
        lemma_token_is_range(s, i + 1, j);
        assert(seq![s[i]] + s.subrange(i + 1, j) =~= s.subrange(i, j));
    }
}

proof fn lemma_digits_value_nonneg(t: Seq<u8>)
    requires
        all_digits(t),
    ensures
        digits_value(t) >= 0,
    decreases t.len(),
{
    if t.len() > 0 {
        assert(all_digits(t.drop_last()));
        lemma_digits_value_nonneg(t.drop_last());
    }
}

proof fn lemma_digits_prefix_le(t: Seq<u8>, m: int)
    requires
        all_digits(t),
        0 <= m <= t.len(),
    ensures
        digits_value(t.take(m)) <= digits_value(t),
    decreases t.len(),
{
    if m == t.len() {
        assert(t.take(m) =~= t);
    } else {
        assert(all_digits(t.drop_last()));
        assert(t.take(m) =~= t.drop_last().take(m));
        lemma_digits_prefix_le(t.drop_last(), m);
        lemma_digits_value_nonneg(t.drop_last());
    }
}

fn space_byte(b: u8) -> (r: bool)
    ensures
        r == is_space(b),
{
    b == 32 || (b >= 9 && b <= 13)
}

/// Parse a textual sensor reading: the first whitespace-delimited
/// token as a decimal integer, or the sentinel when there is no token,
/// the token is not an integer, or it does not fit.
#[verifier::loop_isolation(false)]
#[verifier::rlimit(50)]
pub fn parse_temp_reading(s: &[u8]) -> (r: i32)
    ensures
        r == spec_parse_temp(s@),
{
    let n = s.len();
    let mut i: usize = 0;
    proof {
        assert(s@.skip(0) =~= s@);
    }
    while i < n && space_byte(s[i])
        invariant
            0 <= i <= n,
            spec_skip_spaces(s@) == spec_skip_spaces(s@.skip(i as int)),
        decreases n - i,
    {
        proof {
            lemma_skip_spaces_step(s@, i as int);
        }
        i = i + 1;
    }
    if i == n {
        proof {
            assert(s@.skip(n as int) =~= Seq::<u8>::empty());
        }
        return TEMP_UNAVAILABLE;
    }
    proof {
        assert(s@.skip(i as int)[0] == s@[i as int]);
        assert(spec_skip_spaces(s@.skip(i as int)) == s@.skip(i as int));
    }
    let mut j: usize = i;
    while j < n && !space_byte(s[j])
        invariant
            i <= j <= n,
            forall|k: int| i <= k < j ==> !is_space(#[trigger] s@[k]),
        decreases n - j,
    {
        j = j + 1;
    }
    proof {
        lemma_token_is_range(s@, i as int, j as int);
    }
    let ghost token = s@.subrange(i as int, j as int);
    assert(first_token(s@) == token);

    let mut neg = false;
    let mut d: usize = i;
    if s[i] == 45 {
        neg = true;
        d = i + 1;
    } else if s[i] == 43 {
        d = i + 1;
    }
    if d == j {
        // A lone sign, or (with d == i == j impossible here since
        // s[i] is not whitespace) nothing at all: not an integer.
        assert(token.len() == (j - i) as int);
        assert(!is_int_literal(token));
        return TEMP_UNAVAILABLE;
    }
    let ghost digits = s@.subrange(d as int, j as int);
    proof {
        assert(digits =~= token.skip((d - i) as int));
    }

    let mut acc: u64 = 0;
    let mut k: usize = d;
    while k < j
        invariant
            d <= k <= j,
            forall|m: int| d <= m < k ==> is_digit(#[trigger] s@[m]),
            acc == digits_value(s@.subrange(d as int, k as int)),
            acc <= 0x8000_0000u64,
        decreases j - k,
    {
        let b = s[k];
        if b < 48 || b > 57 {
            // The token holds a non-digit, so it is not an integer.
            proof {
                if d > i {
                    assert(digits[(k - d) as int] == s@[k as int]);
                    assert(!all_digits(token.skip(1)));
                } else {
                    assert(token[(k - i) as int] == s@[k as int]);
                    assert(!all_digits(token));
                }
            }
            return TEMP_UNAVAILABLE;
        }
        let dig = (b - 48) as u64;
        let acc2 = acc * 10 + dig;
        proof {
            assert(s@.subrange(d as int, (k + 1) as int).drop_last() =~= s@.subrange(
                d as int,
                k as int,
            ));
            assert(s@.subrange(d as int, (k + 1) as int).last() == s@[k as int]);
        }
        if acc2 > 0x8000_0000 {
            // The value exceeds the result type's magnitude whatever
            // follows; and if a non-digit follows, the token is not an
            // integer either way.
            proof {
                if is_int_literal(token) {
                    assert(all_digits(digits));
                    assert(s@.subrange(d as int, (k + 1) as int) =~= digits.take(
                        (k + 1 - d) as int,
                    ));
                    lemma_digits_prefix_le(digits, (k + 1 - d) as int);
                    assert(digits_value(digits) > 0x8000_0000);
                    if neg {
                        assert(token[0] == 45);
                        assert(literal_value(token) < i32::MIN);
                    } else {
                        assert(literal_value(token) == digits_value(digits));
                        assert(literal_value(token) > i32::MAX);
                    }
                }
            }
            return TEMP_UNAVAILABLE;
        }
        acc = acc2;
        k = k + 1;
    }
    proof {
        assert(s@.subrange(d as int, j as int) == digits);
        assert(all_digits(digits));
        assert(acc == digits_value(digits));
        if d > i {
            assert(token.len() >= 2);
            assert(token[0] == 43 || token[0] == 45);
            assert(is_int_literal(token));
        } else {
            assert(token[0] != 43 && token[0] != 45);
            assert(is_int_literal(token));
        }
        assert(literal_value(token) == if neg {
            -digits_value(digits)
        } else {
            digits_value(digits)
        });
    }
    if neg {
        if acc == 0x8000_0000 {
            return i32::MIN;
        }
        return -(acc as i32);
    }
    if acc > 0x7fff_ffff {
        // Positive and above the result type's maximum.
        return TEMP_UNAVAILABLE;
    }
    acc as i32
}

/// Identifier of the sensor chip carrying the package temperature.
pub fn is_coretemp_chip(name: &String) -> (r: bool)
    ensures
        r == (name@ == "coretemp-isa-0000"@),
{
    let pattern: String = "coretemp-isa-0000".to_owned();
    *name == pattern
}

/// Identifier of the package-level feature under the chip.
pub fn is_package_feature(name: &String) -> (r: bool)
    ensures
        r == (name@ == "Package id 0"@),
{
    let pattern: String = "Package id 0".to_owned();
    *name == pattern
}

/// Identifier of the numeric sub-feature under the feature.
pub fn is_temp_input_subfeature(name: &String) -> (r: bool)
    ensures
        r == (name@ == "temp1_input"@),
{
    let pattern: String = "temp1_input".to_owned();
    *name == pattern
}

/// What one sampler tick does.
#[derive(Clone, Copy, Debug, PartialEq, Eq, Structural)]
pub enum SampleOutcome {
    /// The sampler was cancelled: stop, emit nothing.
    Stopped,
    /// Emit this reading and keep running.
    Emit(i32),
}

/// The long-lived sampling task's state: only a cancellation token —
/// sampling is read-only and survives any failed tick.
pub struct TempSampler {
    pub cancelled: bool,
}

impl TempSampler {
    /// A freshly started sampler.
    pub fn new() -> (t: TempSampler)
        ensures
            !t.cancelled,
    {
        TempSampler { cancelled: false }
    }

    /// Ask the sampling task to stop at its next tick.
    pub fn cancel(&mut self)
        ensures
            final(self).cancelled,
    {
        self.cancelled = true;
    }

    /// One tick: given the textual reading the topology walk produced
    /// (or nothing, when any stage failed to resolve), decide what to
    /// emit. A failed lookup or parse yields the sentinel reading and
    /// the task keeps running; only cancellation stops it.
    pub fn tick(&self, raw: Option<&[u8]>) -> (o: SampleOutcome)
        ensures
            self.cancelled ==> o == SampleOutcome::Stopped,
            !self.cancelled ==> o == SampleOutcome::Emit(
                match raw {
                    Option::None => TEMP_UNAVAILABLE,
                    Option::Some(b) => spec_parse_temp(b@) as i32,
                },
            ),
            !self.cancelled && raw is None ==> o == SampleOutcome::Emit(TEMP_UNAVAILABLE),
    {
        if self.cancelled {
            return SampleOutcome::Stopped;
        }
        match raw {
            None => SampleOutcome::Emit(TEMP_UNAVAILABLE),
            Some(text) => SampleOutcome::Emit(parse_temp_reading(text)),
        }
    }
}

} // verus!
