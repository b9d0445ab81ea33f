//! A low-resolution clock value: hours and minutes past midnight, on a
//! 48-hour range so that schedules spanning midnight keep their order.

use vstd::prelude::*;

verus! {

/// Represents a low-resolution point in time, relative to midnight.
///
/// Hours run over a 48-hour range (two midnights) so that closing times
/// past midnight can be expressed without wrapping back before opening.
#[derive(Clone, Copy, Debug, PartialEq, Eq, Structural)]
pub struct Time {
    pub hours: u8,
    pub minutes: u8,
}

impl Time {
    /// A time is well formed when it lies on the 48-hour clock:
    /// hours in `0..=47`, minutes in `0..=59`.
    pub open spec fn wf(self) -> bool {
        self.hours <= 47 && self.minutes <= 59
    }

    /// Creates a new `Time` with the given hours and minutes past midnight.
    ///
    /// Out-of-range arguments are truncated to the low byte, as a cast
    /// to the underlying 8-bit representation.
    pub fn new(hours: i32, minutes: i32) -> (t: Self)
        ensures
            t.hours == hours as u8,
            t.minutes == minutes as u8,
    {
        Self {
            hours: #[verifier::truncate] (hours as u8),
            minutes: #[verifier::truncate] (minutes as u8),
        }
    }

    /// Creates a new `Time` with the given hours past midnight.
    pub fn with_hours(hours: u8) -> (t: Self)
        ensures
            t.hours == hours,
            t.minutes == 0,
    {
        Self { hours, minutes: 0 }
    }
}

/// What `add_minutes` returns: minutes are carried into hours only when
/// they would go strictly over 60, and hours wrap once past 47, keeping
/// the value on the 48-hour clock.
pub open spec fn add_spec(t: Time, rhs: u8) -> Time {
    let sum = t.minutes + rhs;
    let carried_minutes = if sum > 60 {
        sum - 60
    } else {
        sum
    };
    let carried_hours = if sum > 60 {
        t.hours + 1
    } else {
        t.hours as int
    };
    let wrapped_hours = if carried_hours > 47 {
        carried_hours - 48
    } else {
        carried_hours
    };
    Time { hours: wrapped_hours as u8, minutes: carried_minutes as u8 }
}

impl Time {
    /// Adds `rhs` minutes, carrying into hours when the minute total goes
    /// strictly over 60 (a total of exactly 60 is kept as-is), and wrapping
    /// hours past 47 back onto the 48-hour clock.
    pub fn add_minutes(self, rhs: u8) -> (t: Time)
        requires
            self.wf(),
        ensures
            t == add_spec(self, rhs),
            t.hours <= 47,
    {
        let mut minutes: u16 = self.minutes as u16 + rhs as u16;
        let mut hours: u16 = self.hours as u16;
        if minutes > 60 {
            hours = hours + 1;
            minutes = minutes - 60;
        }
        if hours > 47 {
            hours = hours - 48;
        }
        Time { hours: hours as u8, minutes: minutes as u8 }
    }

    /// The span from `rhs` to `self` in minutes, as
    /// `(self.hours - rhs.hours) * 60 + (self.minutes - rhs.minutes)`.
    ///
    /// The result is signed: when `rhs` lies after `self` in the comparison
    /// order the difference is negative rather than an underflow.
    pub fn difference(self, rhs: Time) -> (d: i32)
        ensures
            d == (self.hours - rhs.hours) * 60 + (self.minutes - rhs.minutes),
    {
        (self.hours as i32 - rhs.hours as i32) * 60 + (self.minutes as i32 - rhs.minutes as i32)
    }
}

/// How two times compare: by hours, then minutes.
///
/// Times past midnight are not normalized first, so a wrapped time and its
/// un-wrapped counterpart (say 25:00 and 1:00) compare as written, not as
/// the same instant.
pub open spec fn cmp_spec(a: Time, b: Time) -> core::cmp::Ordering {
    if a.hours == b.hours && a.minutes == b.minutes {
        core::cmp::Ordering::Equal
    } else if a.hours > b.hours || (a.hours == b.hours && a.minutes > b.minutes) {
        core::cmp::Ordering::Greater
    } else {
        core::cmp::Ordering::Less
    }
}

impl PartialOrd for Time {
    fn partial_cmp(&self, other: &Time) -> (r: Option<core::cmp::Ordering>) {
        if self.hours == other.hours && self.minutes == other.minutes {
            Some(core::cmp::Ordering::Equal)
        } else if self.hours > other.hours
            || (self.hours == other.hours && self.minutes > other.minutes) {
            Some(core::cmp::Ordering::Greater)
        } else {
            Some(core::cmp::Ordering::Less)
        }
    }
}

impl vstd::std_specs::cmp::PartialOrdSpecImpl for Time {
    open spec fn obeys_partial_cmp_spec() -> bool {
        true
    }

    open spec fn partial_cmp_spec(&self, other: &Time) -> Option<core::cmp::Ordering> {
        Some(cmp_spec(*self, *other))
    }
}

/// The comparison is a strict weak ordering consistent with lexicographic
/// order on `(hours, minutes)`: it is total, equality means equal
/// components, greater and less mirror each other, and less-than is
/// irreflexive and transitive.
pub proof fn lemma_time_order_strict_weak(a: Time, b: Time, c: Time)
    ensures
        cmp_spec(a, a) == core::cmp::Ordering::Equal,
        cmp_spec(a, b) == core::cmp::Ordering::Equal <==> (a.hours == b.hours && a.minutes
            == b.minutes),
        cmp_spec(a, b) == core::cmp::Ordering::Less <==> (a.hours < b.hours || (a.hours == b.hours
            && a.minutes < b.minutes)),
        cmp_spec(a, b) == core::cmp::Ordering::Greater <==> cmp_spec(b, a)
            == core::cmp::Ordering::Less,
        cmp_spec(a, b) == core::cmp::Ordering::Less && cmp_spec(b, c) == core::cmp::Ordering::Less
            ==> cmp_spec(a, c) == core::cmp::Ordering::Less,
{
}

/// Represents an error encountered while converting from a string to a `Time`.
#[derive(Clone, Copy, Debug, PartialEq, Eq, Structural)]
pub enum FromStrError {
    /// No colon was present in the string.
    MissingColon,
    /// After splitting on colons, too few (<2) components were present.
    InsufficientComponents,
    /// After splitting on colons, too many (>2) components were present.
    ///
    /// This is likely due to multiple colons.
    ExtraComponents,
    /// Another error occurred.
    Generic,
}

impl FromStrError {
    /// A short human-readable description, the same for every variant.
    pub fn message(&self) -> (m: &'static str)
        ensures
            m@ == "Invalid time string."@,
    {
        "Invalid time string."
    }
}

/// A decimal digit.
pub open spec fn is_digit(c: char) -> bool {
    '0' <= c && c <= '9'
}

/// The numeric value of one decimal digit.
pub open spec fn digit_value(c: char) -> int {
    c as int - '0' as int
}

/// Whether every character of `s` is a decimal digit.
pub open spec fn all_digits(s: Seq<char>) -> bool {
    forall|i: int| 0 <= i < s.len() ==> is_digit(s[i])
}

/// The number that a string of decimal digits denotes.
pub open spec fn digits_value(s: Seq<char>) -> int
    decreases s.len(),
{
    if s.len() == 0 {
        0
    } else {
        digits_value(s.drop_last()) * 10 + digit_value(s.last())
    }
}

/// The value a time component parses to, leniently: a non-empty string of
/// digits that fits in a byte gives its number, anything else gives 0.
pub open spec fn component_value(s: Seq<char>) -> int {
    if s.len() > 0 && all_digits(s) && digits_value(s) <= 255 {
        digits_value(s)
    } else {
        0
    }
}

/// `i` is the position of the first colon of `s`.
pub open spec fn is_first_colon(s: Seq<char>, i: int) -> bool {
    &&& 0 <= i < s.len()
    &&& s[i] == ':'
    &&& forall|j: int| 0 <= j < i ==> s[j] != ':'
}

/// What parsing a time string returns.
///
/// The string must contain exactly one colon; the part before it gives the
/// hours and the part after it the minutes, each read leniently by
/// `component_value`. With no colon the parse fails with `MissingColon`,
/// with more than one it fails with `ExtraComponents`.
pub open spec fn parse_spec(s: Seq<char>) -> Result<Time, FromStrError> {
    if forall|i: int| 0 <= i < s.len() ==> s[i] != ':' {
        Err(FromStrError::MissingColon)
    } else {
        let i = choose|i: int| is_first_colon(s, i);
        if exists|j: int| i < j < s.len() && s[j] == ':' {
            Err(FromStrError::ExtraComponents)
        } else {
            Ok(
                Time {
                    hours: component_value(s.subrange(0, i)) as u8,
                    minutes: component_value(s.subrange(i + 1, s.len() as int)) as u8,
                },
            )
        }
    }
}

/// Reads the component of `s` between the character positions `from` and
/// `to`, leniently as `component_value` describes.
fn read_component(s: &str, from: usize, to: usize) -> (v: u8)
    requires
        from <= to <= s@.len(),
    ensures
        v == component_value(s@.subrange(from as int, to as int)),
{
    let ghost t = s@.subrange(from as int, to as int);
    let mut i: usize = from;
    // acc tracks the value read so far, clamped to 256 once it can no
    // longer fit in a byte.
    let mut acc: u32 = 0;
    let mut digits_only = true;
    while i < to
        invariant
            from <= i <= to <= s@.len(),
            t == s@.subrange(from as int, to as int),
            digits_only <==> all_digits(t.take(i - from)),
            acc <= 256,
            digits_only && digits_value(t.take(i - from)) <= 255 ==> acc == digits_value(
                t.take(i - from),
            ),
            digits_only && digits_value(t.take(i - from)) > 255 ==> acc == 256,
        decreases to - i,
    {
        let ghost k = i - from;
        proof {
            assert(t.take(k + 1).drop_last() =~= t.take(k));
            assert(t.take(k + 1).last() == t[k]);
            assert(t[k] == s@[i as int]);
        }
        let c = s.get_char(i);
        if c >= '0' && c <= '9' {
            if digits_only {
                let d: u32 = (c as u32) - 48;
                if acc <= 255 {
                    acc = acc * 10 + d;
                    if acc > 256 {
                        acc = 256;
                    }
                } else {
                    acc = 256;
                }
            }
        } else {
            digits_only = false;
        }
        i = i + 1;
    }
    proof {
        assert(t.take(to - from) =~= t);
    }
    if digits_only && i > from && acc <= 255 {
        acc as u8
    } else {
        0
    }
}

impl Time {
    /// Parses a string such as `"17:30"` into a `Time`.
    ///
    /// The string must contain exactly one colon. Each side of it is read
    /// leniently: a side that is empty, non-numeric or too large for a byte
    /// counts as 0 rather than failing, a deliberate policy for tolerating
    /// sloppy schedule data.
    pub fn from_str(s: &str) -> (r: Result<Time, FromStrError>)
        ensures
            r == parse_spec(s@),
    {
        let len = s.unicode_len();
        let mut i: usize = 0;
        let mut first: Option<usize> = None;
        let mut extra = false;
        while i < len
            invariant
                0 <= i <= len,
                len == s@.len(),
                first is None ==> (forall|j: int| 0 <= j < i ==> s@[j] != ':') && !extra,
                first matches Some(f) ==> is_first_colon(s@, f as int) && f < i && (extra
                    <==> exists|j: int| f < j < i && s@[j] == ':'),
            decreases len - i,
        {
            let c = s.get_char(i);
            if c == ':' {
                if first.is_none() {
                    first = Some(i);
                } else {
                    extra = true;
                }
            }
            i = i + 1;
        }
        match first {
            None => Err(FromStrError::MissingColon),
            Some(f) => {
                proof {
                    assert(is_first_colon(s@, f as int));
                    let fc = choose|i: int| is_first_colon(s@, i);
                    assert(is_first_colon(s@, fc));
                    assert(fc == f as int);
                }
                if extra {
                    Err(FromStrError::ExtraComponents)
                } else {
                    let hours = read_component(s, 0, f);
                    let minutes = read_component(s, f + 1, len);
                    Ok(Time { hours, minutes })
                }
            },
        }
    }
}

/// Law: a well-formed time string — exactly one colon with a run of
/// digits on each side, each side's value fitting in a byte — always
/// parses, and recovers exactly the two numeric components. Together with
/// the contract of `to_display`, formatting the parsed time therefore
/// always yields the one 12-hour display that `display_spec` fixes for
/// those components (so "13:05" shows as "1:05 PM").
pub proof fn lemma_parse_recovers_components(s: Seq<char>, i: int)
    requires
        is_first_colon(s, i),
        forall|j: int| i < j < s.len() ==> s[j] != ':',
        0 < i,
        i + 1 < s.len(),
        all_digits(s.subrange(0, i)),
        all_digits(s.subrange(i + 1, s.len() as int)),
        digits_value(s.subrange(0, i)) <= 255,
        digits_value(s.subrange(i + 1, s.len() as int)) <= 255,
    ensures
        parse_spec(s) == Ok::<Time, FromStrError>(
            Time {
                hours: digits_value(s.subrange(0, i)) as u8,
                minutes: digits_value(s.subrange(i + 1, s.len() as int)) as u8,
            },
        ),
{
    let fc = choose|k: int| is_first_colon(s, k);
    assert(is_first_colon(s, fc));
    assert(fc == i);
    assert(digits_value(s.subrange(0, i)) >= 0) by {
        lemma_digits_value_nonneg(s.subrange(0, i));
    }
    assert(digits_value(s.subrange(i + 1, s.len() as int)) >= 0) by {
        lemma_digits_value_nonneg(s.subrange(i + 1, s.len() as int));
    }
}

/// A digit string denotes a non-negative number.
pub proof fn lemma_digits_value_nonneg(s: Seq<char>)
    requires
        all_digits(s),
    ensures
        digits_value(s) >= 0,
    decreases s.len(),
{
    if s.len() > 0 {
        assert(all_digits(s.drop_last()));
        lemma_digits_value_nonneg(s.drop_last());
    }
}

/// The character of one decimal digit.
pub open spec fn digit_char(d: int) -> char {
    if d == 0 {
        '0'
    } else if d == 1 {
        '1'
    } else if d == 2 {
        '2'
    } else if d == 3 {
        '3'
    } else if d == 4 {
        '4'
    } else if d == 5 {
        '5'
    } else if d == 6 {
        '6'
    } else if d == 7 {
        '7'
    } else if d == 8 {
        '8'
    } else {
        '9'
    }
}

/// Two decimal digits, zero-padded.
pub open spec fn two_digits(n: int) -> Seq<char> {
    seq![digit_char(n / 10), digit_char(n % 10)]
}

/// One or two decimal digits, without padding.
pub open spec fn hour_digits(n: int) -> Seq<char> {
    if n < 10 {
        seq![digit_char(n)]
    } else {
        two_digits(n)
    }
}

/// The hour shown on a 12-hour clock face for hour `h` past midnight:
/// hours above 24 are first reduced by 24, then above 12 by 12, and 0 is
/// shown as 12.
pub open spec fn display_hour(h: int) -> int {
    let d = if h > 24 {
        h - 24
    } else {
        h
    };
    let e = if d > 12 {
        d - 12
    } else {
        d
    };
    if e == 0 {
        12
    } else {
        e
    }
}

/// Whether hour `h` past midnight is shown with a PM meridiem: reducing
/// past 12 sets it, and landing exactly on 12 toggles it.
pub open spec fn display_is_pm(h: int) -> bool {
    let d = if h > 24 {
        h - 24
    } else {
        h
    };
    let pm = d > 12;
    let e = if d > 12 {
        d - 12
    } else {
        d
    };
    if e == 12 {
        !pm
    } else {
        pm
    }
}

/// The human-readable 12-hour label of a time, such as `1:05 PM`.
/// It is lossy and meant for display only.
pub open spec fn display_spec(t: Time) -> Seq<char> {
    hour_digits(display_hour(t.hours as int)) + seq![':'] + two_digits(t.minutes as int) + seq![
        ' ',
    ] + (if display_is_pm(t.hours as int) {
        seq!['P', 'M']
    } else {
        seq!['A', 'M']
    })
}

/// The one-character string of a decimal digit.
fn digit_str(d: u8) -> (s: &'static str)
    requires
        d <= 9,
    ensures
        s@ =~= seq![digit_char(d as int)],
{
    proof {
        reveal_strlit("0");
        reveal_strlit("1");
        reveal_strlit("2");
        reveal_strlit("3");
        reveal_strlit("4");
        reveal_strlit("5");
        reveal_strlit("6");
        reveal_strlit("7");
        reveal_strlit("8");
        reveal_strlit("9");
    }
    match d {
        0 => "0",
        1 => "1",
        2 => "2",
        3 => "3",
        4 => "4",
        5 => "5",
        6 => "6",
        7 => "7",
        8 => "8",
        _ => "9",
    }
}

impl Time {
    /// Formats this time on a 12-hour clock with an AM/PM meridiem,
    /// as `display_spec` describes.
    pub fn to_display(&self) -> (out: String)
        requires
            self.hours <= 47,
            self.minutes <= 99,
        ensures
            out@ == display_spec(*self),
    {
        let mut h: u8 = self.hours;
        let mut pm = false;
        if h > 24 {
            h = h - 24;
        }
        if h > 12 {
            h = h - 12;
            pm = true;
        }
        if h == 12 {
            pm = !pm;
        }
        if h == 0 {
            h = 12;
        }
        assert(h == display_hour(self.hours as int));
        assert(pm == display_is_pm(self.hours as int));
        let mut out = String::new();
        if h >= 10 {
            out.append(digit_str(h / 10));
        }
        out.append(digit_str(h % 10));
        out.append(":");
        out.append(digit_str(self.minutes / 10));
        out.append(digit_str(self.minutes % 10));
        if pm {
            out.append(" PM");
        } else {
            out.append(" AM");
        }
        proof {
            reveal_strlit(":");
            reveal_strlit(" PM");
            reveal_strlit(" AM");
            assert(out@ =~= display_spec(*self));
        }
        out
    }
}

} // verus!
