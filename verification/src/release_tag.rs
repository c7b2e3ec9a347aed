//! Release tags of the SDK and the order they come in.

use vstd::prelude::*;
use vstd::slice::*;
use vstd::string::*;

verus! {

/// A release of the SDK: an early one named by its version, or a later one
/// named by its date and, where a day saw several, a running number.
#[derive(Clone, Copy, Debug, PartialEq, Eq, Structural)]
pub enum ReleaseTag {
    Version { major: u64, minor: u64, patch: u64 },
    Date { year: u32, month: u32, day: u32, suffix: Option<u64> },
}

/// Whether release `a` came before release `b`. Every versioned release came
/// before every dated one; versions go by major, minor, patch; dates go by
/// year, month, day, and on one day a release without a running number came
/// before those with one.
pub open spec fn precedes(a: ReleaseTag, b: ReleaseTag) -> bool {
    match (a, b) {
        (ReleaseTag::Version { .. }, ReleaseTag::Date { .. }) => true,
        (ReleaseTag::Date { .. }, ReleaseTag::Version { .. }) => false,
        (
            ReleaseTag::Version { major: a1, minor: a2, patch: a3 },
            ReleaseTag::Version { major: b1, minor: b2, patch: b3 },
        ) => a1 < b1 || (a1 == b1 && (a2 < b2 || (a2 == b2 && a3 < b3))),
        (
            ReleaseTag::Date { year: a1, month: a2, day: a3, suffix: a4 },
            ReleaseTag::Date { year: b1, month: b2, day: b3, suffix: b4 },
        ) => a1 < b1 || (a1 == b1 && (a2 < b2 || (a2 == b2 && (a3 < b3 || (a3 == b3
            && suffix_precedes(a4, b4)))))),
    }
}

/// The order of running numbers: none before any, then by number.
pub open spec fn suffix_precedes(a: Option<u64>, b: Option<u64>) -> bool {
    match (a, b) {
        (None, Some(_)) => true,
        (Some(x), Some(y)) => x < y,
        _ => false,
    }
}

impl ReleaseTag {
    /// Whether this release came before `other`.
    pub fn is_before(&self, other: &ReleaseTag) -> (r: bool)
        ensures
            r == precedes(*self, *other),
    {
        match (self, other) {
            (ReleaseTag::Version { .. }, ReleaseTag::Date { .. }) => true,
            (ReleaseTag::Date { .. }, ReleaseTag::Version { .. }) => false,
            (
                ReleaseTag::Version { major: a1, minor: a2, patch: a3 },
                ReleaseTag::Version { major: b1, minor: b2, patch: b3 },
            ) => *a1 < *b1 || (*a1 == *b1 && (*a2 < *b2 || (*a2 == *b2 && *a3 < *b3))),
            (
                ReleaseTag::Date { year: a1, month: a2, day: a3, suffix: a4 },
                ReleaseTag::Date { year: b1, month: b2, day: b3, suffix: b4 },
            ) => {
                let later_number = match (a4, b4) {
                    (None, Some(_)) => true,
                    (Some(x), Some(y)) => *x < *y,
                    _ => false,
                };
                *a1 < *b1 || (*a1 == *b1 && (*a2 < *b2 || (*a2 == *b2 && (*a3 < *b3 || (*a3 == *b3
                    && later_number)))))
            },
        }
    }

    /// Whether this release is `other` or came after it.
    pub fn is_at_least(&self, other: &ReleaseTag) -> (r: bool)
        ensures
            r == !precedes(*self, *other),
    {
        !self.is_before(other)
    }
}

/// Releases are totally ordered: none comes before itself, of two different
/// ones exactly one comes first, and coming before carries over.
pub proof fn lemma_release_order(a: ReleaseTag, b: ReleaseTag, c: ReleaseTag)
    ensures
        !precedes(a, a),
        a != b ==> precedes(a, b) || precedes(b, a),
        !(precedes(a, b) && precedes(b, a)),
        precedes(a, b) && precedes(b, c) ==> precedes(a, c),
{
}

/// An ASCII decimal digit.
pub open spec fn is_digit(byte: u8) -> bool {
    48 <= byte <= 57
}

/// The number a run of decimal digits stands for.
pub open spec fn decimal(digits: Seq<u8>) -> nat
    decreases digits.len(),
{
    if digits.len() == 0 {
        0
    } else {
        decimal(digits.drop_last()) * 10 + (digits.last() - 48) as nat
    }
}

/// Where the run of digits that starts at `from` ends: the index of the
/// first byte at or after `from` that is no digit, or the length of the text.
pub open spec fn digits_end(text: Seq<u8>, from: int) -> int
    decreases text.len() - from,
{
    if 0 <= from < text.len() && is_digit(text[from]) {
        digits_end(text, from + 1)
    } else {
        from
    }
}

/// The number written in `text` from `from` up to `to`, where there is at
/// least one digit and the number fits 64 bits.
pub open spec fn number_at(text: Seq<u8>, from: int, to: int) -> Option<u64> {
    if from < to && decimal(text.subrange(from, to)) <= u64::MAX {
        Some(decimal(text.subrange(from, to)) as u64)
    } else {
        None
    }
}

/// A versioned tag: `v`, then major, minor and patch as decimal numbers with
/// a `.` between them, and nothing after.
pub open spec fn version_tag(text: Seq<u8>) -> Option<ReleaseTag> {
    let major_end = digits_end(text, 1);
    let minor_end = digits_end(text, major_end + 1);
    let patch_end = digits_end(text, minor_end + 1);
    if text.len() >= 1 && text[0] == 118 && major_end < text.len() && text[major_end] == 46
        && minor_end < text.len() && text[minor_end] == 46 && patch_end == text.len() {
        match (
            number_at(text, 1, major_end),
            number_at(text, major_end + 1, minor_end),
            number_at(text, minor_end + 1, patch_end),
        ) {
            (Some(major), Some(minor), Some(patch)) => Some(
                ReleaseTag::Version { major, minor, patch },
            ),
            _ => None,
        }
    } else {
        None
    }
}

/// The prefix of a dated tag.
pub open spec fn date_prefix() -> Seq<u8> {
    seq![114u8, 101u8, 108u8, 101u8, 97u8, 115u8, 101u8, 45u8]
}

/// A dated tag: `release-`, then the year in four digits, the month in two
/// and the day in two with a `-` between them, then either nothing or a `.`
/// and a running number.
pub open spec fn date_tag(text: Seq<u8>) -> Option<ReleaseTag> {
    if text.len() >= 18 && text.subrange(0, 8) == date_prefix() && digits_end(text, 8) == 12
        && text[12] == 45 && digits_end(text, 13) == 15 && text[15] == 45 && digits_end(text, 16)
        == 18 {
        let year = decimal(text.subrange(8, 12)) as u32;
        let month = decimal(text.subrange(13, 15)) as u32;
        let day = decimal(text.subrange(16, 18)) as u32;
        if text.len() == 18 {
            Some(ReleaseTag::Date { year, month, day, suffix: None })
        } else if text[18] == 46 && digits_end(text, 19) == text.len() {
            match number_at(text, 19, text.len() as int) {
                Some(number) => Some(ReleaseTag::Date { year, month, day, suffix: Some(number) }),
                None => None,
            }
        } else {
            None
        }
    } else {
        None
    }
}

/// The release a tag names, if the text is a tag.
pub open spec fn tag_of(text: Seq<u8>) -> Option<ReleaseTag> {
    match version_tag(text) {
        Some(tag) => Some(tag),
        None => date_tag(text),
    }
}

/// Appending a digit to a run of digits multiplies by ten and adds.
proof fn lemma_decimal_step(text: Seq<u8>, from: int, to: int)
    requires
        0 <= from <= to < text.len(),
    ensures
        decimal(text.subrange(from, to + 1)) == decimal(text.subrange(from, to)) * 10 + (text[to]
            - 48) as nat,
{
    let longer = text.subrange(from, to + 1);
    assert(longer.drop_last() =~= text.subrange(from, to));
    assert(longer.last() == text[to]);
}

/// A run of digits ends where its extension by one digit ends.
proof fn lemma_digits_run(text: Seq<u8>, from: int, upto: int)
    requires
        0 <= from <= upto <= text.len(),
        forall|k: int| from <= k < upto ==> is_digit(#[trigger] text[k]),
    ensures
        digits_end(text, from) == digits_end(text, upto),
    decreases upto - from,
{
    if from < upto {
        lemma_digits_run(text, from + 1, upto);
    }
}

/// Reads the number that starts at `from`: where its digits end, and its
/// value where it fits 64 bits.
fn read_number(text: &[u8], from: usize) -> (r: (usize, Option<u64>))
    requires
        from <= text@.len(),
    ensures
        r.0 == digits_end(text@, from as int),
        from <= r.0 <= text@.len(),
        r.1 == number_at(text@, from as int, r.0 as int),
{
    let mut index: usize = from;
    let mut value: u64 = 0;
    let mut fits: bool = true;
    assert(text@.subrange(from as int, from as int) =~= Seq::<u8>::empty());
    while index < text.len() && text[index] >= 48 && text[index] <= 57
        invariant
            from <= index <= text@.len(),
            forall|k: int| from <= k < index ==> is_digit(#[trigger] text@[k]),
            fits ==> value == decimal(text@.subrange(from as int, index as int)),
            !fits ==> decimal(text@.subrange(from as int, index as int)) > u64::MAX,
        decreases text@.len() - index,
    {
        let digit: u64 = (text[index] - 48) as u64;
        proof {
            lemma_decimal_step(text@, from as int, index as int);
        }
        if fits {
            if value > (u64::MAX - digit) / 10 {
                fits = false;
            } else {
                value = value * 10 + digit;
            }
        }
        index = index + 1;
    }
    proof {
        lemma_digits_run(text@, from as int, index as int);
    }
    if index > from && fits {
        (index, Some(value))
    } else {
        (index, None)
    }
}

fn read_version(text: &[u8]) -> (r: Option<ReleaseTag>)
    ensures
        r == version_tag(text@),
{
    if text.len() < 1 || text[0] != 118 {
        return None;
    }
    let (major_end, major) = read_number(text, 1);
    if major_end >= text.len() || text[major_end] != 46 {
        return None;
    }
    let (minor_end, minor) = read_number(text, major_end + 1);
    if minor_end >= text.len() || text[minor_end] != 46 {
        return None;
    }
    let (patch_end, patch) = read_number(text, minor_end + 1);
    if patch_end != text.len() {
        return None;
    }
    match (major, minor, patch) {
        (Some(major), Some(minor), Some(patch)) => Some(
            ReleaseTag::Version { major, minor, patch },
        ),
        _ => None,
    }
}

/// A run of at most four digits stands for a number below ten thousand.
proof fn lemma_decimal_small(digits: Seq<u8>)
    requires
        digits.len() <= 4,
        forall|k: int| 0 <= k < digits.len() ==> is_digit(#[trigger] digits[k]),
    ensures
        decimal(digits) < (if digits.len() == 0 {
            1nat
        } else if digits.len() == 1 {
            10nat
        } else if digits.len() == 2 {
            100nat
        } else if digits.len() == 3 {
            1000nat
        } else {
            10000nat
        }),
    decreases digits.len(),
{
    if digits.len() > 0 {
        let front = digits.drop_last();
        assert forall|k: int| 0 <= k < front.len() implies is_digit(#[trigger] front[k]) by {
            assert(front[k] == digits[k]);
        }
        lemma_decimal_small(front);
        assert(is_digit(digits[digits.len() - 1]));
    }
}

/// Within a run of digits, every byte is a digit.
proof fn lemma_digits_within(text: Seq<u8>, from: int, at: int)
    requires
        0 <= from <= at < digits_end(text, from),
    ensures
        at < text.len(),
        is_digit(text[at]),
        digits_end(text, from) <= text.len(),
    decreases text.len() - from,
{
    if from < text.len() && is_digit(text[from]) {
        if at > from {
            lemma_digits_within(text, from + 1, at);
        } else {
            lemma_digits_end_bounds(text, from + 1);
        }
    }
}

/// A run of digits ends at or after its start, within the text.
proof fn lemma_digits_end_bounds(text: Seq<u8>, from: int)
    requires
        0 <= from <= text.len(),
    ensures
        from <= digits_end(text, from) <= text.len(),
    decreases text.len() - from,
{
    if from < text.len() && is_digit(text[from]) {
        lemma_digits_end_bounds(text, from + 1);
    }
}

/// Reads a number of exactly `width` digits, `width` being at most four.
fn read_fixed(text: &[u8], from: usize, width: usize) -> (r: Option<u32>)
    requires
        from <= 64,
        1 <= width <= 4,
    ensures
        r is Some <==> from + width <= text@.len() && digits_end(text@, from as int) == from
            + width,
        r matches Some(value) ==> value == decimal(text@.subrange(from as int, from + width)),
{
    if from + width > text.len() {
        return None;
    }
    let (end, value) = read_number(text, from);
    if end != from + width {
        return None;
    }
    proof {
        let digits = text@.subrange(from as int, from + width);
        assert forall|k: int| 0 <= k < digits.len() implies is_digit(#[trigger] digits[k]) by {
            lemma_digits_within(text@, from as int, from + k);
        }
        lemma_decimal_small(digits);
    }
    match value {
        Some(number) => Some(number as u32),
        None => None,
    }
}

fn read_date(text: &[u8]) -> (r: Option<ReleaseTag>)
    ensures
        r == date_tag(text@),
{
    if text.len() < 18 {
        return None;
    }
    if text[0] != 114 || text[1] != 101 || text[2] != 108 || text[3] != 101 || text[4] != 97
        || text[5] != 115 || text[6] != 101 || text[7] != 45 {
        assert(text@.subrange(0, 8)[0] == text@[0]);
        assert(text@.subrange(0, 8)[1] == text@[1]);
        assert(text@.subrange(0, 8)[2] == text@[2]);
        assert(text@.subrange(0, 8)[3] == text@[3]);
        assert(text@.subrange(0, 8)[4] == text@[4]);
        assert(text@.subrange(0, 8)[5] == text@[5]);
        assert(text@.subrange(0, 8)[6] == text@[6]);
        assert(text@.subrange(0, 8)[7] == text@[7]);
        return None;
    }
    assert(text@.subrange(0, 8) =~= date_prefix());
    let year = match read_fixed(text, 8, 4) {
        Some(year) => year,
        None => {
            return None;
        },
    };
    if text[12] != 45 {
        return None;
    }
    let month = match read_fixed(text, 13, 2) {
        Some(month) => month,
        None => {
            return None;
        },
    };
    if text[15] != 45 {
        return None;
    }
    let day = match read_fixed(text, 16, 2) {
        Some(day) => day,
        None => {
            return None;
        },
    };
    if text.len() == 18 {
        return Some(ReleaseTag::Date { year, month, day, suffix: None });
    }
    if text[18] != 46 {
        return None;
    }
    let (end, number) = read_number(text, 19);
    if end != text.len() {
        return None;
    }
    match number {
        Some(number) => Some(ReleaseTag::Date { year, month, day, suffix: Some(number) }),
        None => None,
    }
}

impl ReleaseTag {
    /// Reads a release tag: `v0.6.0` names a versioned release,
    /// `release-2022-10-26` a dated one, `release-2022-10-26.2` the second
    /// further release of that day. Anything else is no tag. Numbers are
    /// written in ASCII digits and have to fit 64 bits.
    pub fn parse(text: &str) -> (r: Option<ReleaseTag>)
        ensures
            r == tag_of(text.spec_bytes()),
    {
        let bytes = text.as_bytes();
        match read_version(bytes) {
            Some(tag) => Some(tag),
            None => read_date(bytes),
        }
    }
}

} // verus!
