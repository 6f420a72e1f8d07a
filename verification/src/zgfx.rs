//! The shape of RDP8 bulk data.
//!
//! A payload of the graphics channel is one segment or a list of segments. A
//! segment holds its bytes as they are or as a stream of bit tokens: literals,
//! copies out of the last [`WINDOW`] bytes, and runs of plain bytes. The
//! decompressor takes the shape for granted, so it is checked here first.

use crate::bytes::read_le;
use vstd::prelude::*;

verus! {

/// How many bytes of its output the decompressor remembers.
pub const WINDOW: u64 = 2_500_000;

/// How many bytes a single payload may unfold to on this machine: half of what a
/// vector can hold, because a vector that grows may take twice the room it needs.
pub const OUTPUT_LIMIT: u64 = isize::MAX as u64 / 2;

/// `2` to the power of `n`.
pub open spec fn two_to(n: nat) -> nat
    decreases n,
{
    if n == 0 {
        1
    } else {
        2 * two_to((n - 1) as nat)
    }
}

/// The weight of the bit at `place` of a byte, the most significant bit first.
pub open spec fn weight(place: int) -> u8 {
    if place == 0 {
        128
    } else if place == 1 {
        64
    } else if place == 2 {
        32
    } else if place == 3 {
        16
    } else if place == 4 {
        8
    } else if place == 5 {
        4
    } else if place == 6 {
        2
    } else {
        1
    }
}

/// The bit at `at` of `data`, the most significant bit of each byte first.
pub open spec fn bit(data: Seq<u8>, at: int) -> nat {
    (data[at / 8] / weight(at % 8)) as nat % 2
}

/// The number that `count` bits of `data` spell from `at` on.
pub open spec fn bits_value(data: Seq<u8>, at: int, count: nat) -> nat
    decreases count,
{
    if count == 0 {
        0
    } else {
        2 * bits_value(data, at, (count - 1) as nat) + bit(data, at + count - 1)
    }
}

/// How many one bits follow each other from `at` on, before `end`.
pub open spec fn ones(data: Seq<u8>, at: int, end: int) -> nat
    decreases end - at,
{
    if at >= end || bit(data, at) == 0 {
        0
    } else {
        1 + ones(data, at + 1, end)
    }
}

/// What stands at one place of a token stream.
#[derive(Clone, Copy, PartialEq, Eq, Structural)]
pub enum Token {
    /// A prefix of one bit; the byte itself follows in eight bits.
    Byte,
    /// A prefix of `length` bits that stands for one byte.
    Literal { length: u8 },
    /// A prefix of `length` bits in front of a copy; the distance is `base` plus
    /// the number in the next `distance_bits` bits.
    Match { length: u8, distance_bits: u8, base: u32 },
    /// No prefix that the format knows.
    Unknown,
    /// The stream ends inside the prefix.
    Cut,
}

/// The token with the match prefix that reads as `prefix` in `length` bits.
pub open spec fn match_token(length: u8, prefix: nat) -> Token {
    let (distance_bits, base): (u8, u32) = if prefix == 17 {
        (5, 0)
    } else if prefix == 18 {
        (7, 32)
    } else if prefix == 19 {
        (9, 160)
    } else if prefix == 20 {
        (10, 672)
    } else if prefix == 21 {
        (12, 1_696)
    } else if prefix == 44 {
        (14, 5_792)
    } else if prefix == 45 {
        (15, 22_176)
    } else if prefix == 92 {
        (18, 54_944)
    } else if prefix == 93 {
        (20, 317_088)
    } else if prefix == 188 {
        (20, 1_365_664)
    } else if prefix == 189 {
        (21, 2_414_240)
    } else if prefix == 380 {
        (22, 4_511_392)
    } else if prefix == 381 {
        (23, 8_705_696)
    } else {
        (24, 17_094_304)
    };
    Token::Match { length, distance_bits, base }
}

/// The token at `at` of a stream that ends at `end`. Literals have prefixes of
/// five to eight bits; copies are told apart only where eight bits are there.
#[verifier::opaque]
pub open spec fn token(data: Seq<u8>, at: int, end: int) -> Token {
    let left = end - at;
    if bit(data, at) == 0 {
        Token::Byte
    } else if left < 5 {
        Token::Cut
    } else if 24 <= bits_value(data, at, 5) <= 25 {
        Token::Literal { length: 5 }
    } else if left < 6 {
        Token::Cut
    } else if 52 <= bits_value(data, at, 6) <= 54 {
        Token::Literal { length: 6 }
    } else if left < 7 {
        Token::Cut
    } else if 110 <= bits_value(data, at, 7) <= 125 {
        Token::Literal { length: 7 }
    } else if left < 8 {
        Token::Cut
    } else if 252 <= bits_value(data, at, 8) <= 255 {
        Token::Literal { length: 8 }
    } else if 17 <= bits_value(data, at, 5) <= 21 {
        match_token(5, bits_value(data, at, 5))
    } else if 44 <= bits_value(data, at, 6) <= 45 {
        match_token(6, bits_value(data, at, 6))
    } else if 92 <= bits_value(data, at, 7) <= 93 {
        match_token(7, bits_value(data, at, 7))
    } else if 188 <= bits_value(data, at, 8) <= 189 {
        match_token(8, bits_value(data, at, 8))
    } else if left < 9 {
        Token::Cut
    } else if 380 <= bits_value(data, at, 9) <= 382 {
        match_token(9, bits_value(data, at, 9))
    } else {
        Token::Unknown
    }
}

/// What one token does: where the next one begins, how many bytes it stands for,
/// and how far back it reaches for them (`0` where it does not).
pub struct Step {
    pub next: int,
    pub length: nat,
    pub distance: nat,
}

/// The run of plain bytes whose length stands at `at`; it starts at a byte boundary.
pub open spec fn run_step(data: Seq<u8>, at: int, end: int) -> Option<Step> {
    let aligned = (at + 15 + 7) / 8 * 8;
    let length = bits_value(data, at, 15);
    if at + 15 > end || aligned + 8 * length > end {
        None
    } else {
        Some(Step { next: aligned + 8 * length, length, distance: 0 })
    }
}

/// The copy from `distance` bytes back whose length stands at `at`: a zero bit
/// for a length of three, or some ones, a zero, and one bit more than there are
/// ones. A length that would pass [`OUTPUT_LIMIT`] on every machine is not read.
pub open spec fn copy_step(data: Seq<u8>, at: int, end: int, distance: nat) -> Option<Step> {
    let count = ones(data, at, end);
    let digits = at + count + 1;
    if digits > end {
        None
    } else if count == 0 {
        Some(Step { next: digits, length: 3, distance })
    } else if count >= 61 || digits + count + 1 > end {
        None
    } else {
        Some(
            Step {
                next: digits + count + 1,
                length: two_to(count + 1) + bits_value(data, digits, count + 1),
                distance,
            },
        )
    }
}

/// The step that `token` takes at `at`, or `None` where the stream ends inside it.
#[verifier::opaque]
pub open spec fn step(data: Seq<u8>, at: int, end: int, token: Token) -> Option<Step> {
    match token {
        Token::Byte => if at + 9 > end {
            None
        } else {
            Some(Step { next: at + 9, length: 1, distance: 0 })
        },
        Token::Literal { length } => Some(Step { next: at + length, length: 1, distance: 0 }),
        Token::Match { length, distance_bits, base } => {
            let value = at + length;
            let behind = value + distance_bits;
            if behind > end {
                None
            } else {
                let distance = base as nat + bits_value(data, value, distance_bits as nat);
                if distance == 0 {
                    run_step(data, behind, end)
                } else {
                    copy_step(data, behind, end, distance)
                }
            }
        },
        Token::Unknown => None,
        Token::Cut => None,
    }
}

/// What a payload, or a part of one, unfolds to.
pub struct Extent {
    /// The number of bytes.
    pub written: nat,
    /// Whether it was followed to its end and not left at an unknown prefix.
    pub complete: bool,
}

/// Whether a copy that reaches `distance` bytes back stays within what a ring of
/// [`WINDOW`] bytes holds in front of `position`.
pub open spec fn within_reach(distance: nat, position: nat) -> bool {
    distance <= WINDOW + position % (WINDOW as nat)
}

/// What the token stream between `at` and `end` unfolds to when `start` bytes were
/// written before the payload and `written` bytes before `at`. `None` where the
/// stream ends inside a token, reaches too far back or grows too long.
pub open spec fn stream_extent(
    data: Seq<u8>,
    at: int,
    end: int,
    start: nat,
    written: nat,
) -> Option<Extent>
    decreases end - at,
{
    if at >= end {
        Some(Extent { written, complete: true })
    } else {
        let token = token(data, at, end);
        if token is Unknown {
            Some(Extent { written, complete: false })
        } else {
            match step(data, at, end, token) {
                None => None,
                Some(step) => {
                    if !(at < step.next <= end) || !within_reach(step.distance, start + written)
                        || written + step.length > OUTPUT_LIMIT {
                        None
                    } else {
                        stream_extent(data, step.next, end, start, written + step.length)
                    }
                },
            }
        }
    }
}

/// Whether a segment has the one known compression type.
pub open spec fn known_type(segment: Seq<u8>) -> bool {
    segment.len() > 0 && segment[0] % 16 == 4
}

/// Whether a segment is a token stream.
pub open spec fn compressed(segment: Seq<u8>) -> bool {
    segment[0] / 32 % 2 == 1
}

/// What a segment unfolds to. The last byte of a token stream says how many bits
/// in front of it are unused. All of its bits have to fit into a bit slice, whose
/// length is kept in three bits less than a machine word.
pub open spec fn segment_extent(segment: Seq<u8>, start: nat, written: nat) -> Option<Extent> {
    let data = segment.skip(1);
    if data.len() == 0 {
        Some(Extent { written, complete: true })
    } else if !compressed(segment) {
        if written + data.len() > OUTPUT_LIMIT {
            None
        } else {
            Some(Extent { written: written + data.len(), complete: true })
        }
    } else if data.last() > 8 * (data.len() - 1) || 8 * data.len() > usize::MAX / 8 {
        None
    } else {
        stream_extent(data, 0, 8 * (data.len() - 1) - data.last(), start, written)
    }
}

/// What a list of segments unfolds to; nothing behind an unknown prefix counts.
pub open spec fn segments_extent(segments: Seq<Seq<u8>>, start: nat, written: nat) -> Option<Extent>
    decreases segments.len(),
{
    if segments.len() == 0 {
        Some(Extent { written, complete: true })
    } else {
        match segment_extent(segments[0], start, written) {
            None => None,
            Some(extent) => if extent.complete {
                segments_extent(segments.skip(1), start, extent.written)
            } else {
                Some(extent)
            },
        }
    }
}

/// The list of `count` segments at `at`, each behind its size.
pub open spec fn segment_list(payload: Seq<u8>, at: int, count: nat) -> Option<Seq<Seq<u8>>>
    decreases count,
{
    if count == 0 {
        Some(Seq::empty())
    } else if at + 4 > payload.len() {
        None
    } else {
        let size = crate::bytes::le_value(payload.subrange(at, at + 4));
        let segment = payload.subrange(at + 4, at + 4 + size);
        if at + 4 + size > payload.len() || !known_type(segment) {
            None
        } else {
            match segment_list(payload, at + 4 + size, (count - 1) as nat) {
                None => None,
                Some(rest) => Some(seq![segment] + rest),
            }
        }
    }
}

/// The segments of a payload.
pub open spec fn segments(payload: Seq<u8>) -> Option<Seq<Seq<u8>>> {
    if payload.len() == 0 {
        None
    } else if payload[0] == 0xe0 {
        if known_type(payload.skip(1)) {
            Some(seq![payload.skip(1)])
        } else {
            None
        }
    } else if payload[0] == 0xe1 && payload.len() >= 7 {
        segment_list(payload, 7, crate::bytes::le_value(payload.subrange(1, 3)))
    } else {
        None
    }
}

/// What a payload unfolds to when `start` bytes were written before it, or `None`
/// where it has not the shape of bulk data.
pub open spec fn extent(payload: Seq<u8>, start: nat) -> Option<Extent> {
    match segments(payload) {
        None => None,
        Some(segments) => segments_extent(segments, start, 0),
    }
}

/// `count` bits spell a number below `2` to the power of `count`.
proof fn lemma_bits_value_bound(data: Seq<u8>, at: int, count: nat)
    ensures
        bits_value(data, at, count) < two_to(count),
    decreases count,
{
    if count > 0 {
        lemma_bits_value_bound(data, at, (count - 1) as nat);
    }
}

/// Larger exponents give larger powers.
proof fn lemma_two_to_monotonic(small: nat, large: nat)
    requires
        small <= large,
    ensures
        two_to(small) <= two_to(large),
    decreases large,
{
    if small < large {
        lemma_two_to_monotonic(small, (large - 1) as nat);
    }
}

/// The powers that bound the numbers of the format.
proof fn lemma_two_to_values()
    ensures
        two_to(15) == 0x8000,
        two_to(24) == 0x100_0000,
        two_to(61) == 0x2000_0000_0000_0000,
{
    reveal_with_fuel(two_to, 62);
}

/// The ones before `end` end before `end`.
proof fn lemma_ones_bound(data: Seq<u8>, at: int, end: int)
    ensures
        at <= end ==> at + ones(data, at, end) <= end,
    decreases end - at,
{
    if at < end && bit(data, at) != 0 {
        lemma_ones_bound(data, at + 1, end);
    }
}

/// The bit at `at` of `data`.
fn read_bit(data: &[u8], at: u128) -> (value: u64)
    requires
        at < 8 * data@.len(),
    ensures
        value as nat == bit(data@, at as int),
        value <= 1,
{
    let index: usize = (at / 8) as usize;
    let place: u128 = at % 8;
    let unit: u8 = if place == 0 {
        128
    } else if place == 1 {
        64
    } else if place == 2 {
        32
    } else if place == 3 {
        16
    } else if place == 4 {
        8
    } else if place == 5 {
        4
    } else if place == 6 {
        2
    } else {
        1
    };
    let length: usize = data.len();
    proof {
        assert(at / 8 < length);
        assert(index as int == at as int / 8);
    }
    (data[index] / unit) as u64 % 2
}

/// The number that `count` bits of `data` spell from `at` on.
fn read_bits(data: &[u8], at: u128, count: u8) -> (value: u64)
    requires
        at + count <= 8 * data@.len(),
        count <= 61,
    ensures
        value as nat == bits_value(data@, at as int, count as nat),
        (value as nat) < two_to(count as nat),
        value < 0x2000_0000_0000_0000,
{
    let mut value: u64 = 0;
    let mut done: u8 = 0;
    let length: usize = data.len();
    while done < count
        invariant
            done <= count,
            count <= 61,
            at + count <= 8 * data@.len(),
            data@.len() == length,
            value as nat == bits_value(data@, at as int, done as nat),
        decreases count - done,
    {
        proof {
            lemma_bits_value_bound(data@, at as int, done as nat);
            lemma_two_to_monotonic(done as nat, 61);
            lemma_two_to_values();
        }
        value = 2 * value + read_bit(data, at + done as u128);
        done = done + 1;
    }
    proof {
        lemma_bits_value_bound(data@, at as int, count as nat);
        lemma_two_to_monotonic(count as nat, 61);
        lemma_two_to_values();
    }
    value
}

/// How many one bits follow each other from `at` on, before `end`.
fn count_ones(data: &[u8], at: u128, end: u128) -> (count: u128)
    requires
        at <= end <= 8 * data@.len(),
    ensures
        count as nat == ones(data@, at as int, end as int),
        at + count <= end,
{
    let mut count: u128 = 0;
    while at + count < end && read_bit(data, at + count) == 1
        invariant
            at + count <= end <= 8 * data@.len(),
            ones(data@, at as int, end as int) == count + ones(
                data@,
                at + count,
                end as int,
            ),
        decreases end - at - count,
    {
        count = count + 1;
    }
    count
}

/// The token with the match prefix that reads as `prefix` in `length` bits.
fn read_match(length: u8, prefix: u64) -> (token: Token)
    ensures
        token == match_token(length, prefix as nat),
{
    let (distance_bits, base): (u8, u32) = match prefix {
        17 => (5, 0),
        18 => (7, 32),
        19 => (9, 160),
        20 => (10, 672),
        21 => (12, 1_696),
        44 => (14, 5_792),
        45 => (15, 22_176),
        92 => (18, 54_944),
        93 => (20, 317_088),
        188 => (20, 1_365_664),
        189 => (21, 2_414_240),
        380 => (22, 4_511_392),
        381 => (23, 8_705_696),
        _ => (24, 17_094_304),
    };
    Token::Match { length, distance_bits, base }
}

/// The token at `at` of a stream that ends at `end`.
fn read_token(data: &[u8], at: u128, end: u128) -> (found: Token)
    requires
        at < end <= 8 * data@.len(),
    ensures
        found == token(data@, at as int, end as int),
{
    proof {
        reveal(token);
    }
    let left: u128 = end - at;
    if read_bit(data, at) == 0 {
        return Token::Byte;
    }
    if left < 5 {
        return Token::Cut;
    }
    let five: u64 = read_bits(data, at, 5);
    if 24 <= five && five <= 25 {
        return Token::Literal { length: 5 };
    }
    if left < 6 {
        return Token::Cut;
    }
    let six: u64 = read_bits(data, at, 6);
    if 52 <= six && six <= 54 {
        return Token::Literal { length: 6 };
    }
    if left < 7 {
        return Token::Cut;
    }
    let seven: u64 = read_bits(data, at, 7);
    if 110 <= seven && seven <= 125 {
        return Token::Literal { length: 7 };
    }
    if left < 8 {
        return Token::Cut;
    }
    let eight: u64 = read_bits(data, at, 8);
    if 252 <= eight && eight <= 255 {
        return Token::Literal { length: 8 };
    }
    if 17 <= five && five <= 21 {
        return read_match(5, five);
    }
    if 44 <= six && six <= 45 {
        return read_match(6, six);
    }
    if 92 <= seven && seven <= 93 {
        return read_match(7, seven);
    }
    if 188 <= eight && eight <= 189 {
        return read_match(8, eight);
    }
    if left < 9 {
        return Token::Cut;
    }
    let nine: u64 = read_bits(data, at, 9);
    if 380 <= nine && nine <= 382 {
        read_match(9, nine)
    } else {
        Token::Unknown
    }
}

/// A [`Step`] in machine integers.
struct Stride {
    next: u128,
    length: u64,
    distance: u64,
}

impl Stride {
    /// The step that this is.
    spec fn same(self, step: Step) -> bool {
        &&& self.next == step.next
        &&& self.length == step.length
        &&& self.distance == step.distance
    }
}

/// The run of plain bytes whose length stands at `at`.
fn read_run(data: &[u8], at: u128, end: u128) -> (stride: Option<Stride>)
    requires
        at <= end <= 8 * data@.len(),
        end < 0x1000_0000_0000_0000_0000,
    ensures
        match run_step(data@, at as int, end as int) {
            Some(step) => stride matches Some(stride) && stride.same(step) && at < step.next <= end
                && step.length < 0x4000_0000_0000_0000,
            None => stride is None,
        },
{
    if at + 15 > end {
        return None;
    }
    let length: u64 = read_bits(data, at, 15);
    let aligned: u128 = (at + 15 + 7) / 8 * 8;
    let next: u128 = aligned + 8 * length as u128;
    if next > end {
        None
    } else {
        Some(Stride { next, length, distance: 0 })
    }
}

/// The copy from `distance` bytes back whose length stands at `at`.
fn read_copy(data: &[u8], at: u128, end: u128, distance: u64) -> (stride: Option<Stride>)
    requires
        at <= end <= 8 * data@.len(),
        end < 0x1000_0000_0000_0000_0000,
    ensures
        match copy_step(data@, at as int, end as int, distance as nat) {
            Some(step) => stride matches Some(stride) && stride.same(step) && at < step.next <= end
                && step.length < 0x4000_0000_0000_0000,
            None => stride is None,
        },
{
    let count: u128 = count_ones(data, at, end);
    let digits: u128 = at + count + 1;
    if digits > end {
        return None;
    }
    if count == 0 {
        return Some(Stride { next: digits, length: 3, distance });
    }
    if count >= 61 || digits + count + 1 > end {
        return None;
    }
    let extra: u8 = count as u8 + 1;
    let value: u64 = read_bits(data, digits, extra);
    let mut base: u64 = 1;
    let mut done: u8 = 0;
    while done < extra
        invariant
            done <= extra <= 61,
            base as nat == two_to(done as nat),
        decreases extra - done,
    {
        proof {
            lemma_two_to_monotonic((done + 1) as nat, 61);
            lemma_two_to_values();
        }
        base = 2 * base;
        done = done + 1;
    }
    proof {
        lemma_two_to_monotonic(extra as nat, 61);
        lemma_two_to_values();
    }
    Some(Stride { next: digits + count + 1, length: base + value, distance })
}

/// The step that `token` takes at `at`.
fn read_step(data: &[u8], at: u128, end: u128, token: Token) -> (stride: Option<Stride>)
    requires
        at < end <= 8 * data@.len(),
        end < 0x1000_0000_0000_0000_0000,
        token == crate::zgfx::token(data@, at as int, end as int),
    ensures
        match step(data@, at as int, end as int, token) {
            Some(step) => stride matches Some(stride) && stride.same(step) && at < step.next <= end
                && step.length < 0x4000_0000_0000_0000,
            None => stride is None,
        },
{
    proof {
        reveal(crate::zgfx::token);
        reveal(step);
    }
    match token {
        Token::Byte => if at + 9 > end {
            None
        } else {
            Some(Stride { next: at + 9, length: 1, distance: 0 })
        },
        Token::Literal { length } => Some(
            Stride { next: at + length as u128, length: 1, distance: 0 },
        ),
        Token::Match { length, distance_bits, base } => {
            let value: u128 = at + length as u128;
            let behind: u128 = value + distance_bits as u128;
            if behind > end {
                return None;
            }
            let distance: u64 = base as u64 + read_bits(data, value, distance_bits);
            if distance == 0 {
                read_run(data, behind, end)
            } else {
                read_copy(data, behind, end, distance)
            }
        },
        Token::Unknown => None,
        Token::Cut => None,
    }
}

/// An [`Extent`] in machine integers.
struct Measure {
    written: u64,
    complete: bool,
}

impl Measure {
    /// Whether this, where it is there, is what `extent` says.
    spec fn same(measure: Option<Measure>, extent: Option<Extent>) -> bool {
        match extent {
            Some(extent) => measure matches Some(measure) && measure.written == extent.written
                && measure.complete == extent.complete && measure.written <= OUTPUT_LIMIT,
            None => measure is None,
        }
    }
}

/// What the token stream in the first `end` bits of `data` unfolds to.
fn measure_stream(data: &[u8], end: u128, start: u64, written: u64) -> (measure: Option<Measure>)
    requires
        end <= 8 * data@.len(),
        start < WINDOW,
        written <= OUTPUT_LIMIT,
    ensures
        Measure::same(
            measure,
            stream_extent(data@, 0, end as int, start as nat, written as nat),
        ),
{
    let mut at: u128 = 0;
    let mut total: u64 = written;
    let length: usize = data.len();
    while at < end
        invariant
            at <= end <= 8 * data@.len(),
            data@.len() == length,
            start < WINDOW,
            total <= OUTPUT_LIMIT,
            stream_extent(data@, 0, end as int, start as nat, written as nat) == stream_extent(
                data@,
                at as int,
                end as int,
                start as nat,
                total as nat,
            ),
        decreases end - at,
    {
        let token = read_token(data, at, end);
        if let Token::Unknown = token {
            return Some(Measure { written: total, complete: false });
        }
        match read_step(data, at, end, token) {
            None => {
                return None;
            },
            Some(stride) => {
                if stride.distance > WINDOW + (start + total) % WINDOW {
                    return None;
                }
                if total + stride.length > OUTPUT_LIMIT {
                    return None;
                }
                at = stride.next;
                total = total + stride.length;
            },
        }
    }
    Some(Measure { written: total, complete: true })
}

/// What a segment of a known type unfolds to.
fn measure_segment(segment: &[u8], start: u64, written: u64) -> (measure: Option<Measure>)
    requires
        segment@.len() > 0,
        start < WINDOW,
        written <= OUTPUT_LIMIT,
    ensures
        Measure::same(measure, segment_extent(segment@, start as nat, written as nat)),
{
    let data = vstd::slice::slice_subrange(segment, 1, segment.len());
    proof {
        assert(data@ =~= segment@.skip(1));
    }
    if data.len() == 0 {
        return Some(Measure { written, complete: true });
    }
    if segment[0] / 32 % 2 != 1 {
        if data.len() as u128 + written as u128 > OUTPUT_LIMIT as u128 {
            return None;
        }
        return Some(Measure { written: written + data.len() as u64, complete: true });
    }
    let unused: u128 = data[data.len() - 1] as u128;
    let bits: u128 = 8 * (data.len() as u128 - 1);
    if unused > bits || bits + 8 > (usize::MAX / 8) as u128 {
        return None;
    }
    measure_stream(data, bits - unused, start, written)
}

/// The contents of a list of segments.
spec fn segment_views(segments: Seq<&[u8]>) -> Seq<Seq<u8>> {
    segments.map_values(|segment: &[u8]| segment@)
}

/// The list of `count` segments behind the header of a multipart payload.
fn read_segment_list(payload: &[u8], count: u64) -> (list: Option<Vec<&[u8]>>)
    requires
        payload@.len() >= 7,
    ensures
        match segment_list(payload@, 7, count as nat) {
            Some(segments) => list matches Some(list) && segment_views(list@) == segments && (
            forall|i: int| 0 <= i < segments.len() ==> (#[trigger] segments[i]).len() > 0),
            None => list is None,
        },
{
    let mut list: Vec<&[u8]> = Vec::new();
    let mut at: usize = 7;
    let mut left: u64 = count;
    let length: usize = payload.len();
    proof {
        assert(segment_views(list@) =~= Seq::<Seq<u8>>::empty());
        let whole = segment_list(payload@, 7, count as nat);
        if whole is Some {
            assert(segment_views(list@) + whole->0 =~= whole->0);
        }
    }
    while left > 0
        invariant
            left <= count,
            7 <= at <= length,
            payload@.len() == length,
            match segment_list(payload@, at as int, left as nat) {
                Some(rest) => segment_list(payload@, 7, count as nat) == Some(
                    segment_views(list@) + rest,
                ),
                None => segment_list(payload@, 7, count as nat) is None,
            },
            forall|i: int| 0 <= i < list@.len() ==> (#[trigger] list@[i])@.len() > 0,
        decreases left,
    {
        if length - at < 4 {
            return None;
        }
        let size: u64 = read_le(payload, at, 4);
        if size > (length - at - 4) as u64 {
            return None;
        }
        let next: usize = at + 4 + size as usize;
        let segment = vstd::slice::slice_subrange(payload, at + 4, next);
        if segment.len() == 0 || segment[0] % 16 != 4 {
            return None;
        }
        let ghost before = list@;
        list.push(segment);
        proof {
            let rest = segment_list(payload@, next as int, (left - 1) as nat);
            assert(segment_views(list@) =~= segment_views(before).push(segment@));
            if rest is Some {
                assert(segment_views(list@) + rest->0 =~= segment_views(before) + (seq![segment@]
                    + rest->0));
            }
        }
        at = next;
        left = left - 1;
    }
    proof {
        assert(segment_views(list@) + Seq::<Seq<u8>>::empty() =~= segment_views(list@));
        assert forall|i: int| 0 <= i < segment_views(list@).len() implies (
        #[trigger] segment_views(list@)[i]).len() > 0 by {
            assert(list@[i]@.len() > 0);
        }
    }
    Some(list)
}

/// What a list of segments unfolds to.
fn measure_segments(list: &Vec<&[u8]>, start: u64) -> (measure: Option<Measure>)
    requires
        start < WINDOW,
        forall|i: int| 0 <= i < list@.len() ==> (#[trigger] list@[i])@.len() > 0,
    ensures
        Measure::same(measure, segments_extent(segment_views(list@), start as nat, 0)),
{
    let mut total: u64 = 0;
    let mut done: usize = 0;
    proof {
        assert(segment_views(list@).skip(0) =~= segment_views(list@));
    }
    while done < list.len()
        invariant
            done <= list@.len(),
            start < WINDOW,
            total <= OUTPUT_LIMIT,
            forall|i: int| 0 <= i < list@.len() ==> (#[trigger] list@[i])@.len() > 0,
            segments_extent(segment_views(list@), start as nat, 0) == segments_extent(
                segment_views(list@).skip(done as int),
                start as nat,
                total as nat,
            ),
        decreases list@.len() - done,
    {
        let ghost rest = segment_views(list@).skip(done as int);
        proof {
            assert(rest[0] == list@[done as int]@);
            assert(rest.skip(1) =~= segment_views(list@).skip(done + 1));
        }
        match measure_segment(list[done], start, total) {
            None => {
                return None;
            },
            Some(measure) => {
                if !measure.complete {
                    return Some(measure);
                }
                total = measure.written;
            },
        }
        done = done + 1;
    }
    Some(Measure { written: total, complete: true })
}

/// What a payload unfolds to when the bytes written before it end at position
/// `start` of the window: the number of its bytes, or `None` where it has not the
/// shape of bulk data.
pub fn measure(payload: &[u8], start: u64) -> (written: Option<u64>)
    requires
        start < WINDOW,
    ensures
        match extent(payload@, start as nat) {
            Some(extent) => written matches Some(count) && count == extent.written && count
                <= OUTPUT_LIMIT,
            None => written is None,
        },
{
    let length: usize = payload.len();
    if length == 0 {
        return None;
    }
    let mut list: Vec<&[u8]> = Vec::new();
    if payload[0] == 0xe0 {
        let segment = vstd::slice::slice_subrange(payload, 1, length);
        proof {
            assert(segment@ =~= payload@.skip(1));
        }
        if segment.len() == 0 || segment[0] % 16 != 4 {
            return None;
        }
        list.push(segment);
        proof {
            assert(segment_views(list@) =~= seq![segment@]);
        }
    } else if payload[0] == 0xe1 && length >= 7 {
        match read_segment_list(payload, read_le(payload, 1, 2)) {
            None => {
                return None;
            },
            Some(found) => {
                list = found;
            },
        }
        proof {
            assert forall|i: int| 0 <= i < list@.len() implies (#[trigger] list@[i])@.len()
                > 0 by {
                assert(segment_views(list@)[i].len() > 0);
            }
        }
    } else {
        return None;
    }
    match measure_segments(&list, start) {
        Some(measure) => Some(measure.written),
        None => None,
    }
}

/// A segment that is not compressed unfolds to its bytes, wherever the window stands, as
/// long as this machine can hold twice as many as there are then.
pub proof fn law_plain_segment_adds_its_bytes(segment: Seq<u8>, start: nat, written: nat)
    requires
        segment.len() > 0,
        segment[0] / 32 % 2 == 0,
        written + segment.len() - 1 <= isize::MAX / 2,
    ensures
        segment_extent(segment, start, written) == Some(
            Extent { written: (written + segment.len() - 1) as nat, complete: true },
        ),
{
}

/// Two lists of segments in a row unfold to what the first one and then the second one
/// unfold to; an unknown prefix in the first one is the end.
pub proof fn law_segments_follow_each_other(
    first: Seq<Seq<u8>>,
    second: Seq<Seq<u8>>,
    start: nat,
    written: nat,
)
    ensures
        segments_extent(Seq::empty(), start, written) == Some(Extent { written, complete: true }),
        match segments_extent(first, start, written) {
            None => segments_extent(first + second, start, written) is None,
            Some(extent) => segments_extent(first + second, start, written) == if extent.complete {
                segments_extent(second, start, extent.written)
            } else {
                Some(extent)
            },
        },
    decreases first.len(),
{
    if first.len() == 0 {
        assert(first + second =~= second);
    } else {
        let rest = first.skip(1);
        assert((first + second)[0] == first[0]);
        assert((first + second).skip(1) =~= rest + second);
        if let Some(extent) = segment_extent(first[0], start, written) {
            if extent.complete {
                law_segments_follow_each_other(rest, second, start, extent.written);
            }
        }
    }
}

/// In a token stream, a zero bit stands for the byte in the next eight bits: one byte more,
/// and the stream goes on nine bits later.
pub proof fn law_byte_tokens_are_one_byte(
    data: Seq<u8>,
    at: int,
    end: int,
    start: nat,
    written: nat,
)
    requires
        0 <= at,
        at + 9 <= end,
        bit(data, at) == 0,
        written < isize::MAX / 2,
    ensures
        stream_extent(data, at, end, start, written) == stream_extent(
            data,
            at + 9,
            end,
            start,
            written + 1,
        ),
        stream_extent(data, end, end, start, written) == Some(Extent { written, complete: true }),
{
    reveal(token);
    reveal(step);
}

/// The bits of a byte are counted from the most significant one on.
pub proof fn law_bits_have_weights(data: Seq<u8>, at: int)
    requires
        0 <= at < data.len(),
    ensures
        128 * bit(data, 8 * at) + 64 * bit(data, 8 * at + 1) + 32 * bit(data, 8 * at + 2) + 16
            * bit(data, 8 * at + 3) + 8 * bit(data, 8 * at + 4) + 4 * bit(data, 8 * at + 5) + 2
            * bit(data, 8 * at + 6) + bit(data, 8 * at + 7) == data[at],
{
    let byte = data[at];
    assert(128 * (byte / 128 % 2) + 64 * (byte / 64 % 2) + 32 * (byte / 32 % 2) + 16 * (byte / 16
        % 2) + 8 * (byte / 8 % 2) + 4 * (byte / 4 % 2) + 2 * (byte / 2 % 2) + byte % 2 == byte)
        by (bit_vector);
    assert((8 * at) / 8 == at && (8 * at) % 8 == 0);
    assert((8 * at + 1) / 8 == at && (8 * at + 1) % 8 == 1);
    assert((8 * at + 2) / 8 == at && (8 * at + 2) % 8 == 2);
    assert((8 * at + 3) / 8 == at && (8 * at + 3) % 8 == 3);
    assert((8 * at + 4) / 8 == at && (8 * at + 4) % 8 == 4);
    assert((8 * at + 5) / 8 == at && (8 * at + 5) % 8 == 5);
    assert((8 * at + 6) / 8 == at && (8 * at + 6) % 8 == 6);
    assert((8 * at + 7) / 8 == at && (8 * at + 7) % 8 == 7);
    assert(bit(data, 8 * at) == (byte / 128) as nat % 2);
    assert(bit(data, 8 * at + 1) == (byte / 64) as nat % 2);
    assert(bit(data, 8 * at + 2) == (byte / 32) as nat % 2);
    assert(bit(data, 8 * at + 3) == (byte / 16) as nat % 2);
    assert(bit(data, 8 * at + 4) == (byte / 8) as nat % 2);
    assert(bit(data, 8 * at + 5) == (byte / 4) as nat % 2);
    assert(bit(data, 8 * at + 6) == (byte / 2) as nat % 2);
    assert(bit(data, 8 * at + 7) == (byte / 1) as nat % 2);
}

/// A copy is followed no further back than the window of 2,500,000 bytes and what was
/// written around it reaches.
pub proof fn law_copies_reach_into_the_window(distance: nat, position: nat)
    ensures
        distance <= 2_500_000 ==> within_reach(distance, position),
        distance >= 5_000_000 ==> !within_reach(distance, position),
        position < 2_500_000 ==> (within_reach(distance, position) <==> distance <= 2_500_000
            + position),
        within_reach(distance, position + 2_500_000) == within_reach(distance, position),
{
}

/// The distances of copies leave no gap and no overlap: from zero on, each prefix goes on
/// where the one in front of it, with all of its bits, ends.
pub proof fn law_distances_follow_each_other(length: u8, prefix: nat)
    ensures
        match_token(length, prefix) is Match,
        match_token(length, prefix)->Match_length == length,
        match_token(length, 17)->base == 0,
        match_token(length, 17)->distance_bits == 5,
        match_token(length, 18)->distance_bits == 7,
        match_token(length, 19)->distance_bits == 9,
        match_token(length, 20)->distance_bits == 10,
        match_token(length, 21)->distance_bits == 12,
        match_token(length, 44)->distance_bits == 14,
        match_token(length, 45)->distance_bits == 15,
        match_token(length, 92)->distance_bits == 18,
        match_token(length, 93)->distance_bits == 20,
        match_token(length, 188)->distance_bits == 20,
        match_token(length, 189)->distance_bits == 21,
        match_token(length, 380)->distance_bits == 22,
        match_token(length, 381)->distance_bits == 23,
        match_token(length, 382)->distance_bits == 24,
        match_token(length, 18)->base == match_token(length, 17)->base + 0x20,
        match_token(length, 19)->base == match_token(length, 18)->base + 0x80,
        match_token(length, 20)->base == match_token(length, 19)->base + 0x200,
        match_token(length, 21)->base == match_token(length, 20)->base + 0x400,
        match_token(length, 44)->base == match_token(length, 21)->base + 0x1000,
        match_token(length, 45)->base == match_token(length, 44)->base + 0x4000,
        match_token(length, 92)->base == match_token(length, 45)->base + 0x8000,
        match_token(length, 93)->base == match_token(length, 92)->base + 0x40000,
        match_token(length, 188)->base == match_token(length, 93)->base + 0x100000,
        match_token(length, 189)->base == match_token(length, 188)->base + 0x100000,
        match_token(length, 380)->base == match_token(length, 189)->base + 0x200000,
        match_token(length, 381)->base == match_token(length, 380)->base + 0x400000,
        match_token(length, 382)->base == match_token(length, 381)->base + 0x800000,
{
}

/// What the first nine bits of a token, where they are there, make of it: a zero bit is a
/// byte, and each other token has its own range of prefixes of five to nine bits.
pub proof fn law_prefixes_tell_tokens(data: Seq<u8>, at: int, end: int)
    requires
        0 <= at,
        at + 9 <= end,
    ensures
        ({
            let five = bits_value(data, at, 5);
            let six = bits_value(data, at, 6);
            let seven = bits_value(data, at, 7);
            let eight = bits_value(data, at, 8);
            let nine = bits_value(data, at, 9);
            let found = token(data, at, end);
            &&& found == Token::Byte <==> nine < 256
            &&& found == (Token::Literal { length: 5 }) <==> 24 <= five < 26
            &&& found == (Token::Literal { length: 6 }) <==> 52 <= six < 55
            &&& found == (Token::Literal { length: 7 }) <==> 110 <= seven < 126
            &&& found == (Token::Literal { length: 8 }) <==> 252 <= eight < 256
            &&& 17 <= five <= 21 ==> found == match_token(5, five)
            &&& 44 <= six <= 45 ==> found == match_token(6, six)
            &&& 92 <= seven <= 93 ==> found == match_token(7, seven)
            &&& 188 <= eight <= 189 ==> found == match_token(8, eight)
            &&& 380 <= nine <= 382 ==> found == match_token(9, nine)
            &&& found == Token::Unknown <==> 256 <= nine < 17 * 16 || nine == 383
        }),
{
    reveal(token);
    lemma_prefix_values(data, at);
    lemma_bits_value_bound(data, at, 9);
    reveal_with_fuel(two_to, 10);
}

/// How the prefixes of a token hang together.
proof fn lemma_prefix_values(data: Seq<u8>, at: int)
    ensures
        bit(data, at) == 0 <==> bits_value(data, at, 5) < 16,
        bits_value(data, at, 5) < 32,
        2 * bits_value(data, at, 5) <= bits_value(data, at, 6) <= 2 * bits_value(data, at, 5) + 1,
        2 * bits_value(data, at, 6) <= bits_value(data, at, 7) <= 2 * bits_value(data, at, 6) + 1,
        2 * bits_value(data, at, 7) <= bits_value(data, at, 8) <= 2 * bits_value(data, at, 7) + 1,
        2 * bits_value(data, at, 8) <= bits_value(data, at, 9) <= 2 * bits_value(data, at, 8) + 1,
{
    lemma_bits_value_step(data, at, 0);
    lemma_bits_value_step(data, at, 1);
    lemma_bits_value_step(data, at, 2);
    lemma_bits_value_step(data, at, 3);
    lemma_bits_value_step(data, at, 4);
    lemma_bits_value_step(data, at, 5);
    lemma_bits_value_step(data, at, 6);
    lemma_bits_value_step(data, at, 7);
    lemma_bits_value_step(data, at, 8);
}

/// One bit more doubles a number and adds the bit.
proof fn lemma_bits_value_step(data: Seq<u8>, at: int, count: nat)
    ensures
        bits_value(data, at, 0) == 0,
        bits_value(data, at, count + 1) == 2 * bits_value(data, at, count) + bit(data, at + count),
        0 <= bit(data, at + count) <= 1,
{
}

/// A literal prefix is one byte, and the stream goes on behind it.
pub proof fn law_literal_tokens_are_one_byte(
    data: Seq<u8>,
    at: int,
    end: int,
    start: nat,
    written: nat,
    length: u8,
)
    requires
        0 <= at < end,
        token(data, at, end) == (Token::Literal { length }),
        0 < length,
        at + length <= end,
        written < isize::MAX / 2,
    ensures
        stream_extent(data, at, end, start, written) == stream_extent(
            data,
            at + length,
            end,
            start,
            written + 1,
        ),
{
    reveal(step);
}

/// A copy within reach adds its length: three where a zero bit follows the distance;
/// otherwise as many ones as there are and a zero are followed by one bit more than the
/// ones, and the length is that number and the power of two with as many bits.
pub proof fn law_copies_add_their_length(
    data: Seq<u8>,
    at: int,
    end: int,
    start: nat,
    written: nat,
    length: u8,
    distance_bits: u8,
    base: u32,
    ones_there: nat,
    copied: nat,
)
    requires
        0 <= at < end,
        0 < length,
        token(data, at, end) == (Token::Match { length, distance_bits, base }),
        ({
            let value = at + length;
            let behind = value + distance_bits;
            let distance = base as nat + bits_value(data, value, distance_bits as nat);
            let extra = if ones_there == 0 {
                0
            } else {
                ones_there + 1
            };
            &&& 0 < distance <= 2_500_000
            &&& ones_there < 61
            &&& behind + ones_there + 1 + extra <= end
            &&& forall|i: int| 0 <= i < ones_there ==> bit(data, #[trigger] (behind + i)) == 1
            &&& bit(data, behind + ones_there) == 0
            &&& copied == if ones_there == 0 {
                3
            } else {
                two_to(ones_there + 1) + bits_value(data, behind + ones_there + 1, ones_there + 1)
            }
            &&& written + copied <= isize::MAX / 2
        }),
    ensures
        stream_extent(data, at, end, start, written) == stream_extent(
            data,
            at + length + distance_bits + ones_there + 1 + if ones_there == 0 {
                0
            } else {
                ones_there + 1
            },
            end,
            start,
            written + copied,
        ),
{
    reveal(step);
    let behind = at + length + distance_bits;
    lemma_ones_counted(data, behind, end, ones_there);
}

/// The ones in front of a zero are counted.
proof fn lemma_ones_counted(data: Seq<u8>, at: int, end: int, count: nat)
    requires
        at + count < end,
        forall|i: int| 0 <= i < count ==> bit(data, #[trigger] (at + i)) == 1,
        bit(data, at + count) == 0,
    ensures
        ones(data, at, end) == count,
    decreases count,
{
    if count > 0 {
        assert(bit(data, at + 0) == 1);
        assert forall|i: int| 0 <= i < count - 1 implies bit(data, #[trigger] (at + 1 + i)) == 1 by {
            assert(bit(data, at + (i + 1)) == 1);
        }
        lemma_ones_counted(data, at + 1, end, (count - 1) as nat);
    }
}

/// A run of plain bytes adds as many bytes as its fifteen bits say; they begin at the next
/// whole byte.
pub proof fn law_runs_add_their_bytes(
    data: Seq<u8>,
    at: int,
    end: int,
    start: nat,
    written: nat,
    next: int,
)
    requires
        0 <= at < end,
        token(data, at, end) == (Token::Match { length: 5, distance_bits: 5, base: 0 }),
        bits_value(data, at + 5, 5) == 0,
        next % 8 == 0,
        at + 25 <= next < at + 33,
        next + 8 * bits_value(data, at + 10, 15) <= end,
        written + bits_value(data, at + 10, 15) <= isize::MAX / 2,
    ensures
        stream_extent(data, at, end, start, written) == stream_extent(
            data,
            next + 8 * bits_value(data, at + 10, 15),
            end,
            start,
            written + bits_value(data, at + 10, 15),
        ),
{
    reveal(step);
    assert((at + 10 + 15 + 7) / 8 * 8 == next);
}

/// A compressed segment is a token stream in the bits of its bytes but the first and the
/// last one, of which the last byte says how many are not used.
pub proof fn law_compressed_segment_is_a_stream(segment: Seq<u8>, start: nat, written: nat)
    requires
        segment.len() > 1,
        segment[0] / 32 % 2 == 1,
        8 * (segment.len() - 1) <= usize::MAX / 8,
    ensures
        segment.last() <= 8 * (segment.len() - 2) ==> segment_extent(segment, start, written)
            == stream_extent(
            segment.skip(1),
            0,
            8 * (segment.len() - 2) - segment.last(),
            start,
            written,
        ),
        segment.last() > 8 * (segment.len() - 2) ==> segment_extent(segment, start, written) is None,
{
    assert(segment.skip(1).last() == segment.last());
}

/// Segments in bytes, each behind its size.
pub open spec fn listed(list: Seq<Seq<u8>>) -> Seq<u8>
    decreases list.len(),
{
    if list.len() == 0 {
        Seq::empty()
    } else {
        crate::bytes::le_bytes(list[0].len(), 4) + list[0] + listed(list.skip(1))
    }
}

/// The segments of a payload are read back from it: one alone, and any list of them behind
/// its count and the size that they unfold to.
pub proof fn law_segments_read_back(list: Seq<Seq<u8>>, size: u32)
    requires
        list.len() <= 0xffff,
        forall|i: int|
            0 <= i < list.len() ==> 0 < (#[trigger] list[i]).len() <= 0xffff_ffff && list[i][0] % 16
                == 4,
    ensures
        segments(
            seq![0xe1u8] + crate::bytes::le_bytes(list.len(), 2) + crate::bytes::le_bytes(
                size as nat,
                4,
            ) + listed(list),
        ) == Some(list),
        list.len() == 1 ==> segments(seq![0xe0u8] + list[0]) == Some(list),
{
    let head = seq![0xe1u8] + crate::bytes::le_bytes(list.len(), 2) + crate::bytes::le_bytes(
        size as nat,
        4,
    );
    let payload = head + listed(list);
    crate::bytes::lemma_le_ranges();
    crate::bytes::lemma_le_bytes_len(list.len(), 2);
    crate::bytes::lemma_le_bytes_len(size as nat, 4);
    crate::bytes::law_le_bytes_read_back(list.len(), 2);
    assert(payload.subrange(1, 3) =~= crate::bytes::le_bytes(list.len(), 2));
    lemma_list_reads_back(head, list);
    if list.len() == 1 {
        let single = seq![0xe0u8] + list[0];
        assert(single.skip(1) =~= list[0]);
        assert(0 < list[0].len());
        assert(seq![list[0]] =~= list);
    }
}

/// A list of segments is read back from behind `head`.
proof fn lemma_list_reads_back(head: Seq<u8>, list: Seq<Seq<u8>>)
    requires
        forall|i: int|
            0 <= i < list.len() ==> 0 < (#[trigger] list[i]).len() <= 0xffff_ffff && list[i][0] % 16
                == 4,
    ensures
        segment_list(head + listed(list), head.len() as int, list.len()) == Some(list),
    decreases list.len(),
{
    let payload = head + listed(list);
    let at = head.len() as int;
    if list.len() == 0 {
        assert(list =~= Seq::<Seq<u8>>::empty());
    } else {
        let segment = list[0];
        let rest = list.skip(1);
        let size = crate::bytes::le_bytes(segment.len(), 4);
        assert(0 < segment.len());
        crate::bytes::lemma_le_ranges();
        crate::bytes::lemma_le_bytes_len(segment.len(), 4);
        crate::bytes::law_le_bytes_read_back(segment.len(), 4);
        assert(payload.subrange(at, at + 4) =~= size);
        assert(payload.subrange(at + 4, at + 4 + segment.len()) =~= segment);
        let longer = head + size + segment;
        assert(longer + listed(rest) =~= payload);
        assert forall|i: int| 0 <= i < rest.len() implies 0 < (#[trigger] rest[i]).len()
            <= 0xffff_ffff && rest[i][0] % 16 == 4 by {
            assert(rest[i] == list[i + 1]);
        }
        lemma_list_reads_back(longer, rest);
        assert(seq![segment] + rest =~= list);
    }
}

/// A payload unfolds to what its segments unfold to, from nothing on; bytes that are no
/// segments unfold to nothing.
pub proof fn law_payload_is_its_segments(payload: Seq<u8>, start: nat)
    ensures
        match segments(payload) {
            Some(list) => extent(payload, start) == segments_extent(list, start, 0),
            None => extent(payload, start) is None,
        },
        payload.len() > 0 && payload[0] != 0xe0 && payload[0] != 0xe1 ==> segments(payload) is None,
        payload.len() == 0 ==> segments(payload) is None,
{
}

} // verus!
