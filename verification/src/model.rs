//! Shared model types: time-control classes, game identifiers, outcome
//! statistics, and the variable-length unsigned integer primitive used by
//! the header codec for large game counts.

use vstd::prelude::*;

verus! {

/// The six time-control classes, ordered from fastest to slowest. Wire
/// codes start at 1: code 0 is reserved for the sequence terminator.
#[derive(Copy, Clone, Debug, PartialEq, Eq, Structural)]
pub enum Speed {
    UltraBullet,
    Bullet,
    Blitz,
    Rapid,
    Classical,
    Correspondence,
}

/// The wire code of a speed, 1 through 6.
pub open spec fn speed_code(s: Speed) -> u8 {
    match s {
        Speed::UltraBullet => 1,
        Speed::Bullet => 2,
        Speed::Blitz => 3,
        Speed::Rapid => 4,
        Speed::Classical => 5,
        Speed::Correspondence => 6,
    }
}

/// The speed denoted by a wire code in 1..=6.
pub open spec fn speed_from_code(c: u8) -> Speed
    recommends
        1 <= c <= 6,
{
    if c == 1 {
        Speed::UltraBullet
    } else if c == 2 {
        Speed::Bullet
    } else if c == 3 {
        Speed::Blitz
    } else if c == 4 {
        Speed::Rapid
    } else if c == 5 {
        Speed::Classical
    } else {
        Speed::Correspondence
    }
}

pub proof fn lemma_speed_code_inverse(s: Speed)
    ensures
        1 <= speed_code(s) <= 6,
        speed_from_code(speed_code(s)) == s,
{
}

/// An opaque identifier correlating a sampled reference back to its source
/// game; the codec treats it as an uninterpreted token.
#[derive(Clone, Debug, PartialEq, Eq, Hash)]
pub struct GameId(pub String);

/// Aggregated outcome counts for one cell. Counts combine pointwise with
/// saturating addition, which keeps the combine operation total,
/// associative and commutative, with the all-zero value as identity.
#[derive(Copy, Clone, Debug, PartialEq, Eq, Structural)]
pub struct Stats {
    pub white: u64,
    pub draws: u64,
    pub black: u64,
}

/// Saturating addition on u64 counts.
pub open spec fn sat_add(a: u64, b: u64) -> u64 {
    if a + b > u64::MAX {
        u64::MAX
    } else {
        (a + b) as u64
    }
}

/// The all-zero statistics value, the identity of `stats_plus`.
pub open spec fn stats_empty() -> Stats {
    Stats { white: 0, draws: 0, black: 0 }
}

/// Pointwise saturating combination of two statistics values.
pub open spec fn stats_plus(a: Stats, b: Stats) -> Stats {
    Stats {
        white: sat_add(a.white, b.white),
        draws: sat_add(a.draws, b.draws),
        black: sat_add(a.black, b.black),
    }
}

impl Default for Stats {
    fn default() -> (r: Stats)
        ensures
            r == stats_empty(),
    {
        Stats { white: 0, draws: 0, black: 0 }
    }
}

impl Stats {
    /// Fold the counts of `rhs` into `self`, saturating at `u64::MAX`.
    pub fn add_assign(&mut self, rhs: Stats)
        ensures
            *final(self) == stats_plus(*old(self), rhs),
    {
        self.white = sat_add_exec(self.white, rhs.white);
        self.draws = sat_add_exec(self.draws, rhs.draws);
        self.black = sat_add_exec(self.black, rhs.black);
    }
}

fn sat_add_exec(a: u64, b: u64) -> (r: u64)
    ensures
        r == sat_add(a, b),
{
    if a > u64::MAX - b {
        u64::MAX
    } else {
        a + b
    }
}

/// The identity law: combining with the all-zero value changes nothing.
pub proof fn lemma_stats_plus_identity(a: Stats)
    ensures
        stats_plus(a, stats_empty()) == a,
        stats_plus(stats_empty(), a) == a,
{
}

/// The combine operation is commutative.
pub proof fn lemma_stats_plus_comm(a: Stats, b: Stats)
    ensures
        stats_plus(a, b) == stats_plus(b, a),
{
}

/// The combine operation is associative.
pub proof fn lemma_stats_plus_assoc(a: Stats, b: Stats, c: Stats)
    ensures
        stats_plus(stats_plus(a, b), c) == stats_plus(a, stats_plus(b, c)),
{
}

/// A decoding failure: either the input ended inside a record, or a
/// reserved code appeared in a bit field.
#[derive(Copy, Clone, Debug, PartialEq, Eq, Structural)]
pub enum DecodeError {
    UnexpectedEnd,
    InvalidData,
}

/// The outcome of parsing a prefix of a byte sequence: a value together
/// with the number of bytes it occupies, or a failure.
pub enum ParseOutcome<T> {
    Value(T, int),
    Incomplete,
    Invalid,
}

/// The byte encoding of an unsigned 64-bit integer: seven value bits per
/// byte, least significant first, high bit set on every byte but the last.
pub open spec fn uint_bytes(n: u64) -> Seq<u8>
    decreases n,
{
    if n < 0x80 {
        seq![n as u8]
    } else {
        seq![(0x80 + n % 0x80) as u8] + uint_bytes((n / 0x80) as u64)
    }
}

/// The mathematical decoder matching `uint_bytes`: reads continuation
/// bytes until one with a clear high bit, rejecting values that do not fit
/// in 64 bits.
pub open spec fn parse_uint(s: Seq<u8>) -> ParseOutcome<u64>
    decreases s.len(),
{
    if s.len() == 0 {
        ParseOutcome::Incomplete
    } else if s[0] < 0x80 {
        ParseOutcome::Value(s[0] as u64, 1)
    } else {
        match parse_uint(s.skip(1)) {
            ParseOutcome::Value(v, k) => {
                if (s[0] - 0x80) + 0x80 * v <= u64::MAX {
                    ParseOutcome::Value(((s[0] - 0x80) + 0x80 * v) as u64, 1 + k)
                } else {
                    ParseOutcome::<u64>::Invalid
                }
            },
            ParseOutcome::Incomplete => ParseOutcome::Incomplete,
            ParseOutcome::Invalid => ParseOutcome::Invalid,
        }
    }
}

/// Append the variable-length encoding of `n` to `buf`.
pub fn write_uint(buf: &mut Vec<u8>, n: u64)
    ensures
        final(buf)@ == old(buf)@ + uint_bytes(n),
    decreases n,
{
    if n < 0x80 {
        buf.push(n as u8);
        assert(final(buf)@ =~= old(buf)@ + uint_bytes(n));
    } else {
        buf.push((0x80 + n % 0x80) as u8);
        write_uint(buf, n / 0x80);
        assert(final(buf)@ =~= old(buf)@ + uint_bytes(n));
    }
}

/// Decode a variable-length unsigned integer starting at `pos`, returning
/// the value and the number of bytes consumed.
pub fn read_uint(buf: &Vec<u8>, pos: usize) -> (r: Result<(u64, usize), DecodeError>)
    requires
        pos <= buf@.len(),
    ensures
        (match r {
            Ok((v, used)) => parse_uint(buf@.skip(pos as int)) == ParseOutcome::Value(v, used as int)
                && 1 <= used && pos + used <= buf@.len(),
            Err(DecodeError::UnexpectedEnd) => parse_uint(buf@.skip(pos as int)) is Incomplete,
            Err(DecodeError::InvalidData) => parse_uint(buf@.skip(pos as int)) is Invalid,
        }),
    decreases buf@.len() - pos,
{
    if pos == buf.len() {
        return Err(DecodeError::UnexpectedEnd);
    }
    let b = buf[pos];
    if b < 0x80 {
        Ok((b as u64, 1))
    } else {
        proof {
            assert(buf@.skip(pos as int).skip(1) =~= buf@.skip(pos as int + 1));
        }
        match read_uint(buf, pos + 1) {
            Err(e) => Err(e),
            Ok((v, used)) => {
                let low = (b - 0x80) as u64;
                if v <= (u64::MAX - low) / 0x80 {
                    proof {
                        lemma_div_bound(v, (u64::MAX - low) as u64);
                    }
                    Ok((low + v * 0x80, used + 1))
                } else {
                    proof {
                        lemma_div_bound_rev(v, (u64::MAX - low) as u64);
                    }
                    Err(DecodeError::InvalidData)
                }
            },
        }
    }
}

/// For nonnegative x: v <= x / 0x80 implies 0x80 * v <= x.
proof fn lemma_div_bound(v: u64, x: u64)
    by (nonlinear_arith)
    requires
        v <= x / 0x80,
    ensures
        0x80 * v <= x,
{
}

/// For nonnegative x: v > x / 0x80 implies 0x80 * v > x.
proof fn lemma_div_bound_rev(v: u64, x: u64)
    by (nonlinear_arith)
    requires
        v > x / 0x80,
    ensures
        0x80 * v > x,
{
}

/// Round trip for the integer primitive: parsing a buffer that starts with
/// the encoding of `n` yields `n` and consumes exactly the encoding.
pub proof fn lemma_uint_round_trip(n: u64, rest: Seq<u8>)
    ensures
        parse_uint(uint_bytes(n) + rest) == ParseOutcome::Value(n, uint_bytes(n).len() as int),
    decreases n,
{
    if n < 0x80 {
        assert((uint_bytes(n) + rest)[0] == n as u8);
    } else {
        let b: u8 = (0x80 + n % 0x80) as u8;
        assert((uint_bytes(n) + rest)[0] == b);
        assert((uint_bytes(n) + rest).skip(1) =~= uint_bytes((n / 0x80) as u64) + rest);
        lemma_uint_round_trip((n / 0x80) as u64, rest);
        assert((b - 0x80) + 0x80 * ((n / 0x80) as u64) == n) by {
            vstd::arithmetic::div_mod::lemma_fundamental_div_mod(n as int, 0x80);
        }
    }
}

/// Every encoding is at least one byte long.
pub proof fn lemma_uint_bytes_len(n: u64)
    ensures
        uint_bytes(n).len() >= 1,
{
}

} // verus!
