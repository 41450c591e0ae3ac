//! The per-cell wire format and aggregate: `LichessHeader` packs one
//! (speed, rating group, game count) cell into a marker byte plus an
//! optional variable-length count extension, and `LichessGroup` merges
//! per-cell statistics and sampled game references.

use vstd::prelude::*;
use smallvec::SmallVec;
use crate::model::{
    DecodeError, GameId, ParseOutcome, Speed, Stats, lemma_speed_code_inverse,
    lemma_stats_plus_assoc, lemma_stats_plus_identity, lemma_uint_bytes_len,
    lemma_uint_round_trip, parse_uint, read_uint, speed_code, speed_from_code, stats_empty,
    stats_plus, uint_bytes, write_uint,
};

verus! {

/// The seven rating-band buckets, by monotonically increasing lower bound.
/// Wire codes run 0 through 6.
#[derive(Copy, Clone, Debug, PartialEq, Eq, Structural)]
pub enum RatingGroup {
    Group1600,
    Group1800,
    Group2000,
    Group2200,
    Group2500,
    Group2800,
    Group3200,
}

/// The wire code of a rating group, 0 through 6.
pub open spec fn rating_group_code(r: RatingGroup) -> u8 {
    match r {
        RatingGroup::Group1600 => 0,
        RatingGroup::Group1800 => 1,
        RatingGroup::Group2000 => 2,
        RatingGroup::Group2200 => 3,
        RatingGroup::Group2500 => 4,
        RatingGroup::Group2800 => 5,
        RatingGroup::Group3200 => 6,
    }
}

/// The rating group denoted by a wire code in 0..=6.
pub open spec fn rating_group_from_code(c: u8) -> RatingGroup
    recommends
        c <= 6,
{
    if c == 0 {
        RatingGroup::Group1600
    } else if c == 1 {
        RatingGroup::Group1800
    } else if c == 2 {
        RatingGroup::Group2000
    } else if c == 3 {
        RatingGroup::Group2200
    } else if c == 4 {
        RatingGroup::Group2500
    } else if c == 5 {
        RatingGroup::Group2800
    } else {
        RatingGroup::Group3200
    }
}

pub proof fn lemma_rating_group_code_inverse(r: RatingGroup)
    ensures
        rating_group_code(r) <= 6,
        rating_group_from_code(rating_group_code(r)) == r,
{
}

/// One record of the header stream: either the descriptor of a non-empty
/// cell, or the sequence terminator.
#[derive(Copy, Clone, Debug, PartialEq, Eq, Structural)]
pub enum LichessHeader {
    Group { speed: Speed, rating_group: RatingGroup, num_games: u64 },
    End,
}

/// The value carried by the top two marker bits: the literal count, or 3
/// to signal that the true count follows in an extension field.
pub open spec fn count_marker(num_games: u64) -> u64 {
    if num_games >= 3 {
        3
    } else {
        num_games
    }
}

/// The marker byte: speed code in bits 0-2, rating-group code in bits 3-5,
/// saturating count in bits 6-7.
pub open spec fn marker_byte(speed: Speed, rating_group: RatingGroup, num_games: u64) -> u8 {
    (speed_code(speed) + 8 * rating_group_code(rating_group) + 64 * count_marker(
        num_games,
    )) as u8
}

/// The byte encoding of one header record.
pub open spec fn header_bytes(h: LichessHeader) -> Seq<u8> {
    match h {
        LichessHeader::End => seq![0u8],
        LichessHeader::Group { speed, rating_group, num_games } => {
            if num_games >= 3 {
                seq![marker_byte(speed, rating_group, num_games)] + uint_bytes(num_games)
            } else {
                seq![marker_byte(speed, rating_group, num_games)]
            }
        },
    }
}

/// The mathematical decoder matching `header_bytes`. A leading byte whose
/// low three bits are zero is the terminator; the reserved code 7 in
/// either three-bit field is invalid; count 3 defers to the extension.
pub open spec fn parse_header(s: Seq<u8>) -> ParseOutcome<LichessHeader> {
    if s.len() == 0 {
        ParseOutcome::Incomplete
    } else {
        let n = s[0];
        if n % 8 == 0 {
            ParseOutcome::Value(LichessHeader::End, 1)
        } else if n % 8 == 7 {
            ParseOutcome::Invalid
        } else if (n / 8) % 8 == 7 {
            ParseOutcome::Invalid
        } else {
            let speed = speed_from_code(n % 8);
            let rating_group = rating_group_from_code((n / 8) % 8);
            if n / 64 < 3 {
                ParseOutcome::Value(
                    LichessHeader::Group { speed, rating_group, num_games: (n / 64) as u64 },
                    1,
                )
            } else {
                match parse_uint(s.skip(1)) {
                    ParseOutcome::Value(v, k) => ParseOutcome::Value(
                        LichessHeader::Group { speed, rating_group, num_games: v },
                        1 + k,
                    ),
                    ParseOutcome::Incomplete => ParseOutcome::Incomplete,
                    ParseOutcome::Invalid => ParseOutcome::Invalid,
                }
            }
        }
    }
}

impl LichessHeader {
    /// Append the encoding of this record to `buf`: the marker byte, then,
    /// only for counts of 3 or more, the variable-length true count.
    pub fn write(&self, buf: &mut Vec<u8>)
        ensures
            final(buf)@ == old(buf)@ + header_bytes(*self),
    {
        match *self {
            LichessHeader::End => {
                buf.push(0);
                assert(buf@ =~= old(buf)@ + header_bytes(*self));
            },
            LichessHeader::Group { speed, rating_group, num_games } => {
                let speed_bits: u8 = match speed {
                    Speed::UltraBullet => 1,
                    Speed::Bullet => 2,
                    Speed::Blitz => 3,
                    Speed::Rapid => 4,
                    Speed::Classical => 5,
                    Speed::Correspondence => 6,
                };
                let rating_bits: u8 = match rating_group {
                    RatingGroup::Group1600 => 0,
                    RatingGroup::Group1800 => 1,
                    RatingGroup::Group2000 => 2,
                    RatingGroup::Group2200 => 3,
                    RatingGroup::Group2500 => 4,
                    RatingGroup::Group2800 => 5,
                    RatingGroup::Group3200 => 6,
                };
                let count_bits: u8 = if num_games >= 3 {
                    3
                } else {
                    num_games as u8
                };
                let marker: u8 = speed_bits | (rating_bits << 3) | (count_bits << 6);
                proof {
                    assert(marker == speed_bits + 8 * rating_bits + 64 * count_bits)
                        by (bit_vector)
                        requires
                            speed_bits < 8,
                            rating_bits < 8,
                            count_bits < 4,
                            marker == speed_bits | (rating_bits << 3) | (count_bits << 6),
                    ;
                }
                buf.push(marker);
                if num_games >= 3 {
                    write_uint(buf, num_games);
                }
                assert(buf@ =~= old(buf)@ + header_bytes(*self));
            },
        }
    }

    /// Decode one record starting at `pos`, returning it with the number
    /// of bytes consumed. Fails with `UnexpectedEnd` when the input stops
    /// inside the record and with `InvalidData` on a reserved field code.
    pub fn read(buf: &Vec<u8>, pos: usize) -> (r: Result<(LichessHeader, usize), DecodeError>)
        requires
            pos <= buf@.len(),
        ensures
            (match r {
                Ok((h, used)) => parse_header(buf@.skip(pos as int)) == ParseOutcome::Value(
                    h,
                    used as int,
                ) && 1 <= used && pos + used <= buf@.len(),
                Err(DecodeError::UnexpectedEnd) => parse_header(buf@.skip(pos as int))
                    is Incomplete,
                Err(DecodeError::InvalidData) => parse_header(buf@.skip(pos as int)) is Invalid,
            }),
    {
        if pos == buf.len() {
            return Err(DecodeError::UnexpectedEnd);
        }
        let n = buf[pos];
        proof {
            assert(buf@.skip(pos as int)[0] == n);
            assert(n & 7 == n % 8) by (bit_vector);
            assert((n >> 3) & 7 == (n / 8) % 8) by (bit_vector);
            assert(n >> 6 == n / 64 && n / 64 < 4) by (bit_vector);
        }
        let speed = match n & 7 {
            0 => {
                return Ok((LichessHeader::End, 1));
            },
            1 => Speed::UltraBullet,
            2 => Speed::Bullet,
            3 => Speed::Blitz,
            4 => Speed::Rapid,
            5 => Speed::Classical,
            6 => Speed::Correspondence,
            _ => {
                return Err(DecodeError::InvalidData);
            },
        };
        let rating_group = match (n >> 3) & 7 {
            0 => RatingGroup::Group1600,
            1 => RatingGroup::Group1800,
            2 => RatingGroup::Group2000,
            3 => RatingGroup::Group2200,
            4 => RatingGroup::Group2500,
            5 => RatingGroup::Group2800,
            6 => RatingGroup::Group3200,
            _ => {
                return Err(DecodeError::InvalidData);
            },
        };
        let at_least_num_games = n >> 6;
        if at_least_num_games >= 3 {
            proof {
                assert(buf@.skip(pos as int).skip(1) =~= buf@.skip(pos as int + 1));
            }
            match read_uint(buf, pos + 1) {
                Ok((num_games, used)) => Ok(
                    (LichessHeader::Group { speed, rating_group, num_games }, used + 1),
                ),
                Err(e) => Err(e),
            }
        } else {
            Ok(
                (
                    LichessHeader::Group {
                        speed,
                        rating_group,
                        num_games: at_least_num_games as u64,
                    },
                    1,
                ),
            )
        }
    }
}

/// The three-bit fields of the marker byte recover the packed codes.
pub proof fn lemma_marker_fields(speed: Speed, rating_group: RatingGroup, num_games: u64)
    ensures
        marker_byte(speed, rating_group, num_games) % 8 == speed_code(speed),
        (marker_byte(speed, rating_group, num_games) / 8) % 8 == rating_group_code(rating_group),
        marker_byte(speed, rating_group, num_games) / 64 == count_marker(num_games),
{
    let sc = speed_code(speed);
    let rc = rating_group_code(rating_group);
    let cm = count_marker(num_games) as u8;
    let m = marker_byte(speed, rating_group, num_games);
    lemma_speed_code_inverse(speed);
    lemma_rating_group_code_inverse(rating_group);
    assert(m % 8 == sc && (m / 8) % 8 == rc && m / 64 == cm) by (bit_vector)
        requires
            m == sc + 8 * rc + 64 * cm,
            1 <= sc <= 6,
            rc <= 6,
            cm <= 3,
    ;
}

/// Round trip: a buffer that starts with the encoding of a header parses
/// back to exactly that header, consuming exactly the encoding.
pub proof fn lemma_header_round_trip(h: LichessHeader, rest: Seq<u8>)
    ensures
        parse_header(header_bytes(h) + rest) == ParseOutcome::Value(
            h,
            header_bytes(h).len() as int,
        ),
{
    let s = header_bytes(h) + rest;
    match h {
        LichessHeader::End => {
            assert(s[0] == 0);
        },
        LichessHeader::Group { speed, rating_group, num_games } => {
            let m = marker_byte(speed, rating_group, num_games);
            assert(s[0] == m);
            lemma_marker_fields(speed, rating_group, num_games);
            lemma_speed_code_inverse(speed);
            lemma_rating_group_code_inverse(rating_group);
            if num_games >= 3 {
                assert(s.skip(1) =~= uint_bytes(num_games) + rest);
                lemma_uint_round_trip(num_games, rest);
            }
        },
    }
}

/// The terminator is distinguishable by the leading bits alone: encoding
/// `End` yields exactly the zero byte, a leading byte whose low three bits
/// are zero decodes as `End` whatever its remaining bits hold, and every
/// group encoding starts with a nonzero speed code.
pub proof fn lemma_terminator_distinct(b: u8, rest: Seq<u8>)
    requires
        b % 8 == 0,
    ensures
        header_bytes(LichessHeader::End) == seq![0u8],
        parse_header(seq![b] + rest) == ParseOutcome::Value(LichessHeader::End, 1),
{
    assert((seq![b] + rest)[0] == b);
}

/// Every group encoding has a nonzero leading byte, so no group record can
/// be mistaken for the terminator.
pub proof fn lemma_group_marker_nonzero(h: LichessHeader)
    requires
        h is Group,
    ensures
        header_bytes(h)[0] % 8 != 0,
        header_bytes(h)[0] != 0,
{
    let (speed, rating_group, num_games) = (h->Group_speed, h->Group_rating_group, h->Group_num_games);
    lemma_marker_fields(speed, rating_group, num_games);
    lemma_speed_code_inverse(speed);
}

/// A reserved code is rejected: a leading byte with 7 in its low three
/// bits, or with a nonzero speed code and 7 in bits 3 to 5, is invalid
/// data, for every combination of the remaining bits and input.
pub proof fn lemma_rejects_invalid_codes(b: u8, rest: Seq<u8>)
    requires
        b % 8 == 7 || (b % 8 != 0 && (b / 8) % 8 == 7),
    ensures
        parse_header(seq![b] + rest) is Invalid,
{
    assert((seq![b] + rest)[0] == b);
}

/// The saturation boundary: counts 0 through 2 encode in the marker byte
/// alone; counts of 3 or more take the marker plus at least one extension
/// byte.
pub proof fn lemma_saturation_boundary(speed: Speed, rating_group: RatingGroup, num_games: u64)
    ensures
        num_games < 3 ==> header_bytes(
            LichessHeader::Group { speed, rating_group, num_games },
        ).len() == 1,
        num_games >= 3 ==> header_bytes(
            LichessHeader::Group { speed, rating_group, num_games },
        ).len() >= 2,
{
    if num_games >= 3 {
        lemma_uint_bytes_len(num_games);
    }
}

/// An ordered list of sampled (creation timestamp, game identifier)
/// pairs, held in its small-vector-optimized container. The container is
/// opaque to the verifier, which sees it only through
/// `game_list_contents`.
#[verifier::external_body]
pub struct GameList {
    inner: SmallVec<[(u64, GameId); 1]>,
}

/// The samples a list holds, in order.
pub uninterp spec fn game_list_contents(v: GameList) -> Seq<(u64, GameId)>;

/// Relies on smallvec::SmallVec::new: the constructed vector is empty.
#[verifier::external_body]
fn game_list_new() -> (r: GameList)
    ensures
        game_list_contents(r) == Seq::<(u64, GameId)>::empty(),
{
    GameList { inner: SmallVec::new() }
}

/// Relies on smallvec::SmallVec::push: appends the item at the end.
#[verifier::external_body]
fn game_list_push(v: &mut GameList, timestamp: u64, id: GameId)
    ensures
        game_list_contents(*final(v)) == game_list_contents(*old(v)).push((timestamp, id)),
{
    v.inner.push((timestamp, id));
}

/// Relies on smallvec::SmallVec::extend and SmallVec's IntoIterator: the
/// items of `src` are appended to `dst` in their original order.
#[verifier::external_body]
fn game_list_append(dst: &mut GameList, src: GameList)
    ensures
        game_list_contents(*final(dst)) == game_list_contents(*old(dst)) + game_list_contents(
            src,
        ),
{
    dst.inner.extend(src.inner);
}

/// Relies on smallvec::SmallVec::len: the number of items held.
#[verifier::external_body]
fn game_list_len(v: &GameList) -> (n: usize)
    ensures
        n == game_list_contents(*v).len(),
{
    v.inner.len()
}

/// Relies on indexing through smallvec::SmallVec's Deref to a slice: the
/// item at position `i`.
#[verifier::external_body]
fn game_list_get(v: &GameList, i: usize) -> (r: (u64, GameId))
    requires
        i < game_list_contents(*v).len(),
    ensures
        r == game_list_contents(*v)[i as int],
{
    v.inner[i].clone()
}

impl GameList {
    /// An empty sample list.
    pub fn new() -> (r: GameList)
        ensures
            game_list_contents(r) == Seq::<(u64, GameId)>::empty(),
    {
        game_list_new()
    }

    /// Append one sample at the end.
    pub fn push(&mut self, timestamp: u64, id: GameId)
        ensures
            game_list_contents(*final(self)) == game_list_contents(*old(self)).push(
                (timestamp, id),
            ),
    {
        game_list_push(self, timestamp, id);
    }

    /// The number of samples held.
    pub fn len(&self) -> (n: usize)
        ensures
            n == game_list_contents(*self).len(),
    {
        game_list_len(self)
    }

    /// The sample at position `i`, or `None` past the end.
    pub fn get(&self, i: usize) -> (r: Option<(u64, GameId)>)
        ensures
            i < game_list_contents(*self).len() ==> r == Some(
                game_list_contents(*self)[i as int],
            ),
            i >= game_list_contents(*self).len() ==> r is None,
    {
        if i < game_list_len(self) {
            Some(game_list_get(self, i))
        } else {
            None
        }
    }
}

/// The in-memory aggregate for one (speed, rating group) cell: combined
/// outcome statistics and an ordered list of sampled (creation timestamp,
/// game identifier) pairs.
pub struct LichessGroup {
    pub stats: Stats,
    pub games: GameList,
}

/// The mathematical value of an aggregate: its statistics and the sequence
/// of sampled games.
#[verifier::ext_equal]
pub struct GroupModel {
    pub stats: Stats,
    pub games: Seq<(u64, GameId)>,
}

pub open spec fn group_model(g: LichessGroup) -> GroupModel {
    GroupModel { stats: g.stats, games: game_list_contents(g.games) }
}

/// The empty aggregate: zero counts and no sampled games.
pub open spec fn empty_group_model() -> GroupModel {
    GroupModel { stats: stats_empty(), games: Seq::empty() }
}

/// Merging combines statistics pointwise and concatenates the game lists,
/// left entries first, keeping duplicates.
pub open spec fn merge_model(a: GroupModel, b: GroupModel) -> GroupModel {
    GroupModel { stats: stats_plus(a.stats, b.stats), games: a.games + b.games }
}

impl Default for LichessGroup {
    fn default() -> (r: LichessGroup)
        ensures
            group_model(r) == empty_group_model(),
    {
        LichessGroup { stats: Stats::default(), games: GameList::new() }
    }
}

impl LichessGroup {
    /// Fold `rhs` into `self`: combine the statistics and append `rhs`'s
    /// sampled games after `self`'s, in order and without deduplication.
    pub fn add_assign(&mut self, rhs: LichessGroup)
        ensures
            group_model(*final(self)) == merge_model(
                group_model(*old(self)),
                group_model(rhs),
            ),
    {
        self.stats.add_assign(rhs.stats);
        game_list_append(&mut self.games, rhs.games);
    }
}

/// Merging with the empty aggregate changes nothing, on either side.
pub proof fn lemma_merge_identity(a: GroupModel)
    ensures
        merge_model(a, empty_group_model()) == a,
        merge_model(empty_group_model(), a) == a,
{
    lemma_stats_plus_identity(a.stats);
    assert(a.games + Seq::<(u64, GameId)>::empty() =~= a.games);
    assert(Seq::<(u64, GameId)>::empty() + a.games =~= a.games);
}

/// Merging is associative: statistics combine associatively and game
/// lists concatenate associatively, so folds over any grouping agree.
pub proof fn lemma_merge_assoc(a: GroupModel, b: GroupModel, c: GroupModel)
    ensures
        merge_model(merge_model(a, b), c) == merge_model(a, merge_model(b, c)),
{
    lemma_stats_plus_assoc(a.stats, b.stats, c.stats);
    assert((a.games + b.games) + c.games =~= a.games + (b.games + c.games));
}

} // verus!
