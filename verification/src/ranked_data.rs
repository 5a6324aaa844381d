//! The checks that published ranked champion data must pass before it
//! replaces the cached snapshot: format version `1`, percentages from `0` to
//! `100`, no champion listed twice for one lane, and every lane present.
//!
//! Rates are percentages in tenths, as everywhere in the ranked statistics.

use vstd::prelude::*;

use crate::errors::RankedChampionDataError;
use crate::ranked::{RankedChampionLane, RankedChampionStat};

verus! {

/// The format version of the published data that this library reads.
pub const RANKED_DATA_FORMAT_VERSION: i64 = 1;

pub open spec fn valid_rate(rate: i64) -> bool {
    0 <= rate <= 1000
}

pub open spec fn has_valid_rates(record: RankedChampionStat) -> bool {
    valid_rate(record.win_rate) && valid_rate(record.pick_rate) && valid_rate(record.ban_rate)
}

pub open spec fn has_bad_rate(records: Seq<RankedChampionStat>) -> bool {
    exists|i: int| 0 <= i < records.len() && !has_valid_rates(#[trigger] records[i])
}

pub open spec fn same_row(a: RankedChampionStat, b: RankedChampionStat) -> bool {
    a.champion_id == b.champion_id && a.lane == b.lane
}

pub open spec fn has_duplicate_row(records: Seq<RankedChampionStat>) -> bool {
    exists|i: int, j: int|
        0 <= i < j < records.len() && #[trigger] same_row(records[i], records[j])
}

pub open spec fn lane_present(records: Seq<RankedChampionStat>, lane: RankedChampionLane) -> bool {
    exists|i: int| 0 <= i < records.len() && (#[trigger] records[i]).lane == lane
}

pub open spec fn all_lanes_present(records: Seq<RankedChampionStat>) -> bool {
    &&& lane_present(records, RankedChampionLane::Top)
    &&& lane_present(records, RankedChampionLane::Jungle)
    &&& lane_present(records, RankedChampionLane::Middle)
    &&& lane_present(records, RankedChampionLane::Bottom)
    &&& lane_present(records, RankedChampionLane::Support)
}

pub open spec fn unsupported_version_message() -> Seq<char> {
    "Ranked champion data uses an unsupported format version"@
}

pub open spec fn bad_rate_message() -> Seq<char> {
    "Ranked champion data has a percentage outside 0 to 100"@
}

pub open spec fn duplicate_row_message() -> Seq<char> {
    "Ranked champion data lists a champion twice for one lane"@
}

pub open spec fn missing_lane_message() -> Seq<char> {
    "Ranked champion data has no entry for some lane"@
}

/// The first check that the data fails, by its message; none when it passes.
pub open spec fn spec_ranked_data_error(format_version: i64, records: Seq<RankedChampionStat>) -> Option<
    Seq<char>,
> {
    if format_version != RANKED_DATA_FORMAT_VERSION {
        Some(unsupported_version_message())
    } else if has_bad_rate(records) {
        Some(bad_rate_message())
    } else if has_duplicate_row(records) {
        Some(duplicate_row_message())
    } else if !all_lanes_present(records) {
        Some(missing_lane_message())
    } else {
        None
    }
}

fn lane_index(lane: RankedChampionLane) -> (r: usize)
    ensures
        r < 5,
        r == match lane {
            RankedChampionLane::Top => 0usize,
            RankedChampionLane::Jungle => 1usize,
            RankedChampionLane::Middle => 2usize,
            RankedChampionLane::Bottom => 3usize,
            RankedChampionLane::Support => 4usize,
        },
{
    match lane {
        RankedChampionLane::Top => 0,
        RankedChampionLane::Jungle => 1,
        RankedChampionLane::Middle => 2,
        RankedChampionLane::Bottom => 3,
        RankedChampionLane::Support => 4,
    }
}

pub open spec fn lane_of_index(k: int) -> RankedChampionLane {
    if k == 0 {
        RankedChampionLane::Top
    } else if k == 1 {
        RankedChampionLane::Jungle
    } else if k == 2 {
        RankedChampionLane::Middle
    } else if k == 3 {
        RankedChampionLane::Bottom
    } else {
        RankedChampionLane::Support
    }
}

/// Whether record `i` repeats the champion and lane of an earlier record.
fn repeats_earlier(records: &Vec<RankedChampionStat>, i: usize) -> (r: bool)
    requires
        i < records@.len(),
    ensures
        r == exists|j: int| 0 <= j < i && #[trigger] same_row(records@[j], records@[i as int]),
{
    let mut j: usize = 0;
    while j < i
        invariant
            i < records@.len(),
            j <= i,
            forall|k: int| 0 <= k < j ==> !#[trigger] same_row(records@[k], records@[i as int]),
        decreases i - j,
    {
        if records[j].champion_id == records[i].champion_id && records[j].lane == records[i].lane {
            assert(same_row(records@[j as int], records@[i as int]));
            return true;
        }
        j = j + 1;
    }
    false
}

/// The check that published ranked champion data fails first, as the error
/// the refresh reports; none when the data can be used.
pub fn ranked_data_error(format_version: i64, records: &Vec<RankedChampionStat>) -> (r: Option<
    RankedChampionDataError,
>)
    ensures
        match spec_ranked_data_error(format_version, records@) {
            None => r is None,
            Some(m) => r matches Some(RankedChampionDataError::InvalidData(s)) && s@ == m,
        },
{
    if format_version != RANKED_DATA_FORMAT_VERSION {
        return Some(
            RankedChampionDataError::InvalidData(
                "Ranked champion data uses an unsupported format version".to_owned(),
            ),
        );
    }
    let mut i: usize = 0;
    while i < records.len()
        invariant
            i <= records@.len(),
            format_version == RANKED_DATA_FORMAT_VERSION,
            forall|k: int| 0 <= k < i ==> has_valid_rates(#[trigger] records@[k]),
        decreases records@.len() - i,
    {
        let rec = &records[i];
        if !(0 <= rec.win_rate && rec.win_rate <= 1000 && 0 <= rec.pick_rate && rec.pick_rate
            <= 1000 && 0 <= rec.ban_rate && rec.ban_rate <= 1000) {
            assert(!has_valid_rates(records@[i as int]));
            assert(has_bad_rate(records@));
            return Some(
                RankedChampionDataError::InvalidData(
                    "Ranked champion data has a percentage outside 0 to 100".to_owned(),
                ),
            );
        }
        i = i + 1;
    }
    assert(!has_bad_rate(records@));
    let mut seen: Vec<bool> = vec![false, false, false, false, false];
    i = 0;
    while i < records.len()
        invariant
            i <= records@.len(),
            !has_bad_rate(records@),
            format_version == RANKED_DATA_FORMAT_VERSION,
            seen@.len() == 5,
            forall|a: int, b: int| 0 <= a < b < i ==> !#[trigger] same_row(records@[a], records@[b]),
            forall|k: int|
                0 <= k < 5 ==> (#[trigger] seen@[k] <==> exists|t: int|
                    0 <= t < i && (#[trigger] records@[t]).lane == lane_of_index(k)),
        decreases records@.len() - i,
    {
        if repeats_earlier(records, i) {
            assert(has_duplicate_row(records@));
            return Some(
                RankedChampionDataError::InvalidData(
                    "Ranked champion data lists a champion twice for one lane".to_owned(),
                ),
            );
        }
        let k = lane_index(records[i].lane);
        seen.set(k, true);
        proof {
            assert forall|kk: int|
                0 <= kk < 5 implies (#[trigger] seen@[kk] <==> exists|t: int|
                0 <= t < i + 1 && (#[trigger] records@[t]).lane == lane_of_index(kk)) by {
                if seen@[kk] && kk != k {
                    let t = choose|t: int| 0 <= t < i && (#[trigger] records@[t]).lane == lane_of_index(kk);
                    assert(0 <= t < i + 1);
                }
                if kk == k {
                    assert(records@[i as int].lane == lane_of_index(kk));
                }
            }
        }
        i = i + 1;
    }
    assert(!has_duplicate_row(records@));
    proof {
        assert(seen@[0] == lane_present(records@, RankedChampionLane::Top));
        assert(seen@[1] == lane_present(records@, RankedChampionLane::Jungle));
        assert(seen@[2] == lane_present(records@, RankedChampionLane::Middle));
        assert(seen@[3] == lane_present(records@, RankedChampionLane::Bottom));
        assert(seen@[4] == lane_present(records@, RankedChampionLane::Support));
    }
    if !(seen[0] && seen[1] && seen[2] && seen[3] && seen[4]) {
        return Some(
            RankedChampionDataError::InvalidData(
                "Ranked champion data has no entry for some lane".to_owned(),
            ),
        );
    }
    None
}

} // verus!
