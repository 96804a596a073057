//! Recurring events: from a rule and its anchor to the occurrences inside a
//! window, and from the occurrences to the slots that they open.

use crate::error::CaldavError;
use crate::error::CaldavResult;
use crate::error::ErrorView;
use crate::format::is_valid_instant;
use crate::format::valid_instant;
use crate::format::MAX_INSTANT;
use crate::format::MIN_INSTANT;
use crate::slots::mark_span;
use crate::slots::new_matrix;
use crate::slots::span_covers;
use crate::slots::whole_minutes;
use crate::slots::MIN_GRANULARITY;
use chrono::TimeZone;
use vstd::prelude::*;

verus! {

/// The most occurrences that one expansion of a rule returns.
pub const MAX_OCCURRENCES: u16 = 100;

/// The starts of the occurrences that the rule `rule`, anchored at `anchor`,
/// has from `after` to `before`, both included, the first `cap` of them at
/// most; `None` where the rule cannot be read or is not valid for its anchor.
pub uninterp spec fn rule_occurrences(
    rule: Seq<char>,
    anchor: int,
    after: int,
    before: int,
    cap: int,
) -> Option<Seq<i64>>;

/// The rule is read by `str::parse` into an `rrule::RRule`, built into an
/// `rrule::RRuleSet` on the anchor in UTC by `RRule::build`, limited by
/// `RRuleSet::after` and `RRuleSet::before`, and expanded by `RRuleSet::all`.
/// Claimed of the result: it fails exactly where the parser or the validation
/// refuses the rule; no more than `cap` starts come back; each of them lies
/// from `after` to `before`, both included; and the same arguments always give
/// the same starts. On the last point: an `UNTIL` without a zone is read in
/// the zone of the machine, but a rule with such an `UNTIL` is refused for
/// every anchor in UTC, so no start that comes back depends on the machine.
#[verifier::external_body]
fn rrule_between(rule: &str, anchor: i64, after: i64, before: i64, cap: u16) -> (r: Result<
    Vec<i64>,
    rrule::RRuleError,
>)
    requires
        valid_instant(anchor as int),
        MIN_INSTANT - 1 <= after <= MAX_INSTANT + 1,
        MIN_INSTANT - 1 <= before <= MAX_INSTANT + 1,
    ensures
        r is Ok <==> rule_occurrences(
            rule@,
            anchor as int,
            after as int,
            before as int,
            cap as int,
        ) is Some,
        r matches Ok(starts) ==> rule_occurrences(
            rule@,
            anchor as int,
            after as int,
            before as int,
            cap as int,
        ) == Some(starts@) && starts@.len() <= cap && forall|k: int|
            0 <= k < starts@.len() ==> after <= #[trigger] starts@[k] <= before,
{
    let unvalidated: rrule::RRule<rrule::Unvalidated> = rule.parse()?;
    let set = unvalidated.build(rrule::Tz::UTC.timestamp_opt(anchor, 0).unwrap())?;
    let set = set.after(rrule::Tz::UTC.timestamp_opt(after, 0).unwrap());
    let set = set.before(rrule::Tz::UTC.timestamp_opt(before, 0).unwrap());
    let (dates, _) = set.all(cap);
    Ok(dates.iter().map(|date| date.timestamp()).collect())
}

/// The first instant that is looked at for an occurrence in a window that
/// starts at `window_start`: the instant after the start, but none before the
/// year 0000.
pub open spec fn first_inside(window_start: int) -> int {
    if window_start < MIN_INSTANT {
        MIN_INSTANT as int
    } else if window_start >= MAX_INSTANT {
        MAX_INSTANT + 1
    } else {
        window_start + 1
    }
}

/// The last instant that is looked at for an occurrence in a window that ends
/// at `window_end`: the instant before the end, but none after the year 9999.
pub open spec fn last_inside(window_end: int) -> int {
    if window_end > MAX_INSTANT {
        MAX_INSTANT as int
    } else if window_end <= MIN_INSTANT {
        MIN_INSTANT - 1
    } else {
        window_end - 1
    }
}

/// What `expand` returns for its arguments: the starts that the rule has
/// strictly inside the window, or the error.
pub open spec fn expanded(
    anchor_start: int,
    rule: Seq<char>,
    window_start: int,
    window_end: int,
    cap: int,
) -> Result<Seq<i64>, ErrorView> {
    if !valid_instant(anchor_start) {
        Err(ErrorView::InstantOutOfRange)
    } else {
        match rule_occurrences(
            rule,
            anchor_start,
            first_inside(window_start),
            last_inside(window_end),
            if first_inside(window_start) > last_inside(window_end) {
                0
            } else {
                cap
            },
        ) {
            Some(starts) => Ok(starts),
            None => Err(ErrorView::RRule),
        }
    }
}

/// The starts of the occurrences of a recurring event that lie strictly after
/// the start of the window and strictly before its end, `cap` of them at most.
/// Occurrences are looked for in the years 0000 to 9999 only, the years that
/// iCalendar can write; a window may reach beyond them. Where no such instant
/// lies strictly inside the window, the rule is read and held against its
/// anchor, but no occurrence is asked for. Fails where the rule cannot be read
/// or is not valid for its anchor, and where the anchor itself lies outside
/// these years.
pub fn expand(anchor_start: i64, rule: &str, window_start: i64, window_end: i64, cap: u16) -> (r:
    CaldavResult<Vec<i64>>)
    ensures
        match expanded(
            anchor_start as int,
            rule@,
            window_start as int,
            window_end as int,
            cap as int,
        ) {
            Ok(starts) => r matches Ok(found) && found@ == starts,
            Err(kind) => r matches Err(e) && e@ == kind,
        },
        r matches Ok(found) ==> found@.len() <= cap && forall|k: int|
            0 <= k < found@.len() ==> window_start < #[trigger] found@[k] < window_end
                && valid_instant(found@[k] as int),
        window_end <= window_start + 1 ==> (r matches Ok(found) ==> found@.len() == 0),
{
    if !is_valid_instant(anchor_start) {
        return Err(CaldavError::InstantOutOfRange);
    }
    let after = if window_start < MIN_INSTANT {
        MIN_INSTANT
    } else if window_start >= MAX_INSTANT {
        MAX_INSTANT + 1
    } else {
        window_start + 1
    };
    let before = if window_end > MAX_INSTANT {
        MAX_INSTANT
    } else if window_end <= MIN_INSTANT {
        MIN_INSTANT - 1
    } else {
        window_end - 1
    };
    let limit = if after > before {
        0
    } else {
        cap
    };
    match rrule_between(rule, anchor_start, after, before, limit) {
        Ok(starts) => Ok(starts),
        Err(e) => Err(CaldavError::RRule(e)),
    }
}

/// Whether the occurrence that starts at `start` and lasts `duration` opens
/// slot `i`: it does where it is not degenerate, ends after the origin of
/// the matrix, and covers the slot.
pub open spec fn occurrence_marks(
    start: int,
    duration: int,
    origin: int,
    granularity: int,
    num_slots: int,
    i: int,
) -> bool {
    duration > 0 && start + duration > origin && span_covers(
        origin,
        granularity,
        num_slots,
        start,
        start + duration,
        i,
    )
}

/// Whether one of the first `upto` occurrences opens slot `i`.
pub open spec fn occurrences_cover(
    starts: Seq<i64>,
    upto: int,
    duration: int,
    origin: int,
    granularity: int,
    num_slots: int,
    i: int,
) -> bool {
    exists|k: int|
        0 <= k < upto && #[trigger] occurrence_marks(
            starts[k] as int,
            duration,
            origin,
            granularity,
            num_slots,
            i,
        )
}

/// The matrix of a recurring event: open where one of its occurrences is.
pub open spec fn occurrences_matrix(
    starts: Seq<i64>,
    duration: int,
    origin: int,
    granularity: int,
    num_slots: int,
) -> Seq<bool> {
    Seq::new(
        num_slots as nat,
        |i: int|
            occurrences_cover(
                starts,
                starts.len() as int,
                duration,
                origin,
                granularity,
                num_slots,
                i,
            ),
    )
}

/// The matrix of `num_slots` slots from `origin` on that is open where one of
/// the occurrences is: each starts at one of `starts` and lasts `duration`.
/// An occurrence that does not end after it starts, or that ends at or before
/// `origin`, opens nothing.
pub fn occurrence_matrix(
    starts: &Vec<i64>,
    duration: i64,
    origin: i64,
    granularity: i64,
    num_slots: usize,
) -> (matrix: Vec<bool>)
    requires
        granularity >= MIN_GRANULARITY,
        forall|k: int| 0 <= k < starts@.len() ==> #[trigger] starts@[k] + duration <= i64::MAX,
    ensures
        matrix@ == occurrences_matrix(
            starts@,
            duration as int,
            origin as int,
            granularity as int,
            num_slots as int,
        ),
{
    let mut matrix = new_matrix(num_slots);
    let mut k: usize = 0;
    while k < starts.len()
        invariant
            k <= starts@.len(),
            granularity >= MIN_GRANULARITY,
            matrix@.len() == num_slots,
            forall|j: int| 0 <= j < starts@.len() ==> #[trigger] starts@[j] + duration <= i64::MAX,
            forall|i: int|
                0 <= i < num_slots ==> matrix@[i] == occurrences_cover(
                    starts@,
                    k as int,
                    duration as int,
                    origin as int,
                    granularity as int,
                    num_slots as int,
                    i,
                ),
        decreases starts@.len() - k,
    {
        let start = starts[k];
        if duration > 0 {
            let end = start + duration;
            if end > origin {
                mark_span(&mut matrix, origin, granularity, start, end);
            }
        }
        assert forall|i: int| 0 <= i < num_slots implies matrix@[i] == occurrences_cover(
            starts@,
            k + 1,
            duration as int,
            origin as int,
            granularity as int,
            num_slots as int,
            i,
        ) by {
            assert(occurrence_marks(
                starts@[k as int] as int,
                duration as int,
                origin as int,
                granularity as int,
                num_slots as int,
                i,
            ) ==> occurrences_cover(
                starts@,
                k + 1,
                duration as int,
                origin as int,
                granularity as int,
                num_slots as int,
                i,
            ));
        }
        k = k + 1;
    }
    assert(matrix@ =~= occurrences_matrix(
        starts@,
        duration as int,
        origin as int,
        granularity as int,
        num_slots as int,
    ));
    matrix
}

/// Whether slot `i` is one of the two half hours of the second hour of day
/// `day` of a window.
pub open spec fn second_hour_of_day(day: int, i: int) -> bool {
    i == 48 * day + 2 || i == 48 * day + 3
}

/// An event of one hour that starts an hour after the window does and
/// recurs on each of the first `count` days of a window of `days` days opens,
/// in slots of half an hour, the two slots of the second hour of each of these
/// days and no other.
pub proof fn lemma_daily_hour(starts: Seq<i64>, origin: int, days: int, count: int)
    requires
        0 <= count <= days,
        starts.len() == count,
        forall|day: int| 0 <= day < count ==> #[trigger] starts[day] == origin + 3600 + 86400 * day,
    ensures
        occurrences_matrix(starts, 3600, origin, 1800, 48 * days).len() == 48 * days,
        forall|i: int|
            0 <= i < 48 * days ==> #[trigger] occurrences_matrix(
                starts,
                3600,
                origin,
                1800,
                48 * days,
            )[i] == (exists|day: int| 0 <= day < count && #[trigger] second_hour_of_day(day, i)),
{
    let n = 48 * days;
    assert forall|day: int, i: int| 0 <= day < count implies #[trigger] occurrence_marks(
        starts[day] as int,
        3600,
        origin,
        1800,
        n,
        i,
    ) == second_hour_of_day(day, i) by {
        let at = origin + 3600 + 86400 * day;
        assert(starts[day] == at);
        assert(whole_minutes(at - origin) == 60 + 1440 * day);
        assert(whole_minutes(at + 3600 - origin) == 120 + 1440 * day);
        assert(whole_minutes(1800) == 30);
        assert((60 + 1440 * day) / 30 == 2 + 48 * day);
        assert((120 + 1440 * day) / 30 == 4 + 48 * day);
    }
    assert forall|i: int| 0 <= i < n implies #[trigger] occurrences_matrix(
        starts,
        3600,
        origin,
        1800,
        n,
    )[i] == (exists|day: int| 0 <= day < count && #[trigger] second_hour_of_day(day, i)) by {
        if occurrences_cover(starts, count, 3600, origin, 1800, n, i) {
            let day = choose|day: int|
                0 <= day < count && #[trigger] occurrence_marks(
                    starts[day] as int,
                    3600,
                    origin,
                    1800,
                    n,
                    i,
                );
            assert(second_hour_of_day(day, i));
        }
        if exists|day: int| 0 <= day < count && #[trigger] second_hour_of_day(day, i) {
            let day = choose|day: int| 0 <= day < count && #[trigger] second_hour_of_day(day, i);
            assert(occurrence_marks(starts[day] as int, 3600, origin, 1800, n, i));
        }
    }
}

} // verus!
