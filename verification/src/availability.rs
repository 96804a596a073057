//! The availability engine: from the events of a calendar to the matrix of
//! its open slots, and from two calendars, one of available and one of booked
//! time, to the slots that are still free.

use crate::error::CaldavError;
use crate::error::CaldavResult;
use crate::error::ErrorView;
use crate::event::resolved;
use crate::event::CalendarEvent;
use crate::event::Event;
use crate::recurrence::expand;
use crate::recurrence::expanded;
use crate::format::is_valid_instant;
use crate::recurrence::occurrence_matrix;
use crate::recurrence::occurrences_matrix;
use crate::format::valid_instant;
use crate::recurrence::MAX_OCCURRENCES;
use crate::slots::all_false;
use crate::slots::lemma_contained_span;
use crate::slots::lemma_empty_window;
use crate::slots::lemma_slot_count_not_negative;
use crate::slots::raw_slot_index;
pub use crate::slots::get_num_slots;
use crate::slots::mark_span;
use crate::slots::new_matrix;
use crate::slots::slot_count;
use crate::slots::span_matrix;
use crate::slots::subtract_of;
use crate::slots::subtract_true;
use crate::slots::union;
use crate::slots::union_of;
use crate::slots::MIN_GRANULARITY;
use vstd::prelude::*;

verus! {

/// A request for the open slots of a window.
#[derive(Clone, Copy, Debug)]
pub struct AvailabilityRequest {
    pub start: i64,
    pub end: i64,
}

/// The open slots of the window that was asked for: what of the available
/// time no booking has taken.
#[derive(Debug)]
pub struct AvailabilityResponse {
    pub start: i64,
    pub end: i64,
    /// The length of one slot, in seconds.
    pub granularity: i64,
    /// One entry for each slot of the window, in order: whether it is open.
    pub matrix: Vec<bool>,
}

/// Whether the times of a calendar in the zone `timezone` can be read: they
/// can where the calendar names no zone, which stands for UTC, or names UTC.
pub open spec fn supported_timezone(timezone: Option<String>) -> bool {
    match timezone {
        None => true,
        Some(name) => name@ == "UTC"@,
    }
}

/// Whether the times of a calendar in the zone `timezone` can be read.
pub fn is_supported_timezone(timezone: &Option<String>) -> (r: bool)
    ensures
        r == supported_timezone(*timezone),
{
    match timezone {
        None => true,
        Some(name) => *name == "UTC".to_owned(),
    }
}

/// Whether the window `[start, end)` can be worked on at this granularity:
/// a window that ends before it starts always can, for it has no slot; any
/// other where the granularity holds a whole minute and the slots can be
/// counted on this machine.
pub open spec fn workable(start: int, end: int, granularity: int) -> bool {
    end < start || (granularity >= MIN_GRANULARITY && slot_count(start, end, granularity)
        <= usize::MAX)
}

/// Whether the event `event` opens slot `i` of the window.
pub open spec fn event_open_at(event: Event, start: int, end: int, granularity: int, i: int) -> bool {
    event_matrix_of(event, start, end, granularity) matches Ok(matrix) && 0 <= i < matrix.len()
        && matrix[i]
}

/// Whether one of the first `upto` of `events` opens slot `i` of the window.
pub open spec fn some_event_open_at(
    events: Seq<Event>,
    upto: int,
    start: int,
    end: int,
    granularity: int,
    i: int,
) -> bool {
    exists|k: int| 0 <= k < upto && #[trigger] event_open_at(events[k], start, end, granularity, i)
}

/// The matrix of an event whose times are `times`, over the window
/// `[start, end)`, or the kind of error that its rule runs into.
pub open spec fn event_matrix(
    times: (int, int, Option<Seq<char>>),
    start: int,
    end: int,
    granularity: int,
) -> Result<Seq<bool>, ErrorView> {
    let num_slots = slot_count(start, end, granularity);
    match times.2 {
        None => Ok(span_matrix(start, granularity, num_slots, times.0, times.1)),
        Some(rule) => if !valid_instant(times.1) {
            Err(ErrorView::InstantOutOfRange)
        } else {
            match expanded(times.0, rule, start, end, MAX_OCCURRENCES as int) {
                Ok(starts) => Ok(
                    occurrences_matrix(starts, times.1 - times.0, start, granularity, num_slots),
                ),
                Err(kind) => Err(kind),
            }
        },
    }
}

/// The matrix of the event that `event` holds, over the window
/// `[start, end)`: empty where the window ends before it starts.
pub open spec fn event_matrix_of(event: Event, start: int, end: int, granularity: int) -> Result<
    Seq<bool>,
    ErrorView,
> {
    if end < start {
        Ok(Seq::empty())
    } else {
        match resolved(event.ical) {
            Ok(times) => event_matrix(times, start, end, granularity),
            Err(kind) => Err(kind),
        }
    }
}

/// The matrix of the first `upto` events of a calendar: open where one of
/// them is. The first event that fails decides the error.
pub open spec fn calendar_matrix(
    events: Seq<Event>,
    upto: int,
    start: int,
    end: int,
    granularity: int,
) -> Result<Seq<bool>, ErrorView>
    decreases upto,
{
    if upto <= 0 {
        Ok(all_false(slot_count(start, end, granularity)))
    } else {
        match calendar_matrix(events, upto - 1, start, end, granularity) {
            Err(kind) => Err(kind),
            Ok(so_far) => match event_matrix_of(events[upto - 1], start, end, granularity) {
                Err(kind) => Err(kind),
                Ok(matrix) => Ok(union_of(so_far, matrix)),
            },
        }
    }
}

/// What is left of the available time once the booked time is taken out.
pub open spec fn availability_matrix(
    availability: Seq<Event>,
    booked: Seq<Event>,
    start: int,
    end: int,
    granularity: int,
) -> Result<Seq<bool>, ErrorView> {
    match calendar_matrix(availability, availability.len() as int, start, end, granularity) {
        Err(kind) => Err(kind),
        Ok(open) => match calendar_matrix(booked, booked.len() as int, start, end, granularity) {
            Err(kind) => Err(kind),
            Ok(taken) => Ok(subtract_of(open, taken)),
        },
    }
}

/// An event that does not recur and whose span lies inside the window opens
/// the slots from the one that its start falls in up to, but not including,
/// the one that its end falls in, and no other slot of the window.
pub proof fn lemma_event_inside_window(
    times: (int, int, Option<Seq<char>>),
    start: int,
    end: int,
    granularity: int,
)
    requires
        granularity >= MIN_GRANULARITY,
        times.2 is None,
        start <= times.0 <= times.1 <= end,
    ensures
        event_matrix(times, start, end, granularity) matches Ok(matrix) && matrix.len()
            == slot_count(start, end, granularity) && forall|i: int|
            0 <= i < matrix.len() ==> #[trigger] matrix[i] == (raw_slot_index(
                start,
                times.0,
                granularity,
            ) <= i < raw_slot_index(start, times.1, granularity)),
        granularity % 60 == 0 ==> raw_slot_index(start, times.0, granularity) == (times.0 - start)
            / granularity && raw_slot_index(start, times.1, granularity) == (times.1 - start)
            / granularity,
{
    lemma_contained_span(start, end, granularity, times.0, times.1);
}

/// Every matrix that the engine computes for a window has as many slots as
/// the window has: that of one event, that of a calendar, and that of two
/// calendars. A window that ends where it starts or before gives matrices
/// without a slot.
pub proof fn lemma_matrix_has_the_slots_of_the_window(
    availability: Seq<Event>,
    booked: Seq<Event>,
    upto: int,
    start: int,
    end: int,
    granularity: int,
)
    requires
        granularity >= MIN_GRANULARITY,
        0 <= upto <= availability.len(),
    ensures
        slot_count(start, end, granularity) >= 0,
        end <= start ==> slot_count(start, end, granularity) == 0,
        forall|k: int|
            0 <= k < availability.len() ==> (#[trigger] event_matrix_of(
                availability[k],
                start,
                end,
                granularity,
            ) matches Ok(matrix) ==> matrix.len() == slot_count(start, end, granularity)),
        calendar_matrix(availability, upto, start, end, granularity) matches Ok(matrix)
            ==> matrix.len() == slot_count(start, end, granularity),
        availability_matrix(availability, booked, start, end, granularity) matches Ok(matrix)
            ==> matrix.len() == slot_count(start, end, granularity),
{
    lemma_slot_count_not_negative(start, end, granularity);
    if end <= start {
        lemma_empty_window(start, end, granularity);
    }
    lemma_calendar_length(availability, upto, start, end, granularity);
    lemma_calendar_length(availability, availability.len() as int, start, end, granularity);
    lemma_calendar_length(booked, booked.len() as int, start, end, granularity);
}

/// A window that ends before it starts gives the empty matrix and no error,
/// whatever the events are and whatever the granularity is: for one event,
/// for a calendar, and for two calendars.
pub proof fn lemma_reversed_window_is_empty(
    availability: Seq<Event>,
    booked: Seq<Event>,
    upto: int,
    start: int,
    end: int,
    granularity: int,
)
    requires
        end < start,
    ensures
        forall|event: Event| #[trigger]
            event_matrix_of(event, start, end, granularity) == Ok::<Seq<bool>, ErrorView>(
                Seq::empty(),
            ),
        calendar_matrix(availability, upto, start, end, granularity) == Ok::<
            Seq<bool>,
            ErrorView,
        >(Seq::empty()),
        availability_matrix(availability, booked, start, end, granularity) == Ok::<
            Seq<bool>,
            ErrorView,
        >(Seq::empty()),
{
    assert(subtract_of(Seq::<bool>::empty(), Seq::<bool>::empty()) =~= Seq::<bool>::empty());
    lemma_reversed_calendar(availability, upto, start, end, granularity);
    lemma_reversed_calendar(availability, availability.len() as int, start, end, granularity);
    lemma_reversed_calendar(booked, booked.len() as int, start, end, granularity);
}

/// A window that ends before it starts gives the empty matrix for a calendar.
pub proof fn lemma_reversed_calendar(
    events: Seq<Event>,
    upto: int,
    start: int,
    end: int,
    granularity: int,
)
    requires
        end < start,
    ensures
        calendar_matrix(events, upto, start, end, granularity) == Ok::<Seq<bool>, ErrorView>(
            Seq::empty(),
        ),
    decreases upto,
{
    assert(all_false(0) =~= Seq::<bool>::empty());
    assert(union_of(Seq::<bool>::empty(), Seq::<bool>::empty()) =~= Seq::<bool>::empty());
    if upto > 0 {
        lemma_reversed_calendar(events, upto - 1, start, end, granularity);
    }
}

/// Where the matrix of the first `upto` events of a calendar is computed,
/// the matrix of each of these events is, and a slot is open in the matrix of
/// the calendar exactly where one of the events opens it.
pub proof fn lemma_calendar_is_open_where_an_event_is(
    events: Seq<Event>,
    upto: int,
    start: int,
    end: int,
    granularity: int,
)
    requires
        workable(start, end, granularity),
        0 <= upto <= events.len(),
        calendar_matrix(events, upto, start, end, granularity) is Ok,
    ensures
        forall|k: int|
            0 <= k < upto ==> (#[trigger] event_matrix_of(events[k], start, end, granularity))
                is Ok,
        calendar_matrix(events, upto, start, end, granularity)->Ok_0.len() == slot_count(
            start,
            end,
            granularity,
        ),
        forall|i: int|
            0 <= i < slot_count(start, end, granularity) ==> calendar_matrix(
                events,
                upto,
                start,
                end,
                granularity,
            )->Ok_0[i] == #[trigger] some_event_open_at(events, upto, start, end, granularity, i),
    decreases upto,
{
    if end < start {
        lemma_reversed_calendar(events, upto, start, end, granularity);
    } else {
        lemma_slot_count_not_negative(start, end, granularity);
        lemma_calendar_length(events, upto, start, end, granularity);
        if upto > 0 {
            lemma_calendar_is_open_where_an_event_is(events, upto - 1, start, end, granularity);
            lemma_calendar_length(events, upto - 1, start, end, granularity);
            let so_far = calendar_matrix(events, upto - 1, start, end, granularity)->Ok_0;
            let last = event_matrix_of(events[upto - 1], start, end, granularity)->Ok_0;
            assert forall|i: int| 0 <= i < slot_count(start, end, granularity) implies union_of(
                so_far,
                last,
            )[i] == #[trigger] some_event_open_at(events, upto, start, end, granularity, i) by {
                if some_event_open_at(events, upto - 1, start, end, granularity, i) {
                    let k = choose|k: int|
                        0 <= k < upto - 1 && #[trigger] event_open_at(
                            events[k],
                            start,
                            end,
                            granularity,
                            i,
                        );
                    assert(event_open_at(events[k], start, end, granularity, i));
                }
                if last[i] {
                    assert(event_open_at(events[upto - 1], start, end, granularity, i));
                }
            }
        }
    }
}

/// Where the open slots of a window are computed, a slot is open exactly
/// where an event of the availability calendar opens it and no event of the
/// booked calendar does.
pub proof fn lemma_availability_is_open_minus_booked(
    availability: Seq<Event>,
    booked: Seq<Event>,
    start: int,
    end: int,
    granularity: int,
)
    requires
        workable(start, end, granularity),
        availability_matrix(availability, booked, start, end, granularity) is Ok,
    ensures
        availability_matrix(availability, booked, start, end, granularity)->Ok_0.len()
            == slot_count(start, end, granularity),
        forall|i: int|
            0 <= i < slot_count(start, end, granularity) ==> #[trigger] availability_matrix(
                availability,
                booked,
                start,
                end,
                granularity,
            )->Ok_0[i] == (some_event_open_at(
                availability,
                availability.len() as int,
                start,
                end,
                granularity,
                i,
            ) && !some_event_open_at(booked, booked.len() as int, start, end, granularity, i)),
{
    lemma_calendar_is_open_where_an_event_is(
        availability,
        availability.len() as int,
        start,
        end,
        granularity,
    );
    lemma_calendar_is_open_where_an_event_is(booked, booked.len() as int, start, end, granularity);
}

/// The matrix of the first `upto` events of a calendar has as many slots as
/// the window has.
pub proof fn lemma_calendar_length(
    events: Seq<Event>,
    upto: int,
    start: int,
    end: int,
    granularity: int,
)
    requires
        granularity >= MIN_GRANULARITY,
    ensures
        calendar_matrix(events, upto, start, end, granularity) matches Ok(matrix) ==> matrix.len()
            == slot_count(start, end, granularity),
    decreases upto,
{
    lemma_slot_count_not_negative(start, end, granularity);
    if upto > 0 {
        lemma_calendar_length(events, upto - 1, start, end, granularity);
    }
}

/// The matrix of an event that does not recur: `num_slots` slots from
/// `range_start` on, open from the slot that `event_start` falls in up to, but
/// not including, the slot that `event_end` falls in, both clipped to the
/// matrix.
pub fn generate_matrix_no_rrule(
    range_start: i64,
    event_start: i64,
    event_end: i64,
    num_slots: i64,
    granularity: i64,
) -> (r: CaldavResult<Vec<bool>>)
    requires
        granularity >= MIN_GRANULARITY,
        0 <= num_slots <= usize::MAX,
    ensures
        r matches Ok(matrix) && matrix@ == span_matrix(
            range_start as int,
            granularity as int,
            num_slots as int,
            event_start as int,
            event_end as int,
        ),
{
    let mut matrix = new_matrix(num_slots as usize);
    mark_span(&mut matrix, range_start, granularity, event_start, event_end);
    assert(matrix@ =~= span_matrix(
        range_start as int,
        granularity as int,
        num_slots as int,
        event_start as int,
        event_end as int,
    ));
    Ok(matrix)
}

/// The matrix of a recurring event: `num_slots` slots from `start` on, open
/// where one of the occurrences is that start strictly inside the window
/// `[start, end)`. Each occurrence lasts as long as the first one. Fails
/// where the rule cannot be read or is not valid for its anchor, and where
/// the first occurrence starts or ends outside the years 0000 to 9999, the
/// years that iCalendar can write.
pub fn generate_matrix_rrule(
    event: &CalendarEvent,
    start: i64,
    end: i64,
    num_slots: i64,
    granularity: i64,
) -> (r: CaldavResult<Vec<bool>>)
    requires
        event.recurrence_rule is Some,
        granularity >= MIN_GRANULARITY,
        0 <= num_slots <= usize::MAX,
    ensures
        match rrule_matrix(event@, start as int, end as int, num_slots as int, granularity as int) {
            Ok(expected) => r matches Ok(matrix) && matrix@ == expected,
            Err(kind) => r matches Err(e) && e@ == kind,
        },
{
    if !is_valid_instant(event.anchor_end) {
        return Err(CaldavError::InstantOutOfRange);
    }
    let rule = match &event.recurrence_rule {
        Some(rule) => rule,
        None => {
            return Err(CaldavError::AnchorMissing);
        },
    };
    let starts = expand(event.anchor_start, rule.as_str(), start, end, MAX_OCCURRENCES)?;
    let duration = event.anchor_end - event.anchor_start;
    Ok(occurrence_matrix(&starts, duration, start, granularity, num_slots as usize))
}

/// What `generate_matrix_rrule` returns for a recurring event whose times are
/// `times`.
pub open spec fn rrule_matrix(
    times: (int, int, Option<Seq<char>>),
    start: int,
    end: int,
    num_slots: int,
    granularity: int,
) -> Result<Seq<bool>, ErrorView> {
    if !valid_instant(times.1) {
        Err(ErrorView::InstantOutOfRange)
    } else {
        match expanded(times.0, times.2->Some_0, start, end, MAX_OCCURRENCES as int) {
            Ok(starts) => Ok(
                occurrences_matrix(starts, times.1 - times.0, start, granularity, num_slots),
            ),
            Err(kind) => Err(kind),
        }
    }
}

/// The matrix of one event over the window `[start, end)`: one entry for
/// each slot of the window, open where the event, or one of its occurrences
/// if it recurs, covers the slot. A window that ends before it starts gives an
/// empty matrix and no error, and nothing is asked of the granularity, of the
/// event or of the zone.
pub fn get_event_matrix(
    start: i64,
    end: i64,
    granularity: i64,
    event: &Event,
    timezone: &Option<String>,
) -> (r: CaldavResult<Vec<bool>>)
    requires
        workable(start as int, end as int, granularity as int),
        end >= start ==> supported_timezone(*timezone),
    ensures
        match event_matrix_of(*event, start as int, end as int, granularity as int) {
            Ok(expected) => r matches Ok(matrix) && matrix@ == expected,
            Err(kind) => r matches Err(e) && e@ == kind,
        },
        r matches Ok(matrix) ==> matrix@.len() == slot_count(
            start as int,
            end as int,
            granularity as int,
        ),
{
    if end < start {
        return Ok(Vec::new());
    }
    let num_slots = get_num_slots(start, end, granularity);
    let times = event.resolve()?;
    if times.recurrence_rule.is_some() {
        generate_matrix_rrule(&times, start, end, num_slots as i64, granularity)
    } else {
        generate_matrix_no_rrule(
            start,
            times.anchor_start,
            times.anchor_end,
            num_slots as i64,
            granularity,
        )
    }
}

/// The matrix of a calendar over the window `[start, end)`: open where one of
/// its events is. The first event that fails ends the computation with its
/// error.
pub fn calendar_availability(
    events: &Vec<Event>,
    timezone: &Option<String>,
    start: i64,
    end: i64,
    granularity: i64,
) -> (r: CaldavResult<Vec<bool>>)
    requires
        workable(start as int, end as int, granularity as int),
        end >= start ==> supported_timezone(*timezone),
    ensures
        match calendar_matrix(
            events@,
            events@.len() as int,
            start as int,
            end as int,
            granularity as int,
        ) {
            Ok(expected) => r matches Ok(matrix) && matrix@ == expected,
            Err(kind) => r matches Err(e) && e@ == kind,
        },
        r matches Ok(matrix) ==> matrix@.len() == slot_count(
            start as int,
            end as int,
            granularity as int,
        ),
{
    if end < start {
        proof {
            lemma_reversed_calendar(
                events@,
                events@.len() as int,
                start as int,
                end as int,
                granularity as int,
            );
        }
        return Ok(Vec::new());
    }
    let num_slots = get_num_slots(start, end, granularity);
    let mut so_far = new_matrix(num_slots);
    let mut k: usize = 0;
    while k < events.len()
        invariant
            k <= events@.len(),
            end >= start,
            workable(start as int, end as int, granularity as int),
            supported_timezone(*timezone),
            so_far@.len() == slot_count(start as int, end as int, granularity as int),
            calendar_matrix(events@, k as int, start as int, end as int, granularity as int)
                == Ok::<Seq<bool>, ErrorView>(so_far@),
        decreases events@.len() - k,
    {
        let matrix = match get_event_matrix(start, end, granularity, &events[k], timezone) {
            Ok(matrix) => matrix,
            Err(e) => {
                proof {
                    lemma_calendar_error_stays(
                        events@,
                        k + 1,
                        events@.len() as int,
                        start as int,
                        end as int,
                        granularity as int,
                    );
                }
                return Err(e);
            },
        };
        so_far = union(&so_far, &matrix);
        k = k + 1;
    }
    Ok(so_far)
}

/// Once the events up to `upto` have run into an error, so have the events up
/// to any later point, and into the same one.
pub proof fn lemma_calendar_error_stays(
    events: Seq<Event>,
    upto: int,
    later: int,
    start: int,
    end: int,
    granularity: int,
)
    requires
        upto <= later,
        calendar_matrix(events, upto, start, end, granularity) is Err,
    ensures
        calendar_matrix(events, later, start, end, granularity) == calendar_matrix(
            events,
            upto,
            start,
            end,
            granularity,
        ),
    decreases later - upto,
{
    if upto < later {
        lemma_calendar_error_stays(events, upto, later - 1, start, end, granularity);
    }
}

/// The open slots of the window `[start, end)`: the slots that an event of
/// the availability calendar covers and no event of the booked calendar does.
/// An error in either calendar ends the computation; the availability
/// calendar is looked at first.
pub fn get_availability(
    availability: &Vec<Event>,
    availability_timezone: &Option<String>,
    booked: &Vec<Event>,
    booked_timezone: &Option<String>,
    start: i64,
    end: i64,
    granularity: i64,
) -> (r: CaldavResult<AvailabilityResponse>)
    requires
        workable(start as int, end as int, granularity as int),
        end >= start ==> supported_timezone(*availability_timezone),
        end >= start ==> supported_timezone(*booked_timezone),
    ensures
        match availability_matrix(
            availability@,
            booked@,
            start as int,
            end as int,
            granularity as int,
        ) {
            Ok(expected) => r matches Ok(response) && response.matrix@ == expected
                && response.start == start && response.end == end && response.granularity
                == granularity,
            Err(kind) => r matches Err(e) && e@ == kind,
        },
        r matches Ok(response) ==> response.matrix@.len() == slot_count(
            start as int,
            end as int,
            granularity as int,
        ),
{
    let open = calendar_availability(availability, availability_timezone, start, end, granularity)?;
    let taken = calendar_availability(booked, booked_timezone, start, end, granularity)?;
    let matrix = subtract_true(&open, &taken);
    Ok(AvailabilityResponse { start, end, granularity, matrix })
}

} // verus!
