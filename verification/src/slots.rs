//! Slot arithmetic: how a span of time is cut into slots of a fixed length,
//! and the boolean matrices that say which slots are open.
//!
//! Instants are whole seconds since the Unix epoch and lengths of time are
//! whole seconds. All slot arithmetic is done in whole minutes: the part of a
//! minute that is left over is dropped before any division.

use vstd::arithmetic::div_mod::lemma_div_denominator;
use vstd::arithmetic::div_mod::lemma_div_is_ordered;
use vstd::arithmetic::div_mod::lemma_div_pos_is_pos;
use vstd::prelude::*;

verus! {

/// The shortest granularity, in seconds, that still holds one whole minute.
pub const MIN_GRANULARITY: i64 = 60;

/// The whole minutes in `seconds`, the rest of a minute dropped towards zero.
pub open spec fn whole_minutes(seconds: int) -> int {
    if seconds >= 0 {
        seconds / 60
    } else {
        -((-seconds) / 60)
    }
}

/// The number of slots of length `granularity` in the window `[start, end)`.
/// A window that ends before it starts holds none.
pub open spec fn slot_count(start: int, end: int, granularity: int) -> int {
    if end < start {
        0
    } else {
        whole_minutes(end - start) / whole_minutes(granularity)
    }
}

/// The index of the slot that `at` falls in, counted from `origin`, before any
/// clipping: negative when `at` lies a whole slot or more before `origin`.
pub open spec fn raw_slot_index(origin: int, at: int, granularity: int) -> int {
    whole_minutes(at - origin) / whole_minutes(granularity)
}

/// `raw` clipped to the indices `0..=num_slots`.
pub open spec fn clamp_index(raw: int, num_slots: int) -> int {
    if raw < 0 {
        0
    } else if raw > num_slots {
        num_slots
    } else {
        raw
    }
}

/// The clipped index of the slot that `at` falls in.
pub open spec fn slot_index_of(origin: int, at: int, granularity: int, num_slots: int) -> int {
    clamp_index(raw_slot_index(origin, at, granularity), num_slots)
}

/// Whether slot `i` of a matrix of `num_slots` slots that starts at `origin`
/// is marked by the span `[sub_start, sub_end)`.
pub open spec fn span_covers(
    origin: int,
    granularity: int,
    num_slots: int,
    sub_start: int,
    sub_end: int,
    i: int,
) -> bool {
    slot_index_of(origin, sub_start, granularity, num_slots) <= i < slot_index_of(
        origin,
        sub_end,
        granularity,
        num_slots,
    )
}

/// A matrix of `num_slots` closed slots.
pub open spec fn all_false(num_slots: int) -> Seq<bool> {
    Seq::new(num_slots as nat, |i: int| false)
}

/// `matrix` with the slots `lo..hi` opened and every other slot as it was.
pub open spec fn marked(matrix: Seq<bool>, lo: int, hi: int) -> Seq<bool> {
    Seq::new(matrix.len(), |i: int| matrix[i] || (lo <= i < hi))
}

/// The matrix of one span: open exactly where the span covers.
pub open spec fn span_matrix(
    origin: int,
    granularity: int,
    num_slots: int,
    sub_start: int,
    sub_end: int,
) -> Seq<bool> {
    Seq::new(
        num_slots as nat,
        |i: int| span_covers(origin, granularity, num_slots, sub_start, sub_end, i),
    )
}

/// Slot by slot, open where `a` or `b` is open.
pub open spec fn union_of(a: Seq<bool>, b: Seq<bool>) -> Seq<bool> {
    Seq::new(a.len(), |i: int| a[i] || b[i])
}

/// Slot by slot, open where `a` is open and `b` is not.
pub open spec fn subtract_of(a: Seq<bool>, b: Seq<bool>) -> Seq<bool> {
    Seq::new(a.len(), |i: int| a[i] && !b[i])
}

/// Whether every slot of `matrix` is open.
pub open spec fn all_open(matrix: Seq<bool>) -> bool {
    forall|i: int| 0 <= i < matrix.len() ==> matrix[i]
}

/// The number of open slots among the first `upto` of `matrix`.
pub open spec fn open_count(matrix: Seq<bool>, upto: int) -> int
    decreases upto,
{
    if upto <= 0 {
        0
    } else if matrix[upto - 1] {
        open_count(matrix, upto - 1) + 1
    } else {
        open_count(matrix, upto - 1)
    }
}

/// A span of time that is not positive holds no whole minute or a negative
/// number of them, so no slot index after the first can come of it.
pub proof fn lemma_raw_index_sign(origin: int, at: int, granularity: int)
    requires
        granularity >= MIN_GRANULARITY,
    ensures
        at <= origin ==> raw_slot_index(origin, at, granularity) <= 0,
        at >= origin ==> raw_slot_index(origin, at, granularity) >= 0,
        at == origin ==> raw_slot_index(origin, at, granularity) == 0,
{
    let m = whole_minutes(at - origin);
    let g = whole_minutes(granularity);
    if at <= origin {
        lemma_div_is_ordered(m, 0, g);
    }
    if at >= origin {
        lemma_div_pos_is_pos(m, g);
    }
}

/// A later instant never falls in an earlier slot.
pub proof fn lemma_raw_index_monotone(origin: int, earlier: int, later: int, granularity: int)
    requires
        granularity >= MIN_GRANULARITY,
        earlier <= later,
    ensures
        raw_slot_index(origin, earlier, granularity) <= raw_slot_index(origin, later, granularity),
{
    let a = earlier - origin;
    let b = later - origin;
    assert(whole_minutes(a) <= whole_minutes(b)) by {
        if a >= 0 {
            lemma_div_is_ordered(a, b, 60);
        } else if b >= 0 {
            lemma_div_pos_is_pos(-a, 60);
            lemma_div_pos_is_pos(b, 60);
        } else {
            lemma_div_is_ordered(-b, -a, 60);
        }
    }
    lemma_div_is_ordered(whole_minutes(a), whole_minutes(b), whole_minutes(granularity));
}

/// A window that ends where it starts, or before, has no slots.
pub proof fn lemma_empty_window(start: int, end: int, granularity: int)
    requires
        granularity >= MIN_GRANULARITY,
        end <= start,
    ensures
        slot_count(start, end, granularity) == 0,
{
    lemma_raw_index_sign(start, end, granularity);
}

/// No window has a negative number of slots.
pub proof fn lemma_slot_count_not_negative(start: int, end: int, granularity: int)
    requires
        granularity >= MIN_GRANULARITY,
    ensures
        slot_count(start, end, granularity) >= 0,
{
    lemma_raw_index_sign(start, end, granularity);
}

/// An event whose span `[event_start, event_end)` lies inside the window
/// `[start, end)` opens the slots from the one that its start falls in up
/// to, but not including, the one that its end falls in, and no other: nothing
/// is clipped. Where the granularity is a whole number of minutes, the slot
/// that an instant falls in is the quotient of its distance from the start of
/// the window by the granularity.
pub proof fn lemma_contained_span(
    start: int,
    end: int,
    granularity: int,
    event_start: int,
    event_end: int,
)
    requires
        granularity >= MIN_GRANULARITY,
        start <= event_start <= event_end <= end,
    ensures
        0 <= raw_slot_index(start, event_start, granularity) <= raw_slot_index(
            start,
            event_end,
            granularity,
        ) <= slot_count(start, end, granularity),
        forall|i: int|
            0 <= i < slot_count(start, end, granularity) ==> #[trigger] span_matrix(
                start,
                granularity,
                slot_count(start, end, granularity),
                event_start,
                event_end,
            )[i] == (raw_slot_index(start, event_start, granularity) <= i < raw_slot_index(
                start,
                event_end,
                granularity,
            )),
        granularity % 60 == 0 ==> raw_slot_index(start, event_start, granularity) == (event_start
            - start) / granularity && raw_slot_index(start, event_end, granularity) == (event_end
            - start) / granularity,
{
    lemma_raw_index_sign(start, event_start, granularity);
    lemma_raw_index_monotone(start, event_start, event_end, granularity);
    lemma_raw_index_monotone(start, event_end, end, granularity);
    if granularity % 60 == 0 {
        lemma_div_denominator(event_start - start, 60, granularity / 60);
        lemma_div_denominator(event_end - start, 60, granularity / 60);
    }
}

/// A span that ends at or before the start of the window, or starts at or
/// after its end, opens no slot.
pub proof fn lemma_span_outside(
    start: int,
    end: int,
    granularity: int,
    sub_start: int,
    sub_end: int,
    i: int,
)
    requires
        granularity >= MIN_GRANULARITY,
        sub_end <= start || (start <= end && sub_start >= end),
    ensures
        !span_covers(
            start,
            granularity,
            slot_count(start, end, granularity),
            sub_start,
            sub_end,
            i,
        ),
{
    lemma_slot_count_not_negative(start, end, granularity);
    if sub_end <= start {
        lemma_raw_index_sign(start, sub_end, granularity);
    } else {
        lemma_raw_index_monotone(start, end, sub_start, granularity);
    }
}

/// A span that starts exactly where the window does opens from slot 0 on.
pub proof fn lemma_span_from_origin(origin: int, granularity: int, num_slots: int)
    requires
        granularity >= MIN_GRANULARITY,
        num_slots >= 0,
    ensures
        slot_index_of(origin, origin, granularity, num_slots) == 0,
{
    lemma_raw_index_sign(origin, origin, granularity);
}

/// A slot is open in the union of two matrices whenever it is open in one of
/// them.
pub proof fn lemma_union_monotone(a: Seq<bool>, b: Seq<bool>, i: int)
    requires
        a.len() == b.len(),
        0 <= i < a.len(),
        a[i] || b[i],
    ensures
        union_of(a, b)[i],
{
}

/// A slot is open in the difference of two matrices exactly where it is open
/// in the first and closed in the second.
pub proof fn lemma_subtract_correct(a: Seq<bool>, b: Seq<bool>, i: int)
    requires
        a.len() == b.len(),
        0 <= i < a.len(),
    ensures
        subtract_of(a, b)[i] == (a[i] && !b[i]),
{
}

/// The union of a matrix with itself is the matrix.
pub proof fn lemma_union_idempotent(a: Seq<bool>)
    ensures
        union_of(a, a) == a,
{
    assert(union_of(a, a) =~= a);
}

/// The union of two matrices does not depend on their order.
pub proof fn lemma_union_commutative(a: Seq<bool>, b: Seq<bool>)
    requires
        a.len() == b.len(),
    ensures
        union_of(a, b) == union_of(b, a),
{
    assert(union_of(a, b) =~= union_of(b, a));
}

/// The union of three matrices does not depend on how they are grouped.
pub proof fn lemma_union_associative(a: Seq<bool>, b: Seq<bool>, c: Seq<bool>)
    requires
        a.len() == b.len(),
        b.len() == c.len(),
    ensures
        union_of(union_of(a, b), c) == union_of(a, union_of(b, c)),
{
    assert(union_of(union_of(a, b), c) =~= union_of(a, union_of(b, c)));
}

/// A matrix of closed slots changes nothing in a union, and nothing when it
/// is taken out of a matrix.
pub proof fn lemma_all_false_identity(a: Seq<bool>)
    ensures
        union_of(a, all_false(a.len() as int)) == a,
        union_of(all_false(a.len() as int), a) == a,
        subtract_of(a, all_false(a.len() as int)) == a,
{
    assert(union_of(a, all_false(a.len() as int)) =~= a);
    assert(union_of(all_false(a.len() as int), a) =~= a);
    assert(subtract_of(a, all_false(a.len() as int)) =~= a);
}

/// The number of slots in `[start, end)`: the whole minutes of the window
/// divided by the whole minutes of the granularity, the rest dropped. A window
/// that ends before it starts has no slots.
pub fn get_num_slots(start: i64, end: i64, granularity: i64) -> (n: usize)
    requires
        granularity >= MIN_GRANULARITY,
        slot_count(start as int, end as int, granularity as int) <= usize::MAX,
    ensures
        n == slot_count(start as int, end as int, granularity as int),
        end <= start ==> n == 0,
{
    proof {
        lemma_raw_index_sign(start as int, end as int, granularity as int);
    }
    if end <= start {
        return 0;
    }
    let seconds: i128 = end as i128 - start as i128;
    let minutes: i128 = seconds / 60;
    let per_slot: i128 = (granularity / 60) as i128;
    (minutes / per_slot) as usize
}

/// Whether the slots of the window `[start, end)` can be counted and held on
/// this machine.
pub fn slot_count_fits(start: i64, end: i64, granularity: i64) -> (r: bool)
    requires
        granularity >= MIN_GRANULARITY,
    ensures
        r == (slot_count(start as int, end as int, granularity as int) <= usize::MAX),
{
    proof {
        lemma_raw_index_sign(start as int, end as int, granularity as int);
    }
    if end <= start {
        return true;
    }
    let seconds: i128 = end as i128 - start as i128;
    let minutes: i128 = seconds / 60;
    let per_slot: i128 = (granularity / 60) as i128;
    minutes / per_slot <= usize::MAX as i128
}

/// The index of the slot that `at` falls in, clipped to `0..=num_slots`.
pub fn slot_index(origin: i64, at: i64, granularity: i64, num_slots: usize) -> (i: usize)
    requires
        granularity >= MIN_GRANULARITY,
    ensures
        i == slot_index_of(origin as int, at as int, granularity as int, num_slots as int),
        i <= num_slots,
{
    proof {
        lemma_raw_index_sign(origin as int, at as int, granularity as int);
    }
    if at <= origin {
        return 0;
    }
    let seconds: i128 = at as i128 - origin as i128;
    let minutes: i128 = seconds / 60;
    let per_slot: i128 = (granularity / 60) as i128;
    let raw: i128 = minutes / per_slot;
    if raw >= num_slots as i128 {
        num_slots
    } else {
        raw as usize
    }
}

/// A matrix of `num_slots` slots, all closed.
pub fn new_matrix(num_slots: usize) -> (matrix: Vec<bool>)
    ensures
        matrix@ == all_false(num_slots as int),
{
    let mut matrix: Vec<bool> = Vec::new();
    let mut i: usize = 0;
    while i < num_slots
        invariant
            i <= num_slots,
            matrix@ == all_false(i as int),
        decreases num_slots - i,
    {
        matrix.push(false);
        i = i + 1;
    }
    matrix
}

/// Opens every slot of `matrix` that the span `[sub_start, sub_end)` covers,
/// the matrix starting at `origin`. The span is clipped to the matrix: what
/// lies before its first slot or after its last one marks nothing, and a span
/// that ends on a slot boundary leaves the slot that begins there closed.
pub fn mark_span(
    matrix: &mut Vec<bool>,
    origin: i64,
    granularity: i64,
    sub_start: i64,
    sub_end: i64,
)
    requires
        granularity >= MIN_GRANULARITY,
    ensures
        final(matrix)@ == marked(
            old(matrix)@,
            slot_index_of(
                origin as int,
                sub_start as int,
                granularity as int,
                old(matrix)@.len() as int,
            ),
            slot_index_of(
                origin as int,
                sub_end as int,
                granularity as int,
                old(matrix)@.len() as int,
            ),
        ),
        final(matrix)@.len() == old(matrix)@.len(),
{
    let num_slots = matrix.len();
    let lo = slot_index(origin, sub_start, granularity, num_slots);
    let hi = slot_index(origin, sub_end, granularity, num_slots);
    let ghost before = matrix@;
    let mut i: usize = lo;
    while i < hi
        invariant
            hi <= num_slots,
            lo <= i,
            i <= hi || i == lo,
            matrix@.len() == num_slots,
            before.len() == num_slots,
            forall|k: int| 0 <= k < num_slots ==> matrix@[k] == (before[k] || (lo <= k < i)),
        decreases hi - i,
    {
        matrix.set(i, true);
        i = i + 1;
    }
    assert forall|k: int| 0 <= k < num_slots implies matrix@[k] == marked(
        before,
        lo as int,
        hi as int,
    )[k] by {
        assert(matrix@[k] == (before[k] || (lo <= k < i)));
    }
    assert(matrix@ =~= marked(before, lo as int, hi as int));
}

/// The matrix that is open where `a` or `b` is open.
pub fn union(a: &Vec<bool>, b: &Vec<bool>) -> (r: Vec<bool>)
    requires
        a@.len() == b@.len(),
    ensures
        r@ == union_of(a@, b@),
{
    let mut r: Vec<bool> = Vec::new();
    let mut i: usize = 0;
    while i < a.len()
        invariant
            i <= a@.len(),
            a@.len() == b@.len(),
            r@.len() == i,
            forall|k: int| 0 <= k < i ==> r@[k] == (a@[k] || b@[k]),
        decreases a@.len() - i,
    {
        r.push(a[i] || b[i]);
        i = i + 1;
    }
    r
}

/// The matrix that is open where `a` is open and `b` is not: what is left of
/// the available time once the booked time is taken out of it.
pub fn subtract_true(a: &Vec<bool>, b: &Vec<bool>) -> (r: Vec<bool>)
    requires
        a@.len() == b@.len(),
    ensures
        r@ == subtract_of(a@, b@),
{
    let mut r: Vec<bool> = Vec::new();
    let mut i: usize = 0;
    while i < a.len()
        invariant
            i <= a@.len(),
            a@.len() == b@.len(),
            r@.len() == i,
            forall|k: int| 0 <= k < i ==> r@[k] == (a@[k] && !b@[k]),
        decreases a@.len() - i,
    {
        r.push(a[i] && !b[i]);
        i = i + 1;
    }
    r
}

/// Whether every slot of `matrix` is open. An empty matrix is.
pub fn is_all_open(matrix: &Vec<bool>) -> (r: bool)
    ensures
        r == all_open(matrix@),
{
    let mut i: usize = 0;
    while i < matrix.len()
        invariant
            i <= matrix@.len(),
            forall|k: int| 0 <= k < i ==> matrix@[k],
        decreases matrix@.len() - i,
    {
        if !matrix[i] {
            return false;
        }
        i = i + 1;
    }
    true
}

/// The number of open slots of `matrix`.
pub fn count_open(matrix: &Vec<bool>) -> (n: usize)
    ensures
        n == open_count(matrix@, matrix@.len() as int),
{
    let mut n: usize = 0;
    let mut i: usize = 0;
    while i < matrix.len()
        invariant
            i <= matrix@.len(),
            n <= i,
            n == open_count(matrix@, i as int),
        decreases matrix@.len() - i,
    {
        if matrix[i] {
            n = n + 1;
        }
        i = i + 1;
    }
    n
}

} // verus!
