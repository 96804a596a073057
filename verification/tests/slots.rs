use caldav_utils::grid::SlotGrid;
use caldav_utils::slots::count_open;
use caldav_utils::slots::get_num_slots;
use caldav_utils::slots::is_all_open;
use caldav_utils::slots::mark_span;
use caldav_utils::slots::new_matrix;
use caldav_utils::slots::slot_count_fits;
use caldav_utils::slots::slot_index;
use caldav_utils::slots::subtract_true;
use caldav_utils::slots::union;

const HALF_HOUR: i64 = 1800;
const DAY: i64 = 86_400;
const START: i64 = 1_673_481_600;

fn opened(len: usize, open: &[usize]) -> Vec<bool> {
    let mut matrix = vec![false; len];
    for i in open {
        matrix[*i] = true;
    }
    matrix
}

#[test]
fn num_slots_divides_whole_minutes() {
    assert_eq!(get_num_slots(START, START + DAY, HALF_HOUR), 48);
    assert_eq!(get_num_slots(START, START + 5 * DAY, HALF_HOUR), 240);
    assert_eq!(get_num_slots(START, START + 3600, 900), 4);
}

#[test]
fn num_slots_drops_what_is_left_over() {
    // 89 minutes and 59 seconds in slots of half an hour: two slots.
    assert_eq!(get_num_slots(START, START + 5399, HALF_HOUR), 2);
    // A granularity of 119 seconds counts as one minute.
    assert_eq!(get_num_slots(START, START + 600, 119), 10);
    // 59 seconds hold no whole minute.
    assert_eq!(get_num_slots(START, START + 59, 60), 0);
}

#[test]
fn empty_window_has_no_slots() {
    assert_eq!(get_num_slots(START, START, HALF_HOUR), 0);
    assert_eq!(new_matrix(get_num_slots(START, START, HALF_HOUR)), Vec::<bool>::new());
}

#[test]
fn window_that_ends_before_it_starts_has_no_slots() {
    assert_eq!(get_num_slots(START + DAY, START, HALF_HOUR), 0);
    assert_eq!(get_num_slots(i64::MAX, i64::MIN, HALF_HOUR), 0);
}

#[test]
fn slot_count_of_the_widest_window_fits() {
    assert!(slot_count_fits(i64::MIN, i64::MAX, 60));
    assert!(slot_count_fits(START, START + DAY, HALF_HOUR));
    assert_eq!(get_num_slots(i64::MIN, i64::MAX, 60), 307_445_734_561_825_860);
}

#[test]
fn slot_index_is_clipped_to_the_matrix() {
    assert_eq!(slot_index(START, START, HALF_HOUR, 48), 0);
    assert_eq!(slot_index(START, START + 3600, HALF_HOUR, 48), 2);
    assert_eq!(slot_index(START, START + 3599, HALF_HOUR, 48), 1);
    assert_eq!(slot_index(START, START - 1, HALF_HOUR, 48), 0);
    assert_eq!(slot_index(START, START - DAY, HALF_HOUR, 48), 0);
    assert_eq!(slot_index(START, START + DAY, HALF_HOUR, 48), 48);
    assert_eq!(slot_index(START, START + 9 * DAY, HALF_HOUR, 48), 48);
    assert_eq!(slot_index(i64::MIN, i64::MAX, 60, 7), 7);
}

#[test]
fn span_inside_the_window_marks_its_slots_and_no_other() {
    let mut matrix = new_matrix(48);
    mark_span(&mut matrix, START, HALF_HOUR, START + 3600, START + 7200);
    assert_eq!(matrix, opened(48, &[2, 3]));
}

#[test]
fn span_that_ends_on_a_boundary_leaves_the_next_slot_closed() {
    let mut matrix = new_matrix(4);
    mark_span(&mut matrix, START, HALF_HOUR, START, START + 1800);
    assert_eq!(matrix, vec![true, false, false, false]);
}

#[test]
fn span_that_starts_with_the_window_marks_from_slot_zero() {
    let mut matrix = new_matrix(4);
    mark_span(&mut matrix, START, HALF_HOUR, START, START + 3600);
    assert_eq!(matrix, vec![true, true, false, false]);
}

#[test]
fn span_before_the_window_marks_nothing() {
    let mut matrix = new_matrix(4);
    mark_span(&mut matrix, START, HALF_HOUR, START - 7200, START);
    assert_eq!(matrix, vec![false; 4]);
    mark_span(&mut matrix, START, HALF_HOUR, START - 7200, START - 3600);
    assert_eq!(matrix, vec![false; 4]);
}

#[test]
fn span_after_the_window_marks_nothing() {
    let mut matrix = new_matrix(4);
    mark_span(&mut matrix, START, HALF_HOUR, START + 7200, START + 9000);
    assert_eq!(matrix, vec![false; 4]);
}

#[test]
fn span_across_the_edges_is_clipped() {
    let mut matrix = new_matrix(4);
    mark_span(&mut matrix, START, HALF_HOUR, START - 3600, START + 1800);
    assert_eq!(matrix, vec![true, false, false, false]);
    let mut matrix = new_matrix(4);
    mark_span(&mut matrix, START, HALF_HOUR, START + 5400, START + DAY);
    assert_eq!(matrix, vec![false, false, false, true]);
}

#[test]
fn span_that_ends_before_it_starts_marks_nothing() {
    let mut matrix = new_matrix(4);
    mark_span(&mut matrix, START, HALF_HOUR, START + 3600, START + 1800);
    assert_eq!(matrix, vec![false; 4]);
}

#[test]
fn marking_keeps_what_is_open() {
    let mut matrix = vec![true, false, false, true];
    mark_span(&mut matrix, START, HALF_HOUR, START + 1800, START + 3600);
    assert_eq!(matrix, vec![true, true, false, true]);
}

#[test]
fn union_is_open_where_either_is() {
    let a = vec![true, true, false, false];
    let b = vec![true, false, true, false];
    assert_eq!(union(&a, &b), vec![true, true, true, false]);
}

#[test]
fn union_with_itself_changes_nothing() {
    let a = vec![true, false, true, false, false];
    assert_eq!(union(&a, &a), a);
}

#[test]
fn union_does_not_depend_on_order_or_grouping() {
    let a = vec![true, false, false, false];
    let b = vec![false, true, false, false];
    let c = vec![false, false, true, false];
    assert_eq!(union(&a, &b), union(&b, &a));
    assert_eq!(union(&union(&a, &b), &c), union(&a, &union(&b, &c)));
}

#[test]
fn closed_matrix_changes_nothing() {
    let a = vec![true, false, true];
    let closed = new_matrix(3);
    assert_eq!(closed, vec![false; 3]);
    assert_eq!(union(&a, &closed), a);
    assert_eq!(union(&closed, &a), a);
    assert_eq!(subtract_true(&a, &closed), a);
}

#[test]
fn subtract_is_open_where_the_first_is_and_the_second_is_not() {
    let a = vec![true, true, false, false];
    let b = vec![true, false, true, false];
    assert_eq!(subtract_true(&a, &b), vec![false, true, false, false]);
}

#[test]
fn all_open_holds_of_open_and_of_empty_matrices() {
    assert!(is_all_open(&vec![true, true]));
    assert!(is_all_open(&Vec::new()));
    assert!(!is_all_open(&vec![true, false]));
}

#[test]
fn grid_starts_closed_and_has_the_slots_of_its_window() {
    let grid = SlotGrid::new(START, START + DAY, HALF_HOUR);
    assert_eq!(grid.slots(), &vec![false; 48]);
    assert_eq!(grid.start(), START);
    assert_eq!(grid.end(), START + DAY);
    assert_eq!(grid.granularity(), HALF_HOUR);
}

#[test]
fn grid_of_a_window_that_ends_before_it_starts_is_empty() {
    let grid = SlotGrid::new(START, START - 1, HALF_HOUR);
    assert!(grid.slots().is_empty());
}

#[test]
fn grid_marks_and_combines() {
    let mut open = SlotGrid::new(START, START + 7200, HALF_HOUR);
    open.mark_true(START, START + 5400);
    assert_eq!(open.slots(), &vec![true, true, true, false]);

    let mut more = SlotGrid::new(START, START + 7200, HALF_HOUR);
    more.map_occurrence(START + 5400, START + 7200);
    let all = open.union(&more);
    assert_eq!(all.slots(), &vec![true, true, true, true]);

    let mut taken = SlotGrid::new(START, START + 7200, HALF_HOUR);
    taken.mark_true(START + 1800, START + 3600);
    let free = all.subtract_true(&taken);
    assert_eq!(free.slots(), &vec![true, false, true, true]);
    assert_eq!(free.start(), START);
    assert_eq!(free.end(), START + 7200);
}

#[test]
fn open_slots_are_counted() {
    assert_eq!(count_open(&vec![true, false, true, true]), 3);
    assert_eq!(count_open(&vec![false; 5]), 0);
    assert_eq!(count_open(&Vec::new()), 0);
}
