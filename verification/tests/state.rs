use todo_list::{Entry, Filter, OutOfRange, State};

fn entry(description: &str, completed: bool) -> Entry {
    Entry { description: description.to_string(), completed, editing: false }
}

fn abc() -> State {
    State::new(vec![entry("A", false), entry("B", true), entry("C", false)])
}

fn with_filter(mut state: State, filter: Filter) -> State {
    state.set_filter(filter);
    state
}

#[test]
fn new_state_shows_everything() {
    let state = abc();
    assert_eq!(state.filter, Filter::All);
    assert_eq!(state.edit_value, "");
    assert_eq!(state.entries.len(), 3);
    assert_eq!(state.shown_indices(), vec![0, 1, 2]);
}

#[test]
fn new_state_may_be_empty() {
    let state = State::new(vec![]);
    assert_eq!(state.total(), 0);
    assert_eq!(state.completed_count(), 0);
    assert!(state.shown_indices().is_empty());
    assert!(!state.is_all_completed());
}

#[test]
fn fits_follows_the_completed_flag() {
    let active = entry("A", false);
    let done = entry("B", true);
    assert!(Filter::All.fits(&active));
    assert!(Filter::All.fits(&done));
    assert!(Filter::Active.fits(&active));
    assert!(!Filter::Active.fits(&done));
    assert!(!Filter::Completed.fits(&active));
    assert!(Filter::Completed.fits(&done));
}

#[test]
fn fits_ignores_the_editing_flag() {
    let editing = Entry { description: "A".to_string(), completed: false, editing: true };
    assert!(Filter::Active.fits(&editing));
    assert!(!Filter::Completed.fits(&editing));
}

#[test]
fn as_href_of_each_filter() {
    assert_eq!(Filter::All.as_href(), "#/");
    assert_eq!(Filter::Active.as_href(), "#/active");
    assert_eq!(Filter::Completed.as_href(), "#/completed");
}

#[test]
fn shown_indices_under_each_filter() {
    assert_eq!(with_filter(abc(), Filter::All).shown_indices(), vec![0, 1, 2]);
    assert_eq!(with_filter(abc(), Filter::Active).shown_indices(), vec![0, 2]);
    assert_eq!(with_filter(abc(), Filter::Completed).shown_indices(), vec![1]);
}

#[test]
fn backing_index_skips_rejected_entries() {
    let state = with_filter(
        State::new(vec![
            entry("A", true),
            entry("B", true),
            entry("C", false),
            entry("D", true),
            entry("E", false),
        ]),
        Filter::Active,
    );
    assert_eq!(state.backing_index(0), Ok(2));
    assert_eq!(state.backing_index(1), Ok(4));
    assert_eq!(state.backing_index(2), Err(OutOfRange { index: 2, shown: 2 }));
}

#[test]
fn backing_index_agrees_with_shown_indices() {
    let filters = [Filter::All, Filter::Active, Filter::Completed];
    for filter in filters {
        for bits in 0u32..64 {
            let entries: Vec<Entry> =
                (0..6).map(|i| entry(&format!("e{}", i), bits & (1 << i) != 0)).collect();
            let state = with_filter(State::new(entries), filter);
            let shown = state.shown_indices();
            let expected: Vec<usize> =
                (0..6).filter(|&i| filter.fits(&state.entries[i])).collect();
            assert_eq!(shown, expected);
            for k in 0..shown.len() {
                assert_eq!(state.backing_index(k), Ok(shown[k]));
            }
            for k in shown.len()..shown.len() + 3 {
                assert_eq!(
                    state.backing_index(k),
                    Err(OutOfRange { index: k, shown: shown.len() })
                );
            }
        }
    }
}

#[test]
fn backing_index_on_empty_state_fails() {
    let state = State::new(vec![]);
    assert_eq!(state.backing_index(0), Err(OutOfRange { index: 0, shown: 0 }));
}

#[test]
fn backing_index_of_the_largest_position_fails() {
    let state = abc();
    assert_eq!(
        state.backing_index(usize::MAX),
        Err(OutOfRange { index: usize::MAX, shown: 3 })
    );
}

#[test]
fn toggle_under_active_reaches_the_third_entry() {
    let mut state = with_filter(abc(), Filter::Active);
    assert_eq!(state.shown_indices(), vec![0, 2]);
    assert_eq!(state.toggle(1), Ok(()));
    assert_eq!(state.entries, vec![entry("A", false), entry("B", true), entry("C", true)]);
}

#[test]
fn toggle_flips_back_under_all() {
    let mut state = abc();
    assert_eq!(state.toggle(1), Ok(()));
    assert_eq!(state.entries, vec![entry("A", false), entry("B", false), entry("C", false)]);
    assert_eq!(state.toggle(1), Ok(()));
    assert_eq!(state.entries, abc().entries);
}

#[test]
fn toggle_out_of_range_changes_nothing() {
    let mut state = with_filter(abc(), Filter::Active);
    assert_eq!(state.toggle(2), Err(OutOfRange { index: 2, shown: 2 }));
    assert_eq!(state.entries, abc().entries);
    assert_eq!(state.filter, Filter::Active);
}

#[test]
fn toggle_edit_flips_editing_only() {
    let mut state = with_filter(abc(), Filter::Completed);
    assert_eq!(state.toggle_edit(0), Ok(()));
    assert_eq!(
        state.entries,
        vec![
            entry("A", false),
            Entry { description: "B".to_string(), completed: true, editing: true },
            entry("C", false),
        ]
    );
    assert_eq!(state.toggle_edit(0), Ok(()));
    assert_eq!(state.entries, abc().entries);
}

#[test]
fn toggle_edit_allows_several_entries_in_editing() {
    let mut state = abc();
    assert_eq!(state.toggle_edit(0), Ok(()));
    assert_eq!(state.toggle_edit(2), Ok(()));
    assert!(state.entries[0].editing);
    assert!(!state.entries[1].editing);
    assert!(state.entries[2].editing);
}

#[test]
fn toggle_edit_out_of_range_changes_nothing() {
    let mut state = with_filter(abc(), Filter::Completed);
    assert_eq!(state.toggle_edit(1), Err(OutOfRange { index: 1, shown: 1 }));
    assert_eq!(state.entries, abc().entries);
}

#[test]
fn remove_under_all_removes_the_second_entry() {
    let mut state = abc();
    assert_eq!(state.remove(1), Ok(()));
    assert_eq!(state.entries, vec![entry("A", false), entry("C", false)]);
}

#[test]
fn remove_under_active_skips_the_completed_entry() {
    let mut state = with_filter(abc(), Filter::Active);
    assert_eq!(state.remove(1), Ok(()));
    assert_eq!(state.entries, vec![entry("A", false), entry("B", true)]);
    assert_eq!(state.shown_indices(), vec![0]);
}

#[test]
fn remove_out_of_range_changes_nothing() {
    let mut state = abc();
    assert_eq!(state.remove(3), Err(OutOfRange { index: 3, shown: 3 }));
    assert_eq!(state.entries, abc().entries);
}

#[test]
fn complete_edit_sets_the_description_and_ends_editing() {
    let mut state = with_filter(abc(), Filter::Active);
    assert_eq!(state.toggle_edit(1), Ok(()));
    assert_eq!(state.complete_edit(1, "See".to_string()), Ok(()));
    assert_eq!(state.entries, vec![entry("A", false), entry("B", true), entry("See", false)]);
}

#[test]
fn complete_edit_takes_the_text_as_it_is() {
    let mut state = abc();
    assert_eq!(state.complete_edit(0, "  x ".to_string()), Ok(()));
    assert_eq!(state.entries[0].description, "  x ");
    assert!(state.entries[0].editing);
}

#[test]
fn complete_edit_with_empty_text_removes() {
    let mut state = with_filter(abc(), Filter::Active);
    assert_eq!(state.complete_edit(0, String::new()), Ok(()));
    assert_eq!(state.entries, vec![entry("B", true), entry("C", false)]);
}

#[test]
fn complete_edit_out_of_range_changes_nothing() {
    let mut state = with_filter(abc(), Filter::Completed);
    assert_eq!(
        state.complete_edit(1, "x".to_string()),
        Err(OutOfRange { index: 1, shown: 1 })
    );
    assert_eq!(state.complete_edit(1, String::new()), Err(OutOfRange { index: 1, shown: 1 }));
    assert_eq!(state.entries, abc().entries);
}

#[test]
fn edit_trims_and_empties_the_edit_buffer() {
    let mut state = abc();
    state.edit_value = "draft".to_string();
    assert_eq!(state.toggle_edit(2), Ok(()));
    assert_eq!(state.edit(2, "  Call home \n"), Ok(()));
    assert_eq!(state.entries[2], entry("Call home", false));
    assert_eq!(state.edit_value, "");
}

#[test]
fn edit_with_blank_text_is_remove() {
    let filters = [Filter::All, Filter::Active, Filter::Completed];
    let blanks = ["", " ", "   ", "\t\n", "\u{a0}\u{3000}"];
    for filter in filters {
        for blank in blanks {
            for idx in 0..3 {
                let mut edited = with_filter(abc(), filter);
                let mut removed = with_filter(abc(), filter);
                assert_eq!(edited.edit(idx, blank), removed.remove(idx));
                assert_eq!(edited.entries, removed.entries);
                assert_eq!(edited.filter, removed.filter);
            }
        }
    }
}

#[test]
fn edit_out_of_range_keeps_the_edit_buffer() {
    let mut state = with_filter(abc(), Filter::Completed);
    state.edit_value = "draft".to_string();
    assert_eq!(state.edit(1, "x"), Err(OutOfRange { index: 1, shown: 1 }));
    assert_eq!(state.entries, abc().entries);
    assert_eq!(state.edit_value, "draft");
}

#[test]
fn add_blank_leaves_entries_unchanged() {
    let mut state = abc();
    state.add("");
    assert_eq!(state.entries.len(), 3);
    state.add("   ");
    assert_eq!(state.entries.len(), 3);
    assert_eq!(state.entries, abc().entries);
}

#[test]
fn add_then_add_blank() {
    let mut state = State::new(vec![]);
    state.add("Buy milk");
    state.add("  ");
    assert_eq!(state.entries.len(), 1);
    assert_eq!(state.entries[0].description, "Buy milk");
    assert!(!state.entries[0].completed);
    assert!(!state.entries[0].editing);
}

#[test]
fn add_trims_and_appends_at_the_end() {
    let mut state = with_filter(abc(), Filter::Completed);
    state.add("\t Water the plants  ");
    assert_eq!(state.total(), 4);
    assert_eq!(state.entries[3], entry("Water the plants", false));
    assert_eq!(state.entries[..3], abc().entries[..]);
    assert_eq!(state.shown_indices(), vec![1]);
}

#[test]
fn add_keeps_inner_white_space() {
    let mut state = State::new(vec![]);
    state.add(" a  b\tc ");
    assert_eq!(state.entries[0].description, "a  b\tc");
}

#[test]
fn toggle_all_touches_shown_entries_only() {
    let mut state = with_filter(abc(), Filter::Active);
    state.toggle_all(true);
    assert_eq!(state.entries, vec![entry("A", true), entry("B", true), entry("C", true)]);

    let mut state = with_filter(abc(), Filter::Completed);
    state.toggle_all(false);
    assert_eq!(state.entries, vec![entry("A", false), entry("B", false), entry("C", false)]);

    let mut state = with_filter(abc(), Filter::Completed);
    state.toggle_all(true);
    assert_eq!(state.entries, abc().entries);
}

#[test]
fn toggle_all_under_all_sets_every_entry() {
    let mut state = abc();
    state.toggle_all(true);
    assert!(state.entries.iter().all(|e| e.completed));
    assert!(state.is_all_completed());
    state.toggle_all(false);
    assert!(state.entries.iter().all(|e| !e.completed));
    assert!(!state.is_all_completed());
}

#[test]
fn is_all_completed_is_false_when_nothing_is_shown() {
    assert!(!State::new(vec![]).is_all_completed());
    let only_done = State::new(vec![entry("A", true)]);
    assert!(!with_filter(only_done, Filter::Active).is_all_completed());
    let only_active = State::new(vec![entry("A", false)]);
    assert!(!with_filter(only_active, Filter::Completed).is_all_completed());
}

#[test]
fn is_all_completed_needs_every_shown_entry_completed() {
    assert!(!abc().is_all_completed());
    assert!(!with_filter(abc(), Filter::Active).is_all_completed());
    assert!(with_filter(abc(), Filter::Completed).is_all_completed());
    let done = State::new(vec![entry("A", true), entry("B", true)]);
    assert!(done.is_all_completed());
}

#[test]
fn clear_completed_empties_a_completed_list() {
    let mut state = State::new(vec![entry("A", true), entry("B", true)]);
    state.clear_completed();
    assert_eq!(state.entries, Vec::<Entry>::new());
}

#[test]
fn clear_completed_keeps_the_order_of_the_rest() {
    let mut state = with_filter(
        State::new(vec![
            entry("A", true),
            entry("B", false),
            entry("C", true),
            entry("D", false),
            entry("E", false),
            entry("F", true),
        ]),
        Filter::Active,
    );
    let before = state.total();
    let completed = state.completed_count();
    state.clear_completed();
    assert_eq!(state.entries, vec![entry("B", false), entry("D", false), entry("E", false)]);
    assert_eq!(state.filter, Filter::Active);
    assert_eq!(state.completed_count(), 0);
    assert_eq!(state.total() + completed, before);
}

#[test]
fn clear_completed_without_completed_entries_changes_nothing() {
    let mut state = State::new(vec![entry("A", false), entry("B", false)]);
    state.clear_completed();
    assert_eq!(state.entries, vec![entry("A", false), entry("B", false)]);
}

#[test]
fn total_counts_every_entry() {
    assert_eq!(abc().total(), 3);
    assert_eq!(with_filter(abc(), Filter::Completed).total(), 3);
}

#[test]
fn completed_count_ignores_the_filter() {
    assert_eq!(abc().completed_count(), 1);
    assert_eq!(with_filter(abc(), Filter::Active).completed_count(), 1);
    let done = State::new(vec![entry("A", true), entry("B", true)]);
    assert_eq!(done.completed_count(), 2);
}

#[test]
fn set_filter_leaves_the_entries() {
    let mut state = abc();
    state.set_filter(Filter::Completed);
    assert_eq!(state.filter, Filter::Completed);
    assert_eq!(state.entries, abc().entries);
}

#[test]
fn entry_new_is_active_and_not_editing() {
    assert_eq!(Entry::new("A".to_string()), entry("A", false));
}
