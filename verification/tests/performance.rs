use script_dom::performance::{
    Performance, PerformanceEntry, PerformanceEntryList, TimelineError,
};

fn entry(name: &str, entry_type: &str, start_time: u64) -> PerformanceEntry {
    PerformanceEntry {
        name: String::from(name),
        entry_type: String::from(entry_type),
        start_time,
        duration: 0,
    }
}

fn names(entries: &[PerformanceEntry]) -> Vec<String> {
    entries.iter().map(|e| e.name.clone()).collect()
}

#[test]
fn get_entries_filters_and_sorts() {
    let list = PerformanceEntryList::new(vec![
        entry("c", "mark", 30),
        entry("a", "mark", 10),
        entry("m", "measure", 20),
        entry("b", "mark", 20),
    ]);
    let marks = list.get_entries_by_name_and_type(None, Some(String::from("mark")));
    assert_eq!(names(&marks), vec!["a", "b", "c"]);
    let all = list.get_entries_by_name_and_type(None, None);
    assert_eq!(names(&all), vec!["a", "m", "b", "c"]);
    let by_name = list.get_entries_by_name_and_type(Some(String::from("b")), None);
    assert_eq!(names(&by_name), vec!["b"]);
    let none = list.get_entries_by_name_and_type(Some(String::from("b")), Some(String::from("measure")));
    assert!(none.is_empty());
}

#[test]
fn get_entries_sort_is_stable() {
    // Three entries share a start time: buffer order is kept among them.
    let list = PerformanceEntryList::new(vec![
        entry("late", "mark", 9),
        entry("x", "mark", 5),
        entry("y", "mark", 5),
        entry("z", "mark", 5),
        entry("early", "mark", 1),
    ]);
    let sorted = list.get_entries_by_name_and_type(None, None);
    assert_eq!(names(&sorted), vec!["early", "x", "y", "z", "late"]);
}

#[test]
fn clear_entries_drops_on_either_filter() {
    let mut list = PerformanceEntryList::new(vec![
        entry("a", "mark", 1),
        entry("b", "measure", 2),
        entry("a", "measure", 3),
        entry("c", "mark", 4),
    ]);
    // A name alone removes every entry of that name, whatever its type.
    list.clear_entries_by_name_and_type(Some(String::from("a")), None);
    assert_eq!(names(&list.entries), vec!["b", "c"]);
    // A type alone removes every entry of that type.
    list.clear_entries_by_name_and_type(None, Some(String::from("mark")));
    assert_eq!(names(&list.entries), vec!["b"]);
    // With neither side given nothing is removed.
    list.clear_entries_by_name_and_type(None, None);
    assert_eq!(names(&list.entries), vec!["b"]);
    // With both given an entry goes when either side matches: a type that
    // matches nothing does not save the entry from its own name.
    list.clear_entries_by_name_and_type(Some(String::from("b")), Some(String::from("mark")));
    assert!(list.entries.is_empty());
}

#[test]
fn last_entry_start_time_takes_the_latest() {
    let list = PerformanceEntryList::new(vec![
        entry("m", "mark", 10),
        entry("m", "mark", 40),
        entry("m", "measure", 70),
    ]);
    assert_eq!(
        list.get_last_entry_start_time_with_name_and_type(
            String::from("m"),
            String::from("mark"),
        ),
        40
    );
    assert_eq!(
        list.get_last_entry_start_time_with_name_and_type(
            String::from("missing"),
            String::from("mark"),
        ),
        0
    );
}

#[test]
fn into_entries_hands_the_buffer_over() {
    let list = PerformanceEntryList::new(vec![entry("a", "mark", 1), entry("b", "mark", 2)]);
    let entries = list.into_entries();
    assert_eq!(names(&entries), vec!["a", "b"]);
}

#[test]
fn queue_entry_delivers_to_interested_observers() {
    let mut p = Performance::new(0);
    p.add_multiple_type_observer(1, vec![String::from("mark")]);
    p.add_multiple_type_observer(2, vec![String::from("measure")]);

    let first = p.queue_entry(&entry("a", "mark", 10));
    // A fresh timeline has no pending task: the index signals that one must
    // be scheduled now.
    assert_eq!(first.index, Some(0));
    assert_eq!(first.buffer_full_events, 0);
    let second = p.queue_entry(&entry("b", "mark", 20));
    assert_eq!(second.index, None);

    let notifications = p.notify_observers();
    assert_eq!(notifications.len(), 2);
    assert_eq!(notifications[0].observer, 1);
    assert_eq!(names(&notifications[0].entries), vec!["a", "b"]);
    assert_eq!(notifications[1].observer, 2);
    assert!(notifications[1].entries.is_empty());
    assert!(!p.pending_notification_observers_task);

    // Notifying drained the queues; the next round is empty.
    let again = p.notify_observers();
    assert!(again[0].entries.is_empty());

    // The buffer kept both entries.
    assert_eq!(names(&p.GetEntries()), vec!["a", "b"]);
}

#[test]
fn observer_registration_updates_and_removal() {
    let mut p = Performance::new(0);
    p.add_multiple_type_observer(5, vec![String::from("mark")]);
    // Re-registering replaces the watched set.
    p.add_multiple_type_observer(5, vec![String::from("measure")]);
    assert_eq!(p.observers.len(), 1);
    let out = p.queue_entry(&entry("a", "mark", 1));
    assert_eq!(out.index, Some(0));
    assert!(p.observers[0].queued_entries.is_empty());
    p.queue_entry(&entry("m", "measure", 2));
    assert_eq!(p.observers[0].queued_entries.len(), 1);

    p.remove_observer(5);
    assert!(p.observers.is_empty());
    // Removing an unknown observer is a no-op.
    p.remove_observer(5);
    assert!(p.observers.is_empty());
}

#[test]
fn add_single_type_observer_buffered_backlog() {
    let mut p = Performance::new(0);
    p.queue_entry(&entry("b", "mark", 20));
    p.queue_entry(&entry("a", "mark", 10));
    p.notify_observers();

    // A buffered registration receives the backlog, sorted by start time,
    // and asks for a notification task.
    let task = p.add_single_type_observer(9, &String::from("mark"), true);
    assert!(task);
    assert_eq!(p.observers.len(), 1);
    assert_eq!(names(&p.observers[0].queued_entries), vec!["a", "b"]);

    // Adding a second type to the same observer keeps its queue; repeating
    // a type changes nothing.
    let task2 = p.add_single_type_observer(9, &String::from("measure"), false);
    assert!(!task2);
    assert_eq!(p.observers[0].entry_types.len(), 2);
    let task3 = p.add_single_type_observer(9, &String::from("mark"), false);
    assert!(!task3);
    assert_eq!(p.observers[0].entry_types.len(), 2);
}

#[test]
fn resource_buffer_overflow_parks_and_fires() {
    let mut p = Performance::new(0);
    p.SetResourceTimingBufferSize(1);

    // The first two resource entries are admitted: the count may reach one
    // past the capacity before admission stops.
    let r1 = p.queue_entry(&entry("r1", "resource", 1));
    assert_eq!(r1.index, Some(0));
    let r2 = p.queue_entry(&entry("r2", "resource", 2));
    assert_eq!(r2.buffer_full_events, 0);
    assert_eq!(p.resource_timing_buffer_current_size, 2);

    // The third does not fit: the buffer-full episode opens, nothing was
    // parked yet, so no event fires, and the entry is parked.
    let r3 = p.queue_entry(&entry("r3", "resource", 3));
    assert_eq!(r3.index, None);
    assert_eq!(r3.buffer_full_events, 0);
    assert_eq!(p.resource_timing_secondary_entries.len(), 1);

    // The fourth finds a parked entry that still cannot move: one
    // buffer-full event fires and the parked entry is dropped.
    let r4 = p.queue_entry(&entry("r4", "resource", 4));
    assert_eq!(r4.index, None);
    assert_eq!(r4.buffer_full_events, 1);
    assert_eq!(p.resource_timing_secondary_entries.len(), 1);
    assert_eq!(names(&p.buffer.entries), vec!["r1", "r2"]);

    // Clearing the resource timings resets the count.
    p.ClearResourceTimings();
    assert_eq!(p.resource_timing_buffer_current_size, 0);
    assert!(p.buffer.entries.is_empty());
}

#[test]
fn copy_secondary_moves_parked_entries_when_room_returns() {
    let mut p = Performance::new(0);
    p.SetResourceTimingBufferSize(0);
    // With capacity zero the first resource entry is admitted (count 0 <= 0)
    // and the second is parked.
    p.queue_entry(&entry("r1", "resource", 1));
    let parked = p.queue_entry(&entry("r2", "resource", 2));
    assert_eq!(parked.index, None);
    assert_eq!(p.resource_timing_secondary_entries.len(), 1);

    // Room returns: the copying pass moves the parked entry into the buffer
    // and delivers it.
    p.SetResourceTimingBufferSize(10);
    p.notify_observers();
    let task = p.copy_secondary_resource_timing_buffer();
    assert!(task);
    assert!(p.resource_timing_secondary_entries.is_empty());
    assert_eq!(names(&p.buffer.entries), vec!["r1", "r2"]);
    assert_eq!(p.resource_timing_buffer_current_size, 2);
}

#[test]
fn fire_buffer_full_event_drops_what_does_not_fit() {
    let mut p = Performance::new(0);
    p.SetResourceTimingBufferSize(0);
    p.queue_entry(&entry("r1", "resource", 1));
    p.queue_entry(&entry("r2", "resource", 2));
    assert_eq!(p.resource_timing_secondary_entries.len(), 1);
    // Still no room: the pass moves nothing, fires one event, and drops the
    // parked entry.
    let fired = p.fire_buffer_full_event();
    assert_eq!(fired.buffer_full_events, 1);
    assert!(!fired.task_queued);
    assert!(p.resource_timing_secondary_entries.is_empty());
    assert_eq!(names(&p.buffer.entries), vec!["r1"]);
}

#[test]
fn mark_rejects_reserved_names_in_windows() {
    let mut p = Performance::new(0);
    assert_eq!(
        p.Mark(String::from("navigationStart"), 5, true),
        Err(TimelineError::Syntax)
    );
    assert!(p.buffer.entries.is_empty());
    // Outside a window the same name is allowed.
    let out = p.Mark(String::from("navigationStart"), 5, false).unwrap();
    assert_eq!(out.index, Some(0));
    // An ordinary mark records the given time.
    p.Mark(String::from("checkpoint"), 42, true).unwrap();
    let last = &p.buffer.entries[1];
    assert_eq!(last.name, String::from("checkpoint"));
    assert_eq!(last.entry_type, String::from("mark"));
    assert_eq!(last.start_time, 42);
    assert_eq!(last.duration, 0);
}

#[test]
fn clear_marks_and_measures() {
    let mut p = Performance::new(0);
    p.Mark(String::from("m1"), 1, true).unwrap();
    p.Mark(String::from("m2"), 2, true).unwrap();
    p.Measure(String::from("span"), None, None, 9);
    p.Measure(String::from("m2"), None, None, 10);
    // Clearing marks with a name drops every mark and, in addition, every
    // entry of that name, whatever its type.
    p.ClearMarks(Some(String::from("m2")));
    assert_eq!(names(&p.buffer.entries), vec!["span"]);
    // Clearing measures drops every measure even when the given name
    // matches nothing.
    p.ClearMeasures(Some(String::from("missing")));
    assert!(p.buffer.entries.is_empty());
    // On an empty buffer clearing is a no-op.
    p.ClearMarks(None);
    assert!(p.buffer.entries.is_empty());
}

#[test]
fn measure_between_time_origin_and_now() {
    let mut p = Performance::new(0);
    let out = p.Measure(String::from("whole"), None, None, 300);
    assert_eq!(out.index, Some(0));
    let e = &p.buffer.entries[0];
    assert_eq!(e.name, String::from("whole"));
    assert_eq!(e.entry_type, String::from("measure"));
    assert_eq!(e.start_time, 0);
    assert_eq!(e.duration, 300);
}

#[test]
fn measure_against_recorded_endpoints() {
    let mut p = Performance::new(0);
    // The endpoint lookup matches an entry whose name is the mark type and
    // whose type is the requested name, as the timeline records them.
    p.queue_entry(&entry("mark", "checkpoint", 120));
    p.Measure(
        String::from("since"),
        Some(String::from("checkpoint")),
        None,
        200,
    );
    let e = &p.buffer.entries[1];
    assert_eq!(e.start_time, 120);
    assert_eq!(e.duration, 80);
    // A negative span is representable.
    p.Measure(
        String::from("backwards"),
        Some(String::from("checkpoint")),
        Some(String::from("unknown")),
        0,
    );
    let e = &p.buffer.entries[2];
    assert_eq!(e.start_time, 120);
    assert_eq!(e.duration, -120);
}

#[test]
fn get_entries_by_type_and_name_views() {
    let mut p = Performance::new(7);
    assert_eq!(p.navigation_start_precise, 7);
    p.Mark(String::from("a"), 3, true).unwrap();
    p.Mark(String::from("b"), 1, true).unwrap();
    p.Measure(String::from("a"), None, None, 5);
    assert_eq!(names(&p.GetEntriesByType(String::from("mark"))), vec!["b", "a"]);
    assert_eq!(names(&p.GetEntriesByName(String::from("a"), None)), vec!["a", "a"]);
    assert_eq!(
        names(&p.GetEntriesByName(String::from("a"), Some(String::from("measure")))),
        vec!["a"]
    );
}

#[test]
fn update_entry_replaces_in_place() {
    let mut p = Performance::new(0);
    p.queue_entry(&entry("a", "mark", 1));
    p.queue_entry(&entry("b", "mark", 2));
    p.update_entry(1, &entry("b2", "mark", 3));
    assert_eq!(names(&p.buffer.entries), vec!["a", "b2"]);
    // An out-of-range index changes nothing.
    p.update_entry(9, &entry("x", "mark", 4));
    assert_eq!(names(&p.buffer.entries), vec!["a", "b2"]);
}

#[test]
fn clear_and_disable_empties_and_locks_the_buffer() {
    let mut p = Performance::new(0);
    p.queue_entry(&entry("a", "mark", 1));
    p.clear_and_disable_performance_entry_buffer();
    assert!(p.buffer.entries.is_empty());
    assert_eq!(p.resource_timing_buffer_size_limit, 0);
}
