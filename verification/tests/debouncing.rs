use shdrr::debounce::Debouncer;
use shdrr::pipeline::RawEvent;

const WINDOW: u64 = 2000;

#[test]
fn burst_on_one_path_yields_one_signal() {
    let mut d = Debouncer::new(WINDOW);
    d.note(RawEvent::Modified("/r/a.fs".to_string()), 0);
    d.note(RawEvent::Modified("/r/a.fs".to_string()), 500);
    d.note(RawEvent::Modified("/r/a.fs".to_string()), 1000);
    // The window of the last event closes at 3000.
    assert_eq!(d.drain(2999), Vec::<String>::new());
    assert_eq!(d.drain(3000), vec!["/r/a.fs".to_string()]);
    assert_eq!(d.drain(10_000), Vec::<String>::new());
}

#[test]
fn spread_events_yield_one_signal_each() {
    let mut d = Debouncer::new(WINDOW);
    let mut signals = 0;
    let times = [0u64, 5000, 10_000];
    for t in times {
        signals += d.drain(t).len();
        d.note(RawEvent::Modified("/r/a.fs".to_string()), t);
    }
    signals += d.drain(u64::MAX - WINDOW).len();
    assert_eq!(signals, 3);
}

#[test]
fn removals_and_metadata_never_signal() {
    let mut d = Debouncer::new(WINDOW);
    d.note(RawEvent::Removed("/r/a.fs".to_string()), 0);
    d.note(RawEvent::Metadata("/r/b.fs".to_string()), 10);
    assert_eq!(d.drain(u64::MAX - WINDOW), Vec::<String>::new());
}

#[test]
fn rename_signals_the_destination() {
    let mut d = Debouncer::new(WINDOW);
    d.note(
        RawEvent::Renamed("/r/old.fs".to_string(), "/r/new.fs".to_string()),
        0,
    );
    assert_eq!(d.drain(WINDOW), vec!["/r/new.fs".to_string()]);
}

#[test]
fn distinct_paths_signal_in_window_close_order() {
    let mut d = Debouncer::new(WINDOW);
    d.note(RawEvent::Modified("/r/a.fs".to_string()), 0);
    d.note(RawEvent::Created("/r/b.vs".to_string()), 100);
    assert_eq!(
        d.drain(5000),
        vec!["/r/a.fs".to_string(), "/r/b.vs".to_string()]
    );
}

#[test]
fn coalescing_moves_the_window_close_back() {
    let mut d = Debouncer::new(WINDOW);
    d.note(RawEvent::Modified("/r/a.fs".to_string()), 0);
    d.note(RawEvent::Modified("/r/b.vs".to_string()), 100);
    // A fresh change on the first path re-opens its window, so the second
    // path's window now closes first.
    d.note(RawEvent::Modified("/r/a.fs".to_string()), 200);
    assert_eq!(d.drain(2100), vec!["/r/b.vs".to_string()]);
    assert_eq!(d.drain(2200), vec!["/r/a.fs".to_string()]);
}

#[test]
fn draining_early_emits_nothing() {
    let mut d = Debouncer::new(WINDOW);
    d.note(RawEvent::Modified("/r/a.fs".to_string()), 0);
    assert_eq!(d.drain(WINDOW - 1), Vec::<String>::new());
    assert_eq!(d.drain(WINDOW), vec!["/r/a.fs".to_string()]);
}
