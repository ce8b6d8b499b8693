use live_panel::keys::Key;
use live_panel::panel::{Event, PanelState};

fn record(asset: &str, price: u64) -> live_panel::types::PriceIndex {
    live_panel::types::PriceIndex { asset: String::from(asset), price }
}

#[test]
fn first_tick_always_refreshes() {
    let mut p: PanelState<u32> = PanelState::new(5000);
    assert!(p.refresh_due(0));
    let eff = p.step(Event::Tick { now_ms: 0, fetched: vec![7, 8] });
    assert!(eff.refreshed);
    assert!(eff.redraw);
    assert!(!eff.quit);
    assert!(!eff.bell);
    assert_eq!(p.items().as_slice(), &[7, 8]);
}

#[test]
fn throttling_exactly_one_refresh_in_25_ticks() {
    // refresh interval 5 s, tick period 200 ms, starting right after a
    // refresh: ticks 1..=24 (through 4.8 s) refresh nothing, the 25th
    // (at 5.0 s) triggers the next refresh.
    let mut p: PanelState<u32> = PanelState::new(5000);
    let eff = p.step(Event::Tick { now_ms: 0, fetched: vec![1] });
    assert!(eff.refreshed);
    let mut refreshes = 0;
    for k in 1..=24u64 {
        let eff = p.step(Event::Tick { now_ms: k * 200, fetched: vec![99] });
        assert!(eff.redraw);
        if eff.refreshed {
            refreshes += 1;
        }
        assert_eq!(p.items().as_slice(), &[1]);
    }
    assert_eq!(refreshes, 0);
    let eff = p.step(Event::Tick { now_ms: 5000, fetched: vec![99] });
    assert!(eff.refreshed);
    refreshes += 1;
    assert_eq!(refreshes, 1);
    assert_eq!(p.items().as_slice(), &[99]);
}

#[test]
fn throttled_tick_redraws_with_unchanged_data() {
    let mut p: PanelState<u32> = PanelState::new(5000);
    p.step(Event::Tick { now_ms: 1000, fetched: vec![3] });
    let eff = p.step(Event::Tick { now_ms: 1200, fetched: vec![4] });
    assert!(eff.redraw);
    assert!(!eff.refreshed);
    assert_eq!(p.items().as_slice(), &[3]);
}

#[test]
fn scroll_key_redraw_iff_offset_changed() {
    let mut p: PanelState<u32> = PanelState::new(5000);
    // at the saturating bound: bell, no redraw
    let eff = p.step(Event::Key(Key::Up));
    assert!(eff.bell);
    assert!(!eff.redraw);
    assert_eq!(p.offset(), 0);
    // offset moves: redraw, no bell
    let eff = p.step(Event::Key(Key::Down));
    assert!(eff.redraw);
    assert!(!eff.bell);
    assert_eq!(p.offset(), 1);
    let eff = p.step(Event::Key(Key::Char('k')));
    assert!(eff.redraw);
    assert!(!eff.bell);
    assert_eq!(p.offset(), 0);
}

#[test]
fn ignored_key_does_nothing() {
    let mut p: PanelState<u32> = PanelState::new(5000);
    let eff = p.step(Event::Key(Key::Char('z')));
    assert!(!eff.redraw && !eff.bell && !eff.quit && !eff.refreshed);
    assert_eq!(p.offset(), 0);
}

#[test]
fn quit_key_stops_the_script() {
    let mut p: PanelState<u32> = PanelState::new(5000);
    let trace = p.run_script(vec![
        Event::Key(Key::Down),
        Event::Tick { now_ms: 0, fetched: vec![5] },
        Event::Key(Key::Char('q')),
        Event::Key(Key::Down),
        Event::Key(Key::Down),
    ]);
    // the two events after the quit key are never handled
    assert_eq!(trace.len(), 3);
    assert!(trace[2].quit);
    assert!(!trace[0].quit && !trace[1].quit);
    assert_eq!(p.offset(), 1);
}

#[test]
fn stream_end_and_error_terminate() {
    let mut p: PanelState<u32> = PanelState::new(5000);
    let trace = p.run_script(vec![Event::Key(Key::Down), Event::StreamEnd, Event::Key(Key::Down)]);
    assert_eq!(trace.len(), 2);
    assert!(trace[1].quit);

    let mut q: PanelState<u32> = PanelState::new(5000);
    let trace = q.run_script(vec![Event::StreamError, Event::Key(Key::Down)]);
    assert_eq!(trace.len(), 1);
    assert!(trace[0].quit);
}

#[test]
fn footer_seconds_counts_from_last_refresh() {
    let mut p: PanelState<u32> = PanelState::new(5000);
    assert_eq!(p.footer_seconds(123456), 0);
    p.step(Event::Tick { now_ms: 2000, fetched: vec![1] });
    assert_eq!(p.footer_seconds(2000), 0);
    assert_eq!(p.footer_seconds(7500), 5);
}

#[test]
fn refresh_commits_whole_list_even_when_empty() {
    // an updater that failed hands back an empty list; it replaces the
    // data wholesale and the loop goes on
    let mut p: PanelState<u32> = PanelState::new(0);
    p.step(Event::Tick { now_ms: 0, fetched: vec![1, 2, 3] });
    let eff = p.step(Event::Tick { now_ms: 1, fetched: vec![] });
    assert!(eff.refreshed);
    assert!(p.items().is_empty());
}

#[test]
fn end_to_end_refresh_sort_and_single_row() {
    // updater hands back three priced assets; after the refresh the
    // records sort by asset name and, packed four to a row, all three
    // fit one partial row whose remaining slot stays empty
    let mut p = PanelState::new(5000);
    let fetched = vec![
        record("SOL", 10_030_000),
        record("BTC", 5_000_010_000),
        record("ETH", 300_020_000),
    ];
    let eff = p.step(Event::Tick { now_ms: 0, fetched });
    assert!(eff.refreshed);
    let rows = p.render_rows();
    let names: Vec<&str> = p.items().iter().map(|r| r.asset.as_str()).collect();
    assert_eq!(names, vec!["BTC", "ETH", "SOL"]);
    assert_eq!(rows.len(), 1);
    assert_eq!(
        rows[0],
        vec![
            String::from("BTC"),
            String::from("50000.10000"),
            String::from("ETH"),
            String::from("3000.20000"),
            String::from("SOL"),
            String::from("100.30000"),
        ]
    );
}
