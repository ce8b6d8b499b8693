use vstd::prelude::*;

use crate::keys::Key;
use crate::keys::KeyAction;
use crate::keys::classify;
use crate::keys::classify_spec;
use crate::scroll::ScrollState;
use crate::table::TableData;
use crate::table::rows_of;
use crate::table::rows_view;
use crate::table::sort_spec;
use crate::table::to_rows;

verus! {

/// Mathematical model of the panel: scroll offset, the committed item
/// list, the timestamp of the last successful refresh (milliseconds),
/// and the configured minimum interval between refreshes.
pub struct PanelModel<D> {
    pub offset: int,
    pub items: Seq<D>,
    pub last_refresh: Option<int>,
    pub interval_ms: int,
}

/// What one loop iteration asks its surroundings to do.
#[derive(Clone, Copy, PartialEq, Eq, Structural, Debug)]
pub struct Effect {
    /// Leave the loop (and restore the terminal).
    pub quit: bool,
    /// Redraw the table from the current state.
    pub redraw: bool,
    /// Emit an audible bell (a scroll key that changed nothing).
    pub bell: bool,
    /// The item list was replaced by a fresh updater result.
    pub refreshed: bool,
}

/// One event of the run loop: the periodic timer (carrying the clock
/// reading and the records the updater would deliver), a key press,
/// or the end or failure of the input stream.
pub enum Event<D> {
    Tick { now_ms: u64, fetched: Vec<D> },
    Key(Key),
    StreamEnd,
    StreamError,
}

/// Ghost counterpart of `Event`.
pub enum EventModel<D> {
    Tick { now_ms: int, fetched: Seq<D> },
    Key(Key),
    StreamEnd,
    StreamError,
}

impl<D> View for Event<D> {
    type V = EventModel<D>;

    open spec fn view(&self) -> EventModel<D> {
        match self {
            Event::Tick { now_ms, fetched } => EventModel::Tick {
                now_ms: *now_ms as int,
                fetched: fetched@,
            },
            Event::Key(k) => EventModel::Key(*k),
            Event::StreamEnd => EventModel::StreamEnd,
            Event::StreamError => EventModel::StreamError,
        }
    }
}

/// A refresh is due when none has happened yet, or when at least the
/// configured interval has elapsed since the last one.
pub open spec fn refresh_due_model(last_refresh: Option<int>, interval_ms: int, now_ms: int) -> bool {
    match last_refresh {
        Option::None => true,
        Option::Some(t) => now_ms - t >= interval_ms,
    }
}

/// The decision core of the event multiplexer, one event at a time.
///
/// A timer tick always redraws; it commits the fetched records and the
/// new timestamp only when a refresh was due. A key press quits,
/// scrolls (redrawing when the offset moved, ringing the bell when it
/// was already saturated), or is ignored. Stream end and stream error
/// quit.
pub open spec fn step_model<D>(s: PanelModel<D>, e: EventModel<D>) -> (PanelModel<D>, Effect) {
    match e {
        EventModel::Tick { now_ms, fetched } => {
            if refresh_due_model(s.last_refresh, s.interval_ms, now_ms) {
                (
                    PanelModel { items: fetched, last_refresh: Option::Some(now_ms), ..s },
                    Effect { quit: false, redraw: true, bell: false, refreshed: true },
                )
            } else {
                (s, Effect { quit: false, redraw: true, bell: false, refreshed: false })
            }
        },
        EventModel::Key(k) => match classify_spec(k) {
            KeyAction::Quit => (
                s,
                Effect { quit: true, redraw: false, bell: false, refreshed: false },
            ),
            KeyAction::ScrollUp => if s.offset > 0 {
                (
                    PanelModel { offset: s.offset - 1, ..s },
                    Effect { quit: false, redraw: true, bell: false, refreshed: false },
                )
            } else {
                (s, Effect { quit: false, redraw: false, bell: true, refreshed: false })
            },
            KeyAction::ScrollDown => if s.offset < usize::MAX {
                (
                    PanelModel { offset: s.offset + 1, ..s },
                    Effect { quit: false, redraw: true, bell: false, refreshed: false },
                )
            } else {
                (s, Effect { quit: false, redraw: false, bell: true, refreshed: false })
            },
            KeyAction::Ignore => (
                s,
                Effect { quit: false, redraw: false, bell: false, refreshed: false },
            ),
        },
        EventModel::StreamEnd => (
            s,
            Effect { quit: true, redraw: false, bell: false, refreshed: false },
        ),
        EventModel::StreamError => (
            s,
            Effect { quit: true, redraw: false, bell: false, refreshed: false },
        ),
    }
}

/// The run loop over a whole event script: events are handled in order
/// and the loop stops right after the first event whose effect quits.
/// Returns the final state and the trace of effects of the handled
/// events.
pub open spec fn run_model<D>(s: PanelModel<D>, evs: Seq<EventModel<D>>) -> (PanelModel<D>, Seq<Effect>)
    decreases evs.len(),
{
    if evs.len() == 0 {
        (s, Seq::empty())
    } else {
        let first = step_model(s, evs[0]);
        if first.1.quit {
            (first.0, seq![first.1])
        } else {
            let rest = run_model(first.0, evs.skip(1));
            (rest.0, seq![first.1] + rest.1)
        }
    }
}

/// The state the run loop owns: scroll position, committed records,
/// last-refresh timestamp, and the refresh interval it was configured
/// with.
pub struct PanelState<D> {
    scroll: ScrollState,
    items: Vec<D>,
    last_refresh: Option<u64>,
    refresh_interval_ms: u64,
}

impl<D> View for PanelState<D> {
    type V = PanelModel<D>;

    closed spec fn view(&self) -> PanelModel<D> {
        PanelModel {
            offset: self.scroll.offset as int,
            items: self.items@,
            last_refresh: match self.last_refresh {
                Option::None => Option::None,
                Option::Some(t) => Option::Some(t as int),
            },
            interval_ms: self.refresh_interval_ms as int,
        }
    }
}

impl<D> PanelState<D> {
    /// An empty panel: offset zero, no records, no refresh yet.
    pub fn new(refresh_interval_ms: u64) -> (s: Self)
        ensures
            s@ == (PanelModel::<D> {
                offset: 0,
                items: Seq::empty(),
                last_refresh: Option::None,
                interval_ms: refresh_interval_ms as int,
            }),
    {
        let s = PanelState {
            scroll: ScrollState::new(),
            items: Vec::new(),
            last_refresh: Option::None,
            refresh_interval_ms,
        };
        proof {
            assert(s@.items =~= Seq::<D>::empty());
        }
        s
    }

    /// The current scroll offset, for the viewport.
    pub fn offset(&self) -> (o: usize)
        ensures
            o as int == self@.offset,
    {
        self.scroll.offset
    }

    /// The committed records, for rendering.
    pub fn items(&self) -> (v: &Vec<D>)
        ensures
            v@ == self@.items,
    {
        &self.items
    }

    /// Whether the timer branch should invoke the updater now: true
    /// before the first refresh, and afterwards exactly when the
    /// configured interval has elapsed since the last one.
    pub fn refresh_due(&self, now_ms: u64) -> (due: bool)
        ensures
            due == refresh_due_model(self@.last_refresh, self@.interval_ms, now_ms as int),
    {
        match self.last_refresh {
            Option::None => true,
            Option::Some(t) => now_ms >= t && now_ms - t >= self.refresh_interval_ms,
        }
    }

    /// Seconds elapsed since the last successful refresh, or zero when
    /// none has happened yet; shown by the footer.
    pub fn footer_seconds(&self, now_ms: u64) -> (secs: u64)
        ensures
            secs as int == (match self@.last_refresh {
                Option::None => 0int,
                Option::Some(t) => if now_ms >= t { (now_ms - t) / 1000 } else { 0int },
            }),
    {
        match self.last_refresh {
            Option::None => 0,
            Option::Some(t) => if now_ms >= t {
                (now_ms - t) / 1000
            } else {
                0
            },
        }
    }

    /// Handle one event: the verified counterpart of one iteration of
    /// the run loop, exactly `step_model` on the panel's model.
    pub fn step(&mut self, e: Event<D>) -> (eff: Effect)
        ensures
            final(self)@ == step_model(old(self)@, e@).0,
            eff == step_model(old(self)@, e@).1,
    {
        match e {
            Event::Tick { now_ms, fetched } => {
                let refreshed = if self.refresh_due(now_ms) {
                    self.items = fetched;
                    self.last_refresh = Option::Some(now_ms);
                    true
                } else {
                    false
                };
                Effect { quit: false, redraw: true, bell: false, refreshed }
            },
            Event::Key(k) => match classify(k) {
                KeyAction::Quit => Effect { quit: true, redraw: false, bell: false, refreshed: false },
                KeyAction::ScrollUp => {
                    let changed = self.scroll.scroll_up();
                    Effect { quit: false, redraw: changed, bell: !changed, refreshed: false }
                },
                KeyAction::ScrollDown => {
                    let changed = self.scroll.scroll_down();
                    Effect { quit: false, redraw: changed, bell: !changed, refreshed: false }
                },
                KeyAction::Ignore => Effect { quit: false, redraw: false, bell: false, refreshed: false },
            },
            Event::StreamEnd => Effect { quit: true, redraw: false, bell: false, refreshed: false },
            Event::StreamError => Effect { quit: true, redraw: false, bell: false, refreshed: false },
        }
    }

    /// Drive the panel through a whole script of events, as the run
    /// loop would: in order, stopping right after the first quitting
    /// effect. Returns the trace of effects of the handled events.
    pub fn run_script(&mut self, events: Vec<Event<D>>) -> (trace: Vec<Effect>)
        ensures
            final(self)@ == run_model(old(self)@, events@.map_values(|e: Event<D>| e@)).0,
            trace@ == run_model(old(self)@, events@.map_values(|e: Event<D>| e@)).1,
    {
        let ghost s0 = self@;
        let ghost full = events@.map_values(|e: Event<D>| e@);
        let mut evs = events;
        let mut trace: Vec<Effect> = Vec::new();
        let mut quit = false;
        while evs.len() > 0 && !quit
            invariant
                !quit ==> run_model(s0, full).0 == run_model(self@, evs@.map_values(|e: Event<D>| e@)).0,
                !quit ==> run_model(s0, full).1 == trace@ + run_model(self@, evs@.map_values(|e: Event<D>| e@)).1,
                quit ==> run_model(s0, full).0 == self@,
                quit ==> run_model(s0, full).1 == trace@,
            decreases evs.len(),
        {
            let ghost rem_pre = evs@.map_values(|e: Event<D>| e@);
            let e = evs.remove(0);
            proof {
                assert(rem_pre[0] == e@);
                assert(evs@.map_values(|ev: Event<D>| ev@) =~= rem_pre.skip(1));
            }
            let eff = self.step(e);
            trace.push(eff);
            if eff.quit {
                quit = true;
            }
        }
        proof {
            if !quit {
                assert(evs@.map_values(|e: Event<D>| e@).len() == 0);
                assert(run_model(s0, full).1 =~= trace@);
            }
        }
        trace
    }
}

impl<D: TableData> PanelState<D> {
    /// One draw: sort the committed records in place under their
    /// order, then project the sorted list into the visual rows the
    /// table widget shows. Scroll offset, timestamp and configuration
    /// are untouched.
    pub fn render_rows(&mut self) -> (rows: Vec<Vec<String>>)
        ensures
            final(self)@ == (PanelModel { items: sort_spec(old(self)@.items), ..old(self)@ }),
            rows_view(rows@) == rows_of(sort_spec(old(self)@.items), D::group_size_spec()),
    {
        to_rows(&mut self.items)
    }
}

/// A timer event.
pub open spec fn is_tick<D>(e: EventModel<D>) -> bool {
    match e {
        EventModel::Tick { .. } => true,
        _ => false,
    }
}

/// The clock reading a timer event carries (zero for other events).
pub open spec fn tick_now<D>(e: EventModel<D>) -> int {
    match e {
        EventModel::Tick { now_ms, .. } => now_ms,
        _ => 0,
    }
}

/// A key press that scrolls up.
pub open spec fn is_up_key<D>(e: EventModel<D>) -> bool {
    match e {
        EventModel::Key(k) => classify_spec(k) == KeyAction::ScrollUp,
        _ => false,
    }
}

/// A key press that scrolls in either direction.
pub open spec fn is_scroll_key<D>(e: EventModel<D>) -> bool {
    match e {
        EventModel::Key(k) => classify_spec(k) == KeyAction::ScrollUp
            || classify_spec(k) == KeyAction::ScrollDown,
        _ => false,
    }
}

/// An event on which the loop terminates: a quit key, the end of the
/// input stream, or an input-stream error.
pub open spec fn is_terminal_event<D>(e: EventModel<D>) -> bool {
    match e {
        EventModel::Key(k) => classify_spec(k) == KeyAction::Quit,
        EventModel::StreamEnd => true,
        EventModel::StreamError => true,
        EventModel::Tick { .. } => false,
    }
}

/// The offset never goes below zero: after any sequence of scroll-up
/// presses starting at offset zero, the offset is still zero.
pub proof fn lemma_up_from_zero_stays_zero<D>(s: PanelModel<D>, evs: Seq<EventModel<D>>)
    requires
        s.offset == 0,
        forall|i: int| 0 <= i < evs.len() ==> is_up_key(#[trigger] evs[i]),
    ensures
        run_model(s, evs).0.offset == 0,
    decreases evs.len(),
{
    if evs.len() > 0 {
        assert(is_up_key(evs[0]));
        let first = step_model(s, evs[0]);
        assert(first.0 == s);
        assert(!first.1.quit);
        assert forall|i: int| 0 <= i < evs.skip(1).len() implies is_up_key(#[trigger] evs.skip(1)[i]) by {
            assert(evs.skip(1)[i] == evs[i + 1]);
        }
        lemma_up_from_zero_stays_zero(first.0, evs.skip(1));
    }
}

/// An event quits the loop exactly when it is a quit key, the end of
/// the input stream, or an input-stream error — whatever the state.
pub proof fn lemma_quit_iff_terminal<D>(s: PanelModel<D>, e: EventModel<D>)
    ensures
        step_model(s, e).1.quit <==> is_terminal_event(e),
{
}

/// A redraw happens exactly on a tick whose refresh was due or on a
/// scroll key that moved the offset, and a bell rings exactly on a
/// scroll key that could not move it. A tick whose refresh was not yet
/// due also redraws, by design, so such ticks stand outside this
/// equivalence.
pub proof fn lemma_redraw_iff<D>(s: PanelModel<D>, e: EventModel<D>)
    requires
        is_tick(e) ==> refresh_due_model(s.last_refresh, s.interval_ms, tick_now(e)),
    ensures
        step_model(s, e).1.redraw <==> ((is_tick(e) && refresh_due_model(
            s.last_refresh,
            s.interval_ms,
            tick_now(e),
        )) || (is_scroll_key(e) && step_model(s, e).0.offset != s.offset)),
        step_model(s, e).1.bell <==> (is_scroll_key(e) && step_model(s, e).0.offset == s.offset),
{
}

/// Throttling, one tick at a time: a tick that arrives before the
/// interval has elapsed since the last refresh changes nothing — the
/// state is kept whole and no refresh is reported.
pub proof fn lemma_tick_before_interval<D>(s: PanelModel<D>, t: int, e: EventModel<D>)
    requires
        s.last_refresh == Option::Some(t),
        is_tick(e),
        tick_now(e) - t < s.interval_ms,
    ensures
        step_model(s, e).0 == s,
        !step_model(s, e).1.refreshed,
        step_model(s, e).1.redraw,
{
}

/// A tick at or past the interval (or before any refresh) commits
/// exactly the fetched records and the tick's own timestamp.
pub proof fn lemma_tick_when_due<D>(s: PanelModel<D>, now_ms: int, fetched: Seq<D>)
    requires
        refresh_due_model(s.last_refresh, s.interval_ms, now_ms),
    ensures
        step_model(s, EventModel::Tick { now_ms, fetched }).0 == (PanelModel {
            items: fetched,
            last_refresh: Option::Some(now_ms),
            ..s
        }),
        step_model(s, EventModel::Tick { now_ms, fetched }).1.refreshed,
        step_model(s, EventModel::Tick { now_ms, fetched }).1.redraw,
{
}

/// Throttling over a whole script: ticks that all arrive within the
/// interval after the last refresh leave the state untouched and
/// report no refresh, however many they are.
pub proof fn lemma_no_refresh_within_interval<D>(s: PanelModel<D>, t: int, evs: Seq<EventModel<D>>)
    requires
        s.last_refresh == Option::Some(t),
        forall|i: int| 0 <= i < evs.len() ==> is_tick(#[trigger] evs[i]),
        forall|i: int| 0 <= i < evs.len() ==> tick_now(#[trigger] evs[i]) - t < s.interval_ms,
    ensures
        run_model(s, evs).0 == s,
        run_model(s, evs).1.len() == evs.len(),
        forall|i: int| 0 <= i < evs.len() ==> !(#[trigger] run_model(s, evs).1[i]).refreshed,
    decreases evs.len(),
{
    if evs.len() > 0 {
        let first = step_model(s, evs[0]);
        lemma_tick_before_interval(s, t, evs[0]);
        assert forall|i: int| 0 <= i < evs.skip(1).len() implies is_tick(#[trigger] evs.skip(1)[i])
            && tick_now(evs.skip(1)[i]) - t < s.interval_ms by {
            assert(evs.skip(1)[i] == evs[i + 1]);
        }
        lemma_no_refresh_within_interval(first.0, t, evs.skip(1));
        assert forall|i: int| 0 <= i < evs.len() implies !(#[trigger] run_model(s, evs).1[i]).refreshed by {
            if i > 0 {
                assert(run_model(s, evs).1[i] == run_model(s, evs.skip(1)).1[i - 1]);
            }
        }
    }
}

/// The last-refresh timestamp never decreases.
pub proof fn lemma_last_refresh_monotone<D>(s: PanelModel<D>, t: int, e: EventModel<D>)
    requires
        s.interval_ms >= 0,
        s.last_refresh == Option::Some(t),
    ensures
        match step_model(s, e).0.last_refresh {
            Option::Some(t2) => t2 >= t,
            Option::None => false,
        },
{
}

/// The loop stops exactly at the first terminating event: everything
/// before it is handled, it is handled and quits, and nothing after it
/// is handled.
pub proof fn lemma_quit_terminates<D>(s: PanelModel<D>, evs: Seq<EventModel<D>>, i: int)
    requires
        0 <= i < evs.len(),
        forall|j: int| 0 <= j < i ==> !is_terminal_event(#[trigger] evs[j]),
        is_terminal_event(evs[i]),
    ensures
        run_model(s, evs).1.len() == i + 1,
        run_model(s, evs).1[i].quit,
    decreases evs.len(),
{
    let first = step_model(s, evs[0]);
    lemma_quit_iff_terminal(s, evs[0]);
    if i == 0 {
    } else {
        assert(!first.1.quit);
        assert forall|j: int| 0 <= j < i - 1 implies !is_terminal_event(#[trigger] evs.skip(1)[j]) by {
            assert(evs.skip(1)[j] == evs[j + 1]);
        }
        assert(evs.skip(1)[i - 1] == evs[i]);
        lemma_quit_terminates(first.0, evs.skip(1), i - 1);
        assert(run_model(s, evs).1[i] == run_model(first.0, evs.skip(1)).1[i - 1]);
    }
}

/// Without a terminating event the loop handles the whole script and
/// never quits.
pub proof fn lemma_runs_to_end<D>(s: PanelModel<D>, evs: Seq<EventModel<D>>)
    requires
        forall|i: int| 0 <= i < evs.len() ==> !is_terminal_event(#[trigger] evs[i]),
    ensures
        run_model(s, evs).1.len() == evs.len(),
        forall|i: int| 0 <= i < evs.len() ==> !(#[trigger] run_model(s, evs).1[i]).quit,
    decreases evs.len(),
{
    if evs.len() > 0 {
        let first = step_model(s, evs[0]);
        lemma_quit_iff_terminal(s, evs[0]);
        assert forall|i: int| 0 <= i < evs.skip(1).len() implies !is_terminal_event(
            #[trigger] evs.skip(1)[i],
        ) by {
            assert(evs.skip(1)[i] == evs[i + 1]);
        }
        lemma_runs_to_end(first.0, evs.skip(1));
        assert forall|i: int| 0 <= i < evs.len() implies !(#[trigger] run_model(s, evs).1[i]).quit by {
            if i > 0 {
                assert(run_model(s, evs).1[i] == run_model(first.0, evs.skip(1)).1[i - 1]);
            }
        }
    }
}

} // verus!
