//! The watching itself: when to look at the screen, when to send a heartbeat and
//! when to send a notification.

use crate::clock::{elapsed, millis, ms_to_ns, time_between, NS_PER_SECOND};
use crate::monitor::capture::{difference, pixel_diff};
use crate::monitor::config::MonitorSettings;
use vstd::prelude::*;

verus! {

/// The seconds between two heartbeats.
pub const HEARTBEAT_SECONDS: u128 = 5;

/// How many seconds before the start the last notification is taken to be.
pub const HEAD_START_SECONDS: u128 = 60;

/// What happened.
#[derive(Clone, Debug)]
pub enum WatchEvent {
    /// The switch was read: go on, or stop.
    Polled { running: bool },
    /// The pause is over.
    Woke { now: u128 },
    /// The heartbeat was sent.
    HeartbeatSent { now: u128 },
    /// The screen was looked at; `None` where it could not be read.
    Looked { look: Option<Vec<u8>>, now: u128 },
    /// The notification was sent.
    Notified { now: u128 },
}

/// What is to be done next.
#[derive(Clone, Copy, Debug, PartialEq, Eq)]
pub enum WatchAction {
    /// Read the switch.
    Poll,
    /// Stop watching.
    Stop,
    /// There is nothing to watch: turn the switch off and stop.
    SwitchOff,
    /// Pause.
    Sleep { ms: u64 },
    /// Send a heartbeat.
    SendHeartbeat,
    /// Look at the screen.
    Look,
    /// The screen could not be read after `tick` looks; read the switch.
    Missed { tick: u64 },
    /// The look number `tick` differs by `diff` from the one before. It is to be
    /// logged where `report` is set. A notification is to be sent where `notify`
    /// is set; otherwise the switch is to be read.
    Seen { tick: u64, diff: u64, report: bool, notify: bool },
}

/// The state of the watching: the settings, the last look, when the last
/// notification and the last heartbeat were sent, and the number of looks.
pub struct WatchView {
    pub settings: MonitorSettings,
    pub last_capture: Seq<u8>,
    pub last_notify: nat,
    pub last_hb: nat,
    pub tick: nat,
}

/// Whether a heartbeat is due.
pub open spec fn heartbeat_due(since: nat, now: nat) -> bool {
    time_between(since, now) >= HEARTBEAT_SECONDS * NS_PER_SECOND
}

/// Whether a notification is due: the difference is above the threshold, and
/// the last notification is long enough ago.
pub open spec fn notification_due(
    settings: MonitorSettings,
    diff: nat,
    since: nat,
    now: nat,
) -> bool {
    diff > settings.threshold && time_between(since, now) >= ms_to_ns(settings.cooldown_ms)
}

/// Whether look number `tick` is logged: the first ten, then every twentieth.
pub open spec fn reported(tick: nat) -> bool {
    tick <= 10 || tick % 20 == 0
}

impl WatchView {
    /// The state that watching starts in.
    pub open spec fn started(settings: MonitorSettings, first: Seq<u8>, now: nat) -> WatchView {
        WatchView {
            settings,
            last_capture: first,
            last_notify: (now - HEAD_START_SECONDS * NS_PER_SECOND) as nat,
            last_hb: now,
            tick: 0,
        }
    }

    /// The state after an event, and what is to be done next.
    pub open spec fn next(self, event: WatchEvent) -> (WatchView, WatchAction) {
        match event {
            WatchEvent::Polled { running } => (
                self,
                if running {
                    WatchAction::Sleep { ms: self.settings.interval_ms }
                } else {
                    WatchAction::Stop
                },
            ),
            WatchEvent::Woke { now } => (
                self,
                if heartbeat_due(self.last_hb, now as nat) {
                    WatchAction::SendHeartbeat
                } else {
                    WatchAction::Look
                },
            ),
            WatchEvent::HeartbeatSent { now } => (
                WatchView { last_hb: now as nat, ..self },
                WatchAction::Look,
            ),
            WatchEvent::Looked { look: None, now } => (
                self,
                WatchAction::Missed { tick: self.tick as u64 },
            ),
            WatchEvent::Looked { look: Some(bytes), now } => {
                let diff = difference(self.last_capture, bytes@);
                (
                    WatchView { last_capture: bytes@, tick: self.tick + 1, ..self },
                    WatchAction::Seen {
                        tick: (self.tick + 1) as u64,
                        diff: diff as u64,
                        report: reported(self.tick + 1),
                        notify: notification_due(
                            self.settings,
                            diff,
                            self.last_notify,
                            now as nat,
                        ),
                    },
                )
            },
            WatchEvent::Notified { now } => (
                WatchView { last_notify: now as nat, ..self },
                WatchAction::Poll,
            ),
        }
    }

    /// Whether an event can be taken: the number of looks and the difference stay
    /// in range.
    pub open spec fn takes(self, event: WatchEvent) -> bool {
        event matches WatchEvent::Looked { look: Some(bytes), .. } ==> {
            &&& self.tick < u64::MAX
            &&& difference(self.last_capture, bytes@) <= u64::MAX
        }
    }

    /// The state after some events.
    pub open spec fn after(self, events: Seq<WatchEvent>) -> WatchView
        decreases events.len(),
    {
        if events.len() == 0 {
            self
        } else {
            self.after(events.drop_last()).next(events.last()).0
        }
    }
}

/// Whether an event is what comes of doing an action. Nothing comes of the
/// actions that end the watching.
pub open spec fn answers(action: WatchAction, event: WatchEvent) -> bool {
    match action {
        WatchAction::Stop | WatchAction::SwitchOff => false,
        WatchAction::Poll | WatchAction::Missed { .. } => event is Polled,
        WatchAction::Sleep { .. } => event is Woke,
        WatchAction::SendHeartbeat => event is HeartbeatSent,
        WatchAction::Look => event is Looked,
        WatchAction::Seen { notify, .. } => if notify {
            event is Notified
        } else {
            event is Polled
        },
    }
}

impl WatchView {
    /// What is to be done after some events, where `action` was to be done before
    /// them.
    pub open spec fn pending(self, action: WatchAction, events: Seq<WatchEvent>) -> WatchAction {
        if events.len() == 0 {
            action
        } else {
            self.after(events.drop_last()).next(events.last()).1
        }
    }

    /// Whether some events are a run of the watching from where `action` is to be
    /// done: each answers the action before it.
    pub open spec fn is_run(self, action: WatchAction, events: Seq<WatchEvent>) -> bool
        decreases events.len(),
    {
        events.len() == 0 || {
            &&& self.is_run(action, events.drop_last())
            &&& answers(self.pending(action, events.drop_last()), events.last())
        }
    }
}

/// Watching in progress.
pub struct Watch {
    settings: MonitorSettings,
    last_capture: Vec<u8>,
    last_notify: u128,
    last_hb: u128,
    tick: u64,
}

impl View for Watch {
    type V = WatchView;

    closed spec fn view(&self) -> WatchView {
        WatchView {
            settings: self.settings,
            last_capture: self.last_capture@,
            last_notify: self.last_notify as nat,
            last_hb: self.last_hb as nat,
            tick: self.tick as nat,
        }
    }
}

impl Watch {
    /// Starts watching with a first look at the screen, and says what is to be
    /// done next; there is nothing to watch where the screen cannot be read.
    pub fn start(settings: MonitorSettings, first: Option<Vec<u8>>, now: u128) -> (r: (
        Option<Watch>,
        WatchAction,
    ))
        requires
            first is Some ==> now >= HEAD_START_SECONDS * NS_PER_SECOND,
        ensures
            r.0 is Some <==> first is Some,
            r.0 matches Some(watch) ==> watch@ == WatchView::started(
                settings,
                first->0@,
                now as nat,
            ),
            r.1 == (if first is Some {
                WatchAction::Poll
            } else {
                WatchAction::SwitchOff
            }),
    {
        match first {
            None => (None, WatchAction::SwitchOff),
            Some(last_capture) => {
                let watch = Watch {
                    settings,
                    last_capture,
                    last_notify: now - HEAD_START_SECONDS * NS_PER_SECOND,
                    last_hb: now,
                    tick: 0,
                };
                (Some(watch), WatchAction::Poll)
            },
        }
    }

    /// The number of looks that were compared so far.
    pub fn looks(&self) -> (n: u64)
        ensures
            n == self@.tick,
    {
        self.tick
    }

    /// Takes what happened and says what is to be done next.
    pub fn step(&mut self, event: WatchEvent) -> (action: WatchAction)
        requires
            old(self)@.takes(event),
        ensures
            final(self)@ == old(self)@.next(event).0,
            action == old(self)@.next(event).1,
    {
        match event {
            WatchEvent::Polled { running } => {
                if running {
                    WatchAction::Sleep { ms: self.settings.interval_ms }
                } else {
                    WatchAction::Stop
                }
            },
            WatchEvent::Woke { now } => {
                if elapsed(self.last_hb, now) >= HEARTBEAT_SECONDS * NS_PER_SECOND {
                    WatchAction::SendHeartbeat
                } else {
                    WatchAction::Look
                }
            },
            WatchEvent::HeartbeatSent { now } => {
                self.last_hb = now;
                WatchAction::Look
            },
            WatchEvent::Looked { look: None, .. } => WatchAction::Missed { tick: self.tick },
            WatchEvent::Looked { look: Some(current), now } => {
                let diff: u64 = pixel_diff(self.last_capture.as_slice(), current.as_slice());
                self.tick = self.tick + 1;
                self.last_capture = current;
                WatchAction::Seen {
                    tick: self.tick,
                    diff,
                    report: self.tick <= 10 || self.tick % 20 == 0,
                    notify: diff > self.settings.threshold && elapsed(self.last_notify, now)
                        >= millis(self.settings.cooldown_ms),
                }
            },
            WatchEvent::Notified { now } => {
                self.last_notify = now;
                WatchAction::Poll
            },
        }
    }
}

/// When an event happened; `None` for the reading of the switch.
pub open spec fn time_of(event: WatchEvent) -> Option<nat> {
    match event {
        WatchEvent::Polled { .. } => None,
        WatchEvent::Woke { now } => Some(now as nat),
        WatchEvent::HeartbeatSent { now } => Some(now as nat),
        WatchEvent::Looked { now, .. } => Some(now as nat),
        WatchEvent::Notified { now } => Some(now as nat),
    }
}

/// Whether time does not run backwards over some events.
pub open spec fn in_order(events: Seq<WatchEvent>) -> bool {
    forall|i: int, j: int|
        0 <= i <= j < events.len() && time_of(#[trigger] events[i]) is Some && time_of(
            #[trigger] events[j],
        ) is Some ==> time_of(events[i])->0 <= time_of(events[j])->0
}

/// Whether one of the events is the sending of a notification.
pub open spec fn notifies(events: Seq<WatchEvent>) -> bool {
    exists|i: int| 0 <= i < events.len() && #[trigger] events[i] is Notified
}

/// Whether one of the events is the sending of a heartbeat.
pub open spec fn beats(events: Seq<WatchEvent>) -> bool {
    exists|i: int| 0 <= i < events.len() && #[trigger] events[i] is HeartbeatSent
}

/// The last look of some events, or `first` where they hold none.
pub open spec fn last_look(first: Seq<u8>, events: Seq<WatchEvent>) -> Seq<u8>
    decreases events.len(),
{
    if events.len() == 0 {
        first
    } else {
        match events.last() {
            WatchEvent::Looked { look: Some(bytes), .. } => bytes@,
            _ => last_look(first, events.drop_last()),
        }
    }
}

/// How many of the events are looks.
pub open spec fn look_count(events: Seq<WatchEvent>) -> nat
    decreases events.len(),
{
    if events.len() == 0 {
        0
    } else {
        look_count(events.drop_last()) + (match events.last() {
            WatchEvent::Looked { look: Some(_), .. } => 1nat,
            _ => 0nat,
        })
    }
}

/// The settings never change, a look is compared with the last one that could
/// be read, however long ago that was, and looks are counted.
pub proof fn law_state_after(w: WatchView, events: Seq<WatchEvent>)
    ensures
        w.after(events).settings == w.settings,
        w.after(events).last_capture == last_look(w.last_capture, events),
        w.after(events).tick == w.tick + look_count(events),
    decreases events.len(),
{
    if events.len() > 0 {
        law_state_after(w, events.drop_last());
    }
}

/// Without a notification the time of the last one stays.
proof fn lemma_last_notify_stays(w: WatchView, events: Seq<WatchEvent>)
    requires
        !notifies(events),
    ensures
        w.after(events).last_notify == w.last_notify,
    decreases events.len(),
{
    if events.len() > 0 {
        let before = events.drop_last();
        assert(!(events[events.len() - 1] is Notified));
        assert(!notifies(before)) by {
            if notifies(before) {
                let i = choose|i: int| 0 <= i < before.len() && #[trigger] before[i] is Notified;
                assert(events[i] is Notified);
            }
        }
        lemma_last_notify_stays(w, before);
    }
}

/// Without a heartbeat the time of the last one stays.
proof fn lemma_last_hb_stays(w: WatchView, events: Seq<WatchEvent>)
    requires
        !beats(events),
    ensures
        w.after(events).last_hb == w.last_hb,
    decreases events.len(),
{
    if events.len() > 0 {
        let before = events.drop_last();
        assert(!(events[events.len() - 1] is HeartbeatSent));
        assert(!beats(before)) by {
            if beats(before) {
                let i = choose|i: int|
                    0 <= i < before.len() && #[trigger] before[i] is HeartbeatSent;
                assert(events[i] is HeartbeatSent);
            }
        }
        lemma_last_hb_stays(w, before);
    }
}

/// From a notification at `sent` on, up to the next one, a look leads to a
/// notification exactly if it differs from the last look by more than the
/// threshold and the cooldown is over.
pub proof fn law_notification_exactly_when_due(
    w: WatchView,
    sent: u128,
    events: Seq<WatchEvent>,
    look: Vec<u8>,
    now: u128,
)
    requires
        !notifies(events),
    ensures
        ({
            let then = w.next(WatchEvent::Notified { now: sent }).0.after(events);
            then.next(WatchEvent::Looked { look: Some(look), now }).1->notify
                == notification_due(
                w.settings,
                difference(last_look(w.last_capture, events), look@),
                sent as nat,
                now as nat,
            )
        }),
{
    let from = w.next(WatchEvent::Notified { now: sent }).0;
    lemma_last_notify_stays(from, events);
    law_state_after(from, events);
}

/// Before the first notification a look leads to one exactly if it differs by
/// more than the threshold and the cooldown, counted from a minute before the
/// start, is over; with a cooldown of a minute or less the first change above
/// the threshold is always notified.
pub proof fn law_first_notification(
    settings: MonitorSettings,
    first: Seq<u8>,
    start: u128,
    events: Seq<WatchEvent>,
    look: Vec<u8>,
    now: u128,
)
    requires
        start >= HEAD_START_SECONDS * NS_PER_SECOND,
        now >= start,
        !notifies(events),
    ensures
        ({
            let then = WatchView::started(settings, first, start as nat).after(events);
            let diff = difference(last_look(first, events), look@);
            let action = then.next(WatchEvent::Looked { look: Some(look), now }).1;
            &&& action->notify == (diff > settings.threshold && (now - start)
                + HEAD_START_SECONDS * NS_PER_SECOND >= ms_to_ns(settings.cooldown_ms))
            &&& settings.cooldown_ms <= 60_000 ==> action->notify == (diff > settings.threshold)
        }),
{
    let from = WatchView::started(settings, first, start as nat);
    lemma_last_notify_stays(from, events);
    law_state_after(from, events);
}

/// From a heartbeat at `sent` on, up to the next one, the end of a pause leads
/// to a heartbeat exactly if five seconds have gone by.
pub proof fn law_heartbeat_exactly_when_due(
    w: WatchView,
    sent: u128,
    events: Seq<WatchEvent>,
    now: u128,
)
    requires
        !beats(events),
    ensures
        ({
            let then = w.next(WatchEvent::HeartbeatSent { now: sent }).0.after(events);
            then.next(WatchEvent::Woke { now }).1 == (if heartbeat_due(sent as nat, now as nat) {
                WatchAction::SendHeartbeat
            } else {
                WatchAction::Look
            })
        }),
{
    lemma_last_hb_stays(w.next(WatchEvent::HeartbeatSent { now: sent }).0, events);
}

/// The last notification is no earlier than any that was sent.
proof fn lemma_last_notify_latest(w: WatchView, events: Seq<WatchEvent>, i: int)
    requires
        in_order(events),
        0 <= i < events.len(),
        events[i] is Notified,
    ensures
        w.after(events).last_notify >= time_of(events[i])->0,
    decreases events.len(),
{
    let before = events.drop_last();
    let last = events.len() - 1;
    assert(events.last() == events[last]);
    if i < last && !(events[last] is Notified) {
        assert(before[i] == events[i]);
        lemma_in_order_prefix(events);
        lemma_last_notify_latest(w, before, i);
    }
}

/// The last heartbeat is no earlier than any that was sent.
proof fn lemma_last_hb_latest(w: WatchView, events: Seq<WatchEvent>, i: int)
    requires
        in_order(events),
        0 <= i < events.len(),
        events[i] is HeartbeatSent,
    ensures
        w.after(events).last_hb >= time_of(events[i])->0,
    decreases events.len(),
{
    let before = events.drop_last();
    let last = events.len() - 1;
    assert(events.last() == events[last]);
    if i < last && !(events[last] is HeartbeatSent) {
        assert(before[i] == events[i]);
        lemma_in_order_prefix(events);
        lemma_last_hb_latest(w, before, i);
    }
}

proof fn lemma_in_order_prefix(events: Seq<WatchEvent>)
    requires
        in_order(events),
        events.len() > 0,
    ensures
        in_order(events.drop_last()),
{
    let before = events.drop_last();
    assert forall|i: int, j: int|
        0 <= i <= j < before.len() && time_of(#[trigger] before[i]) is Some && time_of(
            #[trigger] before[j],
        ) is Some implies time_of(before[i])->0 <= time_of(before[j])->0 by {
        assert(before[i] == events[i] && before[j] == events[j]);
    }
}

/// Between the sending of any notification and the decision for any later one
/// lies at least the cooldown.
pub proof fn law_cooldown_between_notifications(
    w: WatchView,
    events: Seq<WatchEvent>,
    i: int,
    look: Vec<u8>,
    now: u128,
)
    requires
        in_order(events.push(WatchEvent::Looked { look: Some(look), now })),
        0 <= i < events.len(),
        events[i] is Notified,
        w.after(events).next(WatchEvent::Looked { look: Some(look), now }).1->notify,
    ensures
        now - time_of(events[i])->0 >= ms_to_ns(w.settings.cooldown_ms),
{
    let whole = events.push(WatchEvent::Looked { look: Some(look), now });
    lemma_in_order_prefix(whole);
    assert(whole.drop_last() =~= events);
    lemma_last_notify_latest(w, events, i);
    law_state_after(w, events);
    assert(whole[i] == events[i]);
    assert(whole[events.len() as int] == whole.last());
}

/// Between the sending of any heartbeat and the decision for any later one lie
/// at least five seconds.
pub proof fn law_pause_between_heartbeats(
    w: WatchView,
    events: Seq<WatchEvent>,
    i: int,
    now: u128,
)
    requires
        in_order(events.push(WatchEvent::Woke { now })),
        0 <= i < events.len(),
        events[i] is HeartbeatSent,
        w.after(events).next(WatchEvent::Woke { now }).1 is SendHeartbeat,
    ensures
        now - time_of(events[i])->0 >= HEARTBEAT_SECONDS * NS_PER_SECOND,
{
    let whole = events.push(WatchEvent::Woke { now });
    lemma_in_order_prefix(whole);
    assert(whole.drop_last() =~= events);
    lemma_last_hb_latest(w, events, i);
}

/// Whether all looks of some events show the same.
pub open spec fn still(events: Seq<WatchEvent>, bytes: Seq<u8>) -> bool {
    forall|i: int|
        0 <= i < events.len() ==> ((#[trigger] events[i]) matches WatchEvent::Looked {
            look: Some(look),
            ..
        } ==> look@ == bytes)
}

/// A screen that does not change is never notified, whatever the settings are.
pub proof fn law_still_screen_is_silent(
    w: WatchView,
    events: Seq<WatchEvent>,
    look: Vec<u8>,
    now: u128,
)
    requires
        still(events, w.last_capture),
        look@ == w.last_capture,
    ensures
        w.after(events).next(WatchEvent::Looked { look: Some(look), now }).1 matches
            WatchAction::Seen { diff, notify, .. } && diff == 0 && !notify,
{
    law_state_after(w, events);
    lemma_still(events, w.last_capture);
    crate::monitor::capture::law_no_difference_means_equal(w.last_capture, look@);
}

proof fn lemma_still(events: Seq<WatchEvent>, bytes: Seq<u8>)
    requires
        still(events, bytes),
    ensures
        last_look(bytes, events) == bytes,
    decreases events.len(),
{
    if events.len() > 0 {
        let before = events.drop_last();
        assert(events[events.len() - 1] == events.last());
        assert(still(before, bytes)) by {
            assert forall|i: int| 0 <= i < before.len() implies ((
            #[trigger] before[i]) matches WatchEvent::Looked { look: Some(look), .. } ==> look@
                == bytes) by {
                assert(before[i] == events[i]);
            }
        }
        lemma_still(before, bytes);
    }
}

/// How many of the events are heartbeats sent.
pub open spec fn beat_count(events: Seq<WatchEvent>) -> nat
    decreases events.len(),
{
    if events.len() == 0 {
        0
    } else {
        beat_count(events.drop_last()) + (if events.last() is HeartbeatSent {
            1nat
        } else {
            0nat
        })
    }
}

/// How many of the events are notifications sent.
pub open spec fn notice_count(events: Seq<WatchEvent>) -> nat
    decreases events.len(),
{
    if events.len() == 0 {
        0
    } else {
        notice_count(events.drop_last()) + (if events.last() is Notified {
            1nat
        } else {
            0nat
        })
    }
}

/// How many events can come at most until the watching ends, once the switch is
/// off.
pub open spec fn events_left(action: WatchAction) -> nat {
    match action {
        WatchAction::Stop | WatchAction::SwitchOff => 0,
        WatchAction::Poll | WatchAction::Missed { .. } => 1,
        WatchAction::Seen { notify, .. } => if notify {
            2
        } else {
            1
        },
        WatchAction::Look => 3,
        WatchAction::SendHeartbeat => 4,
        WatchAction::Sleep { .. } => 5,
    }
}

/// Whether the switch is off whenever it is read from event `k` on.
pub open spec fn off_from(events: Seq<WatchEvent>, k: int) -> bool {
    forall|i: int|
        k <= i < events.len() ==> ((#[trigger] events[i]) matches WatchEvent::Polled { running }
            ==> !running)
}

/// What is done and still to be done stays within one pass once the switch is off.
proof fn lemma_off_progress(w: WatchView, action: WatchAction, events: Seq<WatchEvent>, k: int)
    requires
        w.is_run(action, events),
        0 <= k <= events.len(),
        off_from(events, k),
    ensures
        ({
            let tail = events.skip(k);
            let next = w.pending(action, events);
            &&& events_left(next) + tail.len() <= events_left(w.pending(action, events.take(k)))
            &&& beat_count(tail) + (if events_left(next) >= 4 {
                1nat
            } else {
                0nat
            }) <= 1
            &&& notice_count(tail) + (if events_left(next) >= 2 {
                1nat
            } else {
                0nat
            }) <= 1
            &&& tail.len() > 0 ==> (next is Stop <==> tail.last() is Polled)
        }),
    decreases events.len(),
{
    let tail = events.skip(k);
    if k == events.len() {
        assert(events.take(k) =~= events);
        assert(tail.len() == 0);
    } else {
        let before = events.drop_last();
        assert(events.last() == events[events.len() - 1]);
        assert(off_from(before, k)) by {
            assert forall|i: int| k <= i < before.len() implies ((
            #[trigger] before[i]) matches WatchEvent::Polled { running } ==> !running) by {
                assert(before[i] == events[i]);
            }
        }
        lemma_off_progress(w, action, before, k);
        assert(before.take(k) =~= events.take(k));
        assert(before.skip(k) =~= tail.drop_last());
        assert(tail.last() == events.last());
    }
}

/// The beginning of a run is a run.
proof fn lemma_run_prefix(w: WatchView, action: WatchAction, events: Seq<WatchEvent>, k: int)
    requires
        w.is_run(action, events),
        0 <= k <= events.len(),
    ensures
        w.is_run(action, events.take(k)),
    decreases events.len(),
{
    if k == events.len() {
        assert(events.take(k) =~= events);
    } else {
        lemma_run_prefix(w, action, events.drop_last(), k);
        assert(events.drop_last().take(k) =~= events.take(k));
    }
}

/// Once the switch is off and stays off, only the pass already begun is finished:
/// however the run got there, at most five more events come, among them, with
/// what is still to be done, at most one heartbeat and one notification; each
/// brings the end nearer, and reading the switch is the end.
pub proof fn law_switch_off_ends_the_watching(
    w: WatchView,
    action: WatchAction,
    events: Seq<WatchEvent>,
    k: int,
)
    requires
        w.is_run(action, events),
        0 <= k <= events.len(),
        off_from(events, k),
    ensures
        ({
            let tail = events.skip(k);
            let next = w.pending(action, events);
            &&& events_left(next) + tail.len() <= events_left(w.pending(action, events.take(k)))
            &&& tail.len() <= 5
            &&& beat_count(tail) + (if next is SendHeartbeat {
                1nat
            } else {
                0nat
            }) <= 1
            &&& notice_count(tail) + (if next matches WatchAction::Seen { notify: true, .. } {
                1nat
            } else {
                0nat
            }) <= 1
            &&& tail.len() > 0 ==> (next is Stop <==> tail.last() is Polled)
            &&& forall|i: int|
                0 <= i < tail.len() - 1 ==> !((#[trigger] tail[i]) is Polled)
        }),
{
    lemma_off_progress(w, action, events, k);
    let tail = events.skip(k);
    assert forall|i: int| 0 <= i < tail.len() - 1 implies !((#[trigger] tail[i]) is Polled) by {
        let j = k + i + 1;
        let upto = events.take(j);
        let beyond = events.take(j + 1);
        lemma_run_prefix(w, action, events, j + 1);
        assert(beyond.drop_last() =~= upto);
        assert(upto.last() == tail[i]);
        if tail[i] is Polled {
            assert(events[k + i] is Polled);
            assert(w.pending(action, upto) is Stop);
        }
    }
}

/// The watching ends with `Stop`: nothing comes after it.
pub proof fn law_nothing_follows_stop(
    w: WatchView,
    action: WatchAction,
    events: Seq<WatchEvent>,
    event: WatchEvent,
)
    requires
        w.pending(action, events) is Stop,
    ensures
        !w.is_run(action, events.push(event)),
{
    assert(events.push(event).drop_last() =~= events);
}

/// As long as it has not ended, the watching can go on: every other action has
/// an answer.
pub proof fn law_every_action_has_an_answer(action: WatchAction)
    requires
        !(action is Stop),
        !(action is SwitchOff),
    ensures
        exists|event: WatchEvent| answers(action, event),
{
    let event = match action {
        WatchAction::Sleep { .. } => WatchEvent::Woke { now: 0 },
        WatchAction::SendHeartbeat => WatchEvent::HeartbeatSent { now: 0 },
        WatchAction::Look => WatchEvent::Looked { look: None, now: 0 },
        WatchAction::Seen { notify: true, .. } => WatchEvent::Notified { now: 0 },
        _ => WatchEvent::Polled { running: false },
    };
    assert(answers(action, event));
}

/// The watching itself never turns the switch: only a failed start does.
pub proof fn law_watching_leaves_the_switch(
    w: WatchView,
    action: WatchAction,
    events: Seq<WatchEvent>,
)
    requires
        !(action is SwitchOff),
    ensures
        !(w.pending(action, events) is SwitchOff),
{
}

/// The order of a pass: the switch, the pause, the heartbeat where one is due,
/// the look, the notification where one is due. So a heartbeat comes right
/// before the look of its pass, and a notification right after it.
pub proof fn law_order_of_a_pass(
    w: WatchView,
    action: WatchAction,
    events: Seq<WatchEvent>,
    i: int,
)
    requires
        w.is_run(action, events),
        0 < i < events.len(),
    ensures
        match events[i] {
            WatchEvent::Polled { .. } => events[i - 1] is Looked || events[i - 1] is Notified,
            WatchEvent::Woke { .. } => events[i - 1] matches WatchEvent::Polled { running: true },
            WatchEvent::HeartbeatSent { .. } => events[i - 1] is Woke,
            WatchEvent::Looked { .. } => events[i - 1] is Woke || events[i - 1] is HeartbeatSent,
            WatchEvent::Notified { .. } => events[i - 1] matches WatchEvent::Looked {
                look: Some(_),
                ..
            },
        },
        events[i - 1] is HeartbeatSent ==> events[i] is Looked,
{
    let beyond = events.take(i + 1);
    lemma_run_prefix(w, action, events, i + 1);
    assert(beyond.last() == events[i]);
    assert(beyond.drop_last().last() == events[i - 1]);
}

/// Whether `last` is the last look that could be read: that of event `k`, with
/// none after it, or `first` where `k` is before all events.
pub open spec fn last_read(first: Seq<u8>, events: Seq<WatchEvent>, k: int, last: Seq<u8>) -> bool {
    &&& -1 <= k < events.len()
    &&& k == -1 ==> last == first
    &&& k >= 0 ==> (events[k] matches WatchEvent::Looked { look: Some(bytes), .. } && bytes@
        == last)
    &&& forall|j: int|
        k < j < events.len() ==> !((#[trigger] events[j]) matches WatchEvent::Looked {
            look: Some(_),
            ..
        })
}

proof fn lemma_last_read(first: Seq<u8>, events: Seq<WatchEvent>, k: int, last: Seq<u8>)
    requires
        last_read(first, events, k, last),
    ensures
        last_look(first, events) == last,
    decreases events.len(),
{
    if events.len() > 0 {
        assert(events.last() == events[events.len() - 1]);
        if k < events.len() - 1 {
            let before = events.drop_last();
            assert forall|j: int| k < j < before.len() implies !((
            #[trigger] before[j]) matches WatchEvent::Looked { look: Some(_), .. }) by {
                assert(before[j] == events[j]);
            }
            lemma_last_read(first, before, k, last);
        }
    }
}

/// A look is compared with the last one that could be read, whatever happened
/// since, and the difference is told.
pub proof fn law_compared_with_the_last_look(
    w: WatchView,
    events: Seq<WatchEvent>,
    k: int,
    last: Seq<u8>,
    look: Vec<u8>,
    now: u128,
)
    requires
        last_read(w.last_capture, events, k, last),
        difference(last, look@) <= u64::MAX,
    ensures
        w.after(events).next(WatchEvent::Looked { look: Some(look), now }).1 matches
            WatchAction::Seen { diff, .. } && diff == difference(last, look@),
{
    law_state_after(w, events);
    lemma_last_read(w.last_capture, events, k, last);
}

/// After a notification sent at `sent` and none since, a look at any later time
/// leads to a notification exactly if it differs from the last look by more than
/// the threshold and at least the cooldown, in nanoseconds, has gone by.
pub proof fn law_notification_written_out(
    w: WatchView,
    sent: u128,
    events: Seq<WatchEvent>,
    k: int,
    last: Seq<u8>,
    look: Vec<u8>,
    now: u128,
)
    requires
        !notifies(events),
        last_read(w.last_capture, events, k, last),
        now >= sent,
    ensures
        w.next(WatchEvent::Notified { now: sent }).0.after(events).next(
            WatchEvent::Looked { look: Some(look), now },
        ).1 matches WatchAction::Seen { notify, .. } && (notify <==> difference(last, look@)
            > w.settings.threshold && now - sent >= w.settings.cooldown_ms * 1_000_000),
{
    let from = w.next(WatchEvent::Notified { now: sent }).0;
    lemma_last_notify_stays(from, events);
    law_state_after(from, events);
    lemma_last_read(w.last_capture, events, k, last);
}

/// The same in every state, whatever led to it: the threshold and the cooldown
/// decide, at any time after the last notification, and nothing else does.
pub proof fn law_notification_in_any_state(w: WatchView, look: Vec<u8>, now: u128)
    ensures
        ({
            let action = w.next(WatchEvent::Looked { look: Some(look), now }).1;
            let gone = if now >= w.last_notify {
                now - w.last_notify
            } else {
                0
            };
            action matches WatchAction::Seen { notify, .. } && (notify <==> difference(
                w.last_capture,
                look@,
            ) > w.settings.threshold && gone >= w.settings.cooldown_ms * 1_000_000)
        }),
{
}

/// Before the first notification the cooldown is counted from sixty seconds
/// before the start.
pub proof fn law_first_notification_written_out(
    settings: MonitorSettings,
    first: Seq<u8>,
    start: u128,
    events: Seq<WatchEvent>,
    k: int,
    last: Seq<u8>,
    look: Vec<u8>,
    now: u128,
)
    requires
        start >= 60_000_000_000,
        now >= start,
        !notifies(events),
        last_read(first, events, k, last),
    ensures
        WatchView::started(settings, first, start as nat).after(events).next(
            WatchEvent::Looked { look: Some(look), now },
        ).1 matches WatchAction::Seen { notify, .. } && (notify <==> difference(last, look@)
            > settings.threshold && now - start + 60_000_000_000 >= settings.cooldown_ms
            * 1_000_000),
{
    let from = WatchView::started(settings, first, start as nat);
    lemma_last_notify_stays(from, events);
    law_state_after(from, events);
    lemma_last_read(first, events, k, last);
}

/// The end of a pause leads to a heartbeat exactly if five seconds, in
/// nanoseconds, have gone by since the last one or, before the first, since the
/// start; otherwise to a look.
pub proof fn law_heartbeat_written_out(
    w: WatchView,
    sent: u128,
    settings: MonitorSettings,
    first: Seq<u8>,
    start: u128,
    events: Seq<WatchEvent>,
    now: u128,
)
    requires
        !beats(events),
    ensures
        ({
            let beat = w.next(WatchEvent::HeartbeatSent { now: sent }).0.after(events);
            let fresh = WatchView::started(settings, first, start as nat).after(events);
            let after_beat = beat.next(WatchEvent::Woke { now }).1;
            let after_start = fresh.next(WatchEvent::Woke { now }).1;
            &&& now as int - sent >= 5_000_000_000 <==> after_beat is SendHeartbeat
            &&& now as int - sent < 5_000_000_000 <==> after_beat is Look
            &&& now as int - start >= 5_000_000_000 <==> after_start is SendHeartbeat
            &&& now as int - start < 5_000_000_000 <==> after_start is Look
        }),
{
    lemma_last_hb_stays(w.next(WatchEvent::HeartbeatSent { now: sent }).0, events);
    lemma_last_hb_stays(WatchView::started(settings, first, start as nat), events);
}

/// The pause is the one that was set, in every state that a start with these
/// settings leads to; a switch that is off ends the watching.
pub proof fn law_pause_is_the_one_set(
    settings: MonitorSettings,
    first: Seq<u8>,
    start: nat,
    events: Seq<WatchEvent>,
)
    ensures
        ({
            let state = WatchView::started(settings, first, start).after(events);
            let on = state.next(WatchEvent::Polled { running: true }).1;
            let off = state.next(WatchEvent::Polled { running: false }).1;
            &&& on matches WatchAction::Sleep { ms } && ms == settings.interval_ms
            &&& off is Stop
        }),
{
    law_state_after(WatchView::started(settings, first, start), events);
}

/// The end of a pause comes after a pause of the length that was set.
proof fn lemma_pause_before_waking(
    settings: MonitorSettings,
    first: Seq<u8>,
    start: nat,
    events: Seq<WatchEvent>,
    k: int,
)
    requires
        WatchView::started(settings, first, start).is_run(WatchAction::Poll, events),
        0 < k < events.len(),
        events[k] is Woke,
    ensures
        WatchView::started(settings, first, start).pending(WatchAction::Poll, events.take(k)) == (
        WatchAction::Sleep { ms: settings.interval_ms }),
{
    let w = WatchView::started(settings, first, start);
    law_order_of_a_pass(w, WatchAction::Poll, events, k);
    let upto = events.take(k);
    assert(upto.last() == events[k - 1]);
    law_pause_is_the_one_set(settings, first, start, upto.drop_last());
}

/// Between two looks of a run a pause ends.
proof fn lemma_waking_between_looks(
    w: WatchView,
    action: WatchAction,
    events: Seq<WatchEvent>,
    i: int,
    j: int,
) -> (k: int)
    requires
        w.is_run(action, events),
        0 <= i < j < events.len(),
        events[i] is Looked,
        events[j] is Looked,
    ensures
        i < k < j,
        events[k] is Woke,
{
    law_order_of_a_pass(w, action, events, j);
    if events[j - 1] is Woke {
        j - 1
    } else {
        law_order_of_a_pass(w, action, events, j - 1);
        j - 2
    }
}

/// Between two looks of a run lies a pause of the length that was set.
pub proof fn law_pause_between_looks(
    settings: MonitorSettings,
    first: Seq<u8>,
    start: nat,
    events: Seq<WatchEvent>,
    i: int,
    j: int,
)
    requires
        WatchView::started(settings, first, start).is_run(WatchAction::Poll, events),
        0 <= i < j < events.len(),
        events[i] is Looked,
        events[j] is Looked,
    ensures
        exists|k: int|
            i < k < j && (#[trigger] events[k]) is Woke && WatchView::started(
                settings,
                first,
                start,
            ).pending(WatchAction::Poll, events.take(k)) == (WatchAction::Sleep {
                ms: settings.interval_ms,
            }),
{
    let w = WatchView::started(settings, first, start);
    let k = lemma_waking_between_looks(w, WatchAction::Poll, events, i, j);
    lemma_pause_before_waking(settings, first, start, events, k);
}

/// Whether every pause lasts at least as long as it was to: what comes before it
/// is at least that much earlier than its end.
pub open spec fn pauses_last(w: WatchView, action: WatchAction, events: Seq<WatchEvent>) -> bool {
    forall|i: int, k: int|
        0 <= i < k < events.len() && time_of(#[trigger] events[i]) is Some && (
        #[trigger] events[k]) is Woke ==> (w.pending(action, events.take(k)) matches
            WatchAction::Sleep { ms } ==> time_of(events[k])->0 - time_of(events[i])->0 >= ms
            * 1_000_000)
}

/// So any two looks of a run lie at least one pause of that length apart in time.
pub proof fn law_looks_lie_a_pause_apart(
    settings: MonitorSettings,
    first: Seq<u8>,
    start: nat,
    events: Seq<WatchEvent>,
    i: int,
    j: int,
)
    requires
        WatchView::started(settings, first, start).is_run(WatchAction::Poll, events),
        in_order(events),
        pauses_last(WatchView::started(settings, first, start), WatchAction::Poll, events),
        0 <= i < j < events.len(),
        events[i] is Looked,
        events[j] is Looked,
    ensures
        time_of(events[j])->0 - time_of(events[i])->0 >= settings.interval_ms * 1_000_000,
{
    law_pause_between_looks(settings, first, start, events, i, j);
    let k = choose|k: int|
        i < k < j && (#[trigger] events[k]) is Woke && WatchView::started(
            settings,
            first,
            start,
        ).pending(WatchAction::Poll, events.take(k)) == (WatchAction::Sleep {
            ms: settings.interval_ms,
        });
    assert(time_of(events[i]) is Some && time_of(events[k]) is Some && time_of(events[j]) is Some);
}

/// Watching starts with the first look as the last one and no look compared, as
/// if a heartbeat had just been sent, and a notification sixty seconds earlier.
pub proof fn law_start_written_out(settings: MonitorSettings, first: Seq<u8>, start: nat)
    requires
        start >= 60_000_000_000,
    ensures
        ({
            let w = WatchView::started(settings, first, start);
            &&& w.settings == settings
            &&& w.last_capture == first
            &&& w.last_notify + 60_000_000_000 == start
            &&& w.last_hb == start
            &&& w.tick == 0
        }),
{
}

/// What an event leaves alone: the switch and the end of a pause change nothing, a
/// heartbeat only the time of the last one, a notification only the time of the
/// last one, a failed look nothing, a look only what was seen last and how many
/// looks there were. After a heartbeat comes the look, after a notification the
/// switch.
pub proof fn law_events_written_out(w: WatchView, event: WatchEvent)
    ensures
        ({
            let (then, action) = w.next(event);
            &&& then.settings == w.settings
            &&& match event {
                WatchEvent::Polled { .. } => then == w,
                WatchEvent::Woke { .. } => then == w,
                WatchEvent::HeartbeatSent { now } => {
                    &&& then.last_hb == now
                    &&& then.last_notify == w.last_notify
                    &&& then.last_capture == w.last_capture
                    &&& then.tick == w.tick
                    &&& action is Look
                },
                WatchEvent::Notified { now } => {
                    &&& then.last_notify == now
                    &&& then.last_hb == w.last_hb
                    &&& then.last_capture == w.last_capture
                    &&& then.tick == w.tick
                    &&& action is Poll
                },
                WatchEvent::Looked { look: None, .. } => {
                    &&& then == w
                    &&& action matches WatchAction::Missed { tick } && (w.tick <= u64::MAX ==> tick
                        == w.tick)
                },
                WatchEvent::Looked { look: Some(bytes), .. } => {
                    &&& then.last_hb == w.last_hb
                    &&& then.last_notify == w.last_notify
                    &&& then.last_capture == bytes@
                    &&& then.tick == w.tick + 1
                    &&& action matches WatchAction::Seen { tick, diff, .. } && (w.tick < u64::MAX
                        ==> tick == w.tick + 1) && (difference(w.last_capture, bytes@) <= u64::MAX
                        ==> diff == difference(w.last_capture, bytes@))
                },
            }
        }),
{
}

/// The first ten looks are logged, and after them the twentieth, the fortieth and
/// so on.
pub proof fn law_logged_looks(w: WatchView, look: Vec<u8>, now: u128, m: nat)
    ensures
        ({
            let report = w.next(WatchEvent::Looked { look: Some(look), now }).1->report;
            &&& w.tick < 10 ==> report
            &&& w.tick >= 10 && w.tick + 1 == 20 * m ==> report
            &&& w.tick >= 10 && 20 * m < w.tick + 1 < 20 * m + 20 ==> !report
        }),
{
}

/// Every event can be taken as long as the number of looks and the difference are
/// in range.
pub proof fn law_events_can_be_taken(w: WatchView, event: WatchEvent)
    ensures
        !(event is Looked) ==> w.takes(event),
        w.tick < u64::MAX && (event matches WatchEvent::Looked { look: Some(bytes), .. }
            ==> difference(w.last_capture, bytes@) <= u64::MAX) ==> w.takes(event),
{
}

} // verus!
