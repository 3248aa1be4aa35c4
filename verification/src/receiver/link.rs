//! Keeping track of the watcher: is it there, and how often has it notified?

use crate::clock::{elapsed, time_between, NS_PER_SECOND};
use crate::monitor::watch::heartbeat_due;
use crate::wire::UdpMsg;
use vstd::prelude::*;

verus! {

/// The watcher counts as gone after more than this many seconds without a
/// heartbeat.
pub const SILENCE_SECONDS: u128 = 15;

/// What happened.
#[derive(Clone, Copy, Debug, PartialEq, Eq)]
pub enum LinkEvent {
    /// A message came in.
    Message { msg: UdpMsg, now: u128 },
    /// All messages of this round are dealt with.
    RoundOver { now: u128 },
}

/// What is to be done.
#[derive(Clone, Copy, Debug, PartialEq, Eq)]
pub enum LinkAction {
    Nothing,
    /// Alert the user, for the time number `count`.
    Alert { count: u64 },
    /// Show that the watcher is there.
    ShowConnected,
    /// Show that the watcher is gone.
    ShowDisconnected,
}

/// The state: whether the watcher is there, when it was last heard of, and how
/// many notifications came in.
pub struct LinkView {
    pub connected: bool,
    pub last_heartbeat: nat,
    pub msg_count: nat,
}

/// Whether the watcher has been silent for too long.
pub open spec fn silent_too_long(since: nat, now: nat) -> bool {
    time_between(since, now) > SILENCE_SECONDS * NS_PER_SECOND
}

impl LinkView {
    /// The state at the start.
    pub open spec fn started(now: nat) -> LinkView {
        LinkView { connected: false, last_heartbeat: now, msg_count: 0 }
    }

    /// The state after an event, and what is to be done.
    pub open spec fn next(self, event: LinkEvent) -> (LinkView, LinkAction) {
        match event {
            LinkEvent::Message { msg: UdpMsg::Notification, now } => (
                LinkView { msg_count: self.msg_count + 1, ..self },
                LinkAction::Alert { count: (self.msg_count + 1) as u64 },
            ),
            LinkEvent::Message { msg: UdpMsg::Heartbeat, now } => (
                LinkView { connected: true, last_heartbeat: now as nat, ..self },
                if self.connected {
                    LinkAction::Nothing
                } else {
                    LinkAction::ShowConnected
                },
            ),
            LinkEvent::RoundOver { now } => if self.connected && silent_too_long(
                self.last_heartbeat,
                now as nat,
            ) {
                (LinkView { connected: false, ..self }, LinkAction::ShowDisconnected)
            } else {
                (self, LinkAction::Nothing)
            },
        }
    }

    /// Whether an event can be taken: the count stays in range.
    pub open spec fn takes(self, event: LinkEvent) -> bool {
        is_notification(event) ==> self.msg_count < u64::MAX
    }

    /// The state after some events.
    pub open spec fn after(self, events: Seq<LinkEvent>) -> LinkView
        decreases events.len(),
    {
        if events.len() == 0 {
            self
        } else {
            self.after(events.drop_last()).next(events.last()).0
        }
    }
}

/// Whether an event is a notification.
pub open spec fn is_notification(event: LinkEvent) -> bool {
    event matches LinkEvent::Message { msg: UdpMsg::Notification, .. }
}

/// Whether an event is a heartbeat.
pub open spec fn is_heartbeat(event: LinkEvent) -> bool {
    event matches LinkEvent::Message { msg: UdpMsg::Heartbeat, .. }
}

/// When an event happened.
pub open spec fn time_of(event: LinkEvent) -> nat {
    match event {
        LinkEvent::Message { now, .. } => now as nat,
        LinkEvent::RoundOver { now } => now as nat,
    }
}

/// The receiver's view of the watcher.
pub struct Link {
    connected: bool,
    last_heartbeat: u128,
    msg_count: u64,
}

impl View for Link {
    type V = LinkView;

    closed spec fn view(&self) -> LinkView {
        LinkView {
            connected: self.connected,
            last_heartbeat: self.last_heartbeat as nat,
            msg_count: self.msg_count as nat,
        }
    }
}

impl Link {
    /// Starts without a watcher.
    pub fn new(now: u128) -> (link: Link)
        ensures
            link@ == LinkView::started(now as nat),
    {
        Link { connected: false, last_heartbeat: now, msg_count: 0 }
    }

    /// Tells whether the watcher is there.
    pub fn connected(&self) -> (r: bool)
        ensures
            r == self@.connected,
    {
        self.connected
    }

    /// How many notifications came in.
    pub fn msg_count(&self) -> (n: u64)
        ensures
            n == self@.msg_count,
    {
        self.msg_count
    }

    /// Takes what happened and says what is to be done.
    pub fn step(&mut self, event: LinkEvent) -> (action: LinkAction)
        requires
            old(self)@.takes(event),
        ensures
            final(self)@ == old(self)@.next(event).0,
            action == old(self)@.next(event).1,
    {
        match event {
            LinkEvent::Message { msg: UdpMsg::Notification, .. } => {
                self.msg_count = self.msg_count + 1;
                LinkAction::Alert { count: self.msg_count }
            },
            LinkEvent::Message { msg: UdpMsg::Heartbeat, now } => {
                let action = if self.connected {
                    LinkAction::Nothing
                } else {
                    LinkAction::ShowConnected
                };
                self.connected = true;
                self.last_heartbeat = now;
                action
            },
            LinkEvent::RoundOver { now } => {
                if self.connected && elapsed(self.last_heartbeat, now) > SILENCE_SECONDS
                    * NS_PER_SECOND {
                    self.connected = false;
                    LinkAction::ShowDisconnected
                } else {
                    LinkAction::Nothing
                }
            },
        }
    }
}

/// How many of the events are notifications.
pub open spec fn notification_count(events: Seq<LinkEvent>) -> nat
    decreases events.len(),
{
    if events.len() == 0 {
        0
    } else {
        notification_count(events.drop_last()) + (if is_notification(events.last()) {
            1nat
        } else {
            0nat
        })
    }
}

/// Every notification is counted, and nothing else.
pub proof fn law_notifications_are_counted(link: LinkView, events: Seq<LinkEvent>)
    ensures
        link.after(events).msg_count == link.msg_count + notification_count(events),
    decreases events.len(),
{
    if events.len() > 0 {
        law_notifications_are_counted(link, events.drop_last());
    }
}

/// Every notification alerts the user, whether or not the watcher counts as
/// there, and the alert tells how many there were since the start.
pub proof fn law_alert_tells_the_count(start: nat, events: Seq<LinkEvent>, now: u128)
    ensures
        LinkView::started(start).after(events).next(
            LinkEvent::Message { msg: UdpMsg::Notification, now },
        ).1 == (LinkAction::Alert { count: (notification_count(events) + 1) as u64 }),
{
    law_notifications_are_counted(LinkView::started(start), events);
}

/// What is shown changes exactly when the connection does.
pub proof fn law_changes_are_shown(link: LinkView, event: LinkEvent)
    ensures
        link.next(event).1 is ShowConnected <==> !link.connected && link.next(event).0.connected,
        link.next(event).1 is ShowDisconnected <==> link.connected && !link.next(
            event,
        ).0.connected,
{
}

/// Whether some events bring no heartbeat, and no round ends too long after `t`.
pub open spec fn quiet_within(events: Seq<LinkEvent>, t: nat) -> bool {
    forall|i: int|
        0 <= i < events.len() ==> {
            &&& !is_heartbeat(#[trigger] events[i])
            &&& events[i] is RoundOver ==> !silent_too_long(t, time_of(events[i]))
        }
}

/// After a heartbeat at `t` the watcher counts as there, up to the first round
/// that ends more than fifteen seconds later without another heartbeat.
pub proof fn law_disconnects_exactly_after_silence(
    link: LinkView,
    t: u128,
    events: Seq<LinkEvent>,
    now: u128,
)
    requires
        quiet_within(events, t as nat),
    ensures
        ({
            let then = link.next(LinkEvent::Message { msg: UdpMsg::Heartbeat, now: t }).0.after(
                events,
            );
            &&& then.connected
            &&& then.last_heartbeat == t
            &&& then.next(LinkEvent::RoundOver { now }).1 == (if silent_too_long(
                t as nat,
                now as nat,
            ) {
                LinkAction::ShowDisconnected
            } else {
                LinkAction::Nothing
            })
        }),
    decreases events.len(),
{
    if events.len() > 0 {
        let before = events.drop_last();
        assert(events.last() == events[events.len() - 1]);
        assert(quiet_within(before, t as nat)) by {
            assert forall|i: int| 0 <= i < before.len() implies {
                &&& !is_heartbeat(#[trigger] before[i])
                &&& before[i] is RoundOver ==> !silent_too_long(t as nat, time_of(before[i]))
            } by {
                assert(before[i] == events[i]);
            }
        }
        law_disconnects_exactly_after_silence(link, t, before, now);
    }
}

/// Once gone, the watcher stays gone until the next heartbeat, and nothing more
/// is shown.
pub proof fn law_stays_gone(link: LinkView, event: LinkEvent)
    requires
        !link.connected,
        !is_heartbeat(event),
    ensures
        !link.next(event).0.connected,
        link.next(event).1 is Nothing || link.next(event).1 is Alert,
{
}

/// Whether time does not run backwards over some events.
pub open spec fn in_order(events: Seq<LinkEvent>) -> bool {
    forall|i: int, j: int|
        0 <= i <= j < events.len() ==> time_of(#[trigger] events[i]) <= time_of(
            #[trigger] events[j],
        )
}

/// Whether a heartbeat came before event `j`, and at most fifteen seconds before it.
pub open spec fn heard_lately(events: Seq<LinkEvent>, j: int) -> bool {
    exists|i: int|
        0 <= i < j && is_heartbeat(#[trigger] events[i]) && !silent_too_long(
            time_of(events[i]),
            time_of(events[j]),
        )
}

/// The last heartbeat is no earlier than any that came in.
proof fn lemma_last_heartbeat_latest(link: LinkView, events: Seq<LinkEvent>, i: int)
    requires
        in_order(events),
        0 <= i < events.len(),
        is_heartbeat(events[i]),
    ensures
        link.after(events).last_heartbeat >= time_of(events[i]),
    decreases events.len(),
{
    let before = events.drop_last();
    let last = events.len() - 1;
    assert(events.last() == events[last]);
    if i < last && !is_heartbeat(events[last]) {
        lemma_in_order_prefix(events);
        assert(before[i] == events[i]);
        lemma_last_heartbeat_latest(link, before, i);
    }
}

proof fn lemma_in_order_prefix(events: Seq<LinkEvent>)
    requires
        in_order(events),
        events.len() > 0,
    ensures
        in_order(events.drop_last()),
{
    let before = events.drop_last();
    assert forall|i: int, j: int| 0 <= i <= j < before.len() implies time_of(
        #[trigger] before[i],
    ) <= time_of(#[trigger] before[j]) by {
        assert(before[i] == events[i] && before[j] == events[j]);
    }
}

/// A watcher that counts as there keeps doing so as long as no round ends more
/// than fifteen seconds after a heartbeat.
pub proof fn law_heartbeats_keep_the_connection(link: LinkView, events: Seq<LinkEvent>)
    requires
        link.connected,
        in_order(events),
        forall|j: int|
            0 <= j < events.len() && #[trigger] events[j] is RoundOver ==> heard_lately(events, j),
    ensures
        link.after(events).connected,
    decreases events.len(),
{
    if events.len() > 0 {
        let before = events.drop_last();
        let last = events.len() - 1;
        assert(events.last() == events[last]);
        lemma_in_order_prefix(events);
        assert forall|j: int|
            0 <= j < before.len() && #[trigger] before[j] is RoundOver implies heard_lately(
            before,
            j,
        ) by {
            assert(events[j] is RoundOver);
            let i = choose|i: int|
                0 <= i < j && is_heartbeat(#[trigger] events[i]) && !silent_too_long(
                    time_of(events[i]),
                    time_of(events[j]),
                );
            assert(before[i] == events[i]);
        }
        law_heartbeats_keep_the_connection(link, before);
        if events[last] is RoundOver {
            let i = choose|i: int|
                0 <= i < last && is_heartbeat(#[trigger] events[i]) && !silent_too_long(
                    time_of(events[i]),
                    time_of(events[last]),
                );
            assert(before[i] == events[i]);
            lemma_last_heartbeat_latest(link, before, i);
        }
    }
}

/// A watcher that wakes at least every ten seconds is not taken for gone: where
/// no heartbeat was due at `woke`, the pause that ends at `next` is over at most
/// fifteen seconds after the heartbeat at `sent`.
pub proof fn law_waking_every_ten_seconds_suffices(sent: nat, woke: nat, next: nat)
    requires
        sent <= woke <= next,
        !heartbeat_due(sent, woke),
        next - woke <= 10 * NS_PER_SECOND,
    ensures
        !silent_too_long(sent, next),
{
}

/// A watcher that is there and was last heard of at `last_heartbeat` is taken for
/// gone at the end of a round exactly if that is more than fifteen seconds ago,
/// in nanoseconds and at any time; one that is gone stays gone. Nothing else
/// changes.
pub proof fn law_silence_written_out(link: LinkView, now: u128)
    ensures
        ({
            let (then, action) = link.next(LinkEvent::RoundOver { now });
            let silent = now as int - link.last_heartbeat > 15_000_000_000;
            &&& link.connected && silent ==> !then.connected && action is ShowDisconnected
            &&& link.connected && !silent ==> then.connected && action is Nothing
            &&& !link.connected ==> !then.connected && action is Nothing
            &&& then.last_heartbeat == link.last_heartbeat
            &&& then.msg_count == link.msg_count
        }),
{
}

/// The same over a run: after a heartbeat at `t` and any events without another
/// one, in which no round ends more than fifteen seconds after `t`, a round that
/// ends at `now` shows the watcher as gone exactly if `now` is later than that.
pub proof fn law_silence_after_a_heartbeat(
    link: LinkView,
    t: u128,
    events: Seq<LinkEvent>,
    now: u128,
)
    requires
        forall|i: int|
            0 <= i < events.len() ==> match #[trigger] events[i] {
                LinkEvent::Message { msg, .. } => msg is Notification,
                LinkEvent::RoundOver { now: end } => end <= t + 15_000_000_000,
            },
    ensures
        ({
            let heard = link.next(LinkEvent::Message { msg: UdpMsg::Heartbeat, now: t }).0;
            let (then, action) = heard.after(events).next(LinkEvent::RoundOver { now });
            &&& now as int - t > 15_000_000_000 <==> action is ShowDisconnected
            &&& now as int - t > 15_000_000_000 <==> !then.connected
        }),
{
    assert(quiet_within(events, t as nat)) by {
        assert forall|i: int| 0 <= i < events.len() implies {
            &&& !is_heartbeat(#[trigger] events[i])
            &&& events[i] is RoundOver ==> !silent_too_long(t as nat, time_of(events[i]))
        } by {
            let e = events[i];
        }
    }
    law_disconnects_exactly_after_silence(link, t, events, now);
}

/// A heartbeat is noted with its time, in every state, and shown where the
/// watcher was not there. A notification alerts with the next number, in every
/// state, and leaves the connection as it is.
pub proof fn law_messages_written_out(link: LinkView, now: u128)
    requires
        link.msg_count < u64::MAX,
    ensures
        ({
            let (beat, shown) = link.next(LinkEvent::Message { msg: UdpMsg::Heartbeat, now });
            let (note, alert) = link.next(LinkEvent::Message { msg: UdpMsg::Notification, now });
            &&& beat.connected
            &&& beat.last_heartbeat == now
            &&& beat.msg_count == link.msg_count
            &&& link.connected ==> shown is Nothing
            &&& !link.connected ==> shown is ShowConnected
            &&& note.connected == link.connected
            &&& note.last_heartbeat == link.last_heartbeat
            &&& note.msg_count == link.msg_count + 1
            &&& alert matches LinkAction::Alert { count } && count == link.msg_count + 1
        }),
{
}

/// Every event can be taken as long as the count is in range, and a receiver
/// starts without a watcher and without notifications.
pub proof fn law_events_can_be_taken(link: LinkView, event: LinkEvent, start: nat)
    ensures
        link.msg_count < u64::MAX ==> link.takes(event),
        event is RoundOver ==> link.takes(event),
        !LinkView::started(start).connected,
        LinkView::started(start).last_heartbeat == start,
        LinkView::started(start).msg_count == 0,
{
}

} // verus!
