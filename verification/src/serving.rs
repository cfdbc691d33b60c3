use vstd::multiset::Multiset;
use vstd::prelude::*;

use crate::message::{Group, GroupDrop, Info, SubscribeUpdate};
use crate::publisher::TrackState;

verus! {

/// What can happen while a subscription is served.
pub enum ServingEvent {
    /// The track has a new group, or no more groups.
    Group(Option<u64>),
    /// The subscriber changed the subscription, or is done with it.
    Update(Option<SubscribeUpdate>),
    /// A group was served, or failed to be with an error code.
    Served(u64, Option<u32>),
}

/// How far a subscription has been served.
#[verifier::ext_equal]
pub struct ServingView {
    /// The number of the subscription.
    pub subscribe: u64,
    /// Whether the subscriber is done.
    pub complete: bool,
    /// Whether, since something else happened last, the track had no more groups.
    pub ended: bool,
    /// The groups that are being served.
    pub tasks: Multiset<u64>,
}

impl ServingView {
    /// A subscription of which nothing was served yet.
    pub open spec fn start(subscribe: u64) -> ServingView {
        ServingView { subscribe, complete: false, ended: false, tasks: Multiset::empty() }
    }

    /// Whether the event is one that is waited for.
    pub open spec fn awaits(self, event: ServingEvent) -> bool {
        match event {
            ServingEvent::Group(_) => !self.ended,
            ServingEvent::Update(_) => !self.complete,
            ServingEvent::Served(sequence, _) => self.tasks.contains(sequence),
        }
    }

    /// After the event.
    pub open spec fn after(self, event: ServingEvent) -> ServingView {
        match event {
            ServingEvent::Group(Some(sequence)) => ServingView {
                tasks: self.tasks.insert(sequence),
                ..self
            },
            ServingEvent::Group(None) => ServingView { ended: true, ..self },
            ServingEvent::Update(Some(_)) => ServingView { ended: false, ..self },
            ServingEvent::Update(None) => ServingView { complete: true, ended: false, ..self },
            ServingEvent::Served(sequence, _) => ServingView {
                ended: false,
                tasks: self.tasks.remove(sequence),
                ..self
            },
        }
    }

    /// Whether nothing is waited for any more.
    pub open spec fn finished(self) -> bool {
        self.ended && self.complete && self.tasks.len() == 0
    }
}

/// What the subscriber is told of an event: which group is lost, and why.
pub open spec fn report(event: ServingEvent) -> Option<GroupDrop> {
    match event {
        ServingEvent::Served(sequence, Some(code)) => Some(
            GroupDrop { sequence, count: 0, code },
        ),
        _ => None,
    }
}

/// What is to be waited for.
#[derive(Debug, Clone, Copy, PartialEq, Eq)]
pub struct Polls {
    pub groups: bool,
    pub updates: bool,
    pub tasks: bool,
}

/// Serves a subscription: every group of the track is served as soon as it exists, several at a
/// time, until the track has no more groups, all of them were served, and the subscriber is done.
#[derive(Debug)]
pub struct SubscribeServer {
    subscribe: u64,
    complete: bool,
    ended: bool,
    tasks: Vec<u64>,
}

impl View for SubscribeServer {
    type V = ServingView;

    closed spec fn view(&self) -> ServingView {
        ServingView {
            subscribe: self.subscribe,
            complete: self.complete,
            ended: self.ended,
            tasks: self.tasks@.to_multiset(),
        }
    }
}

impl SubscribeServer {
    /// Starts to serve a subscription to a track: the subscriber is told of its state first.
    pub fn new(subscribe: u64, track: TrackState) -> (r: (Info, SubscribeServer))
        ensures
            r.0.group_latest == track.latest_group,
            r.0.group_order == track.order,
            r.0.track_priority == track.priority,
            r.1@ == ServingView::start(subscribe),
    {
        let server = SubscribeServer {
            subscribe,
            complete: false,
            ended: false,
            tasks: Vec::new(),
        };
        proof {
            server.tasks@.to_multiset_ensures();
            assert(server@ =~= ServingView::start(subscribe));
        }
        (track.info(), server)
    }

    /// What is to be waited for. Where that is nothing, the subscription has been served.
    pub fn polls(&self) -> (polls: Polls)
        ensures
            polls.groups == !self@.ended,
            polls.updates == !self@.complete,
            polls.tasks == (self@.tasks.len() > 0),
            self@.finished() <==> !polls.groups && !polls.updates && !polls.tasks,
    {
        proof {
            self.tasks@.to_multiset_ensures();
        }
        Polls { groups: !self.ended, updates: !self.complete, tasks: self.tasks.len() > 0 }
    }

    /// The track has a new group: it is to be served under this head. Or it has no more groups.
    pub fn group(&mut self, sequence: Option<u64>) -> (serve: Option<Group>)
        requires
            old(self)@.awaits(ServingEvent::Group(sequence)),
        ensures
            final(self)@ == old(self)@.after(ServingEvent::Group(sequence)),
            serve == match sequence {
                Some(sequence) => Some(Group { subscribe: old(self)@.subscribe, sequence }),
                None => None,
            },
    {
        match sequence {
            Some(sequence) => {
                proof {
                    self.tasks@.to_multiset_ensures();
                }
                self.tasks.push(sequence);
                Some(Group { subscribe: self.subscribe, sequence })
            },
            None => {
                self.ended = true;
                None
            },
        }
    }

    /// The subscriber changed the subscription, which has no effect, or is done with it.
    pub fn update(&mut self, update: Option<SubscribeUpdate>)
        requires
            old(self)@.awaits(ServingEvent::Update(update)),
        ensures
            final(self)@ == old(self)@.after(ServingEvent::Update(update)),
    {
        self.ended = false;
        if update.is_none() {
            self.complete = true;
        }
    }

    /// A group was served. Where that failed, with an error code, the subscriber is told.
    pub fn served(&mut self, sequence: u64, failed: Option<u32>) -> (drop: Option<GroupDrop>)
        requires
            old(self)@.awaits(ServingEvent::Served(sequence, failed)),
        ensures
            final(self)@ == old(self)@.after(ServingEvent::Served(sequence, failed)),
            drop == report(ServingEvent::Served(sequence, failed)),
    {
        let mut i: usize = 0;
        proof {
            self.tasks@.to_multiset_ensures();
        }
        while i < self.tasks.len() && self.tasks[i] != sequence
            invariant
                i <= self.tasks.len(),
                *self == *old(self),
                self.tasks@.contains(sequence),
                forall|j: int| 0 <= j < i ==> self.tasks@[j] != sequence,
            ensures
                i < self.tasks.len(),
                *self == *old(self),
                self.tasks@[i as int] == sequence,
            decreases self.tasks.len() - i,
        {
            i = i + 1;
        }
        proof {
            vstd::seq_lib::to_multiset_remove(self.tasks@, i as int);
        }
        self.tasks.remove(i);
        self.ended = false;
        match failed {
            Some(code) => Some(GroupDrop { sequence, count: 0, code }),
            None => None,
        }
    }
}

/// Whether each of the events is waited for when it comes.
pub open spec fn awaits_all(view: ServingView, events: Seq<ServingEvent>) -> bool
    decreases events.len(),
{
    events.len() > 0 ==> {
        &&& awaits_all(view, events.drop_last())
        &&& after_all(view, events.drop_last()).awaits(events.last())
    }
}

/// After all the events.
pub open spec fn after_all(view: ServingView, events: Seq<ServingEvent>) -> ServingView
    decreases events.len(),
{
    if events.len() == 0 {
        view
    } else {
        after_all(view, events.drop_last()).after(events.last())
    }
}

/// The groups that the track had.
pub open spec fn groups_had(events: Seq<ServingEvent>) -> Multiset<u64>
    decreases events.len(),
{
    if events.len() == 0 {
        Multiset::empty()
    } else {
        match events.last() {
            ServingEvent::Group(Some(sequence)) => groups_had(events.drop_last()).insert(sequence),
            _ => groups_had(events.drop_last()),
        }
    }
}

/// The groups that were served, or failed to be.
pub open spec fn groups_served(events: Seq<ServingEvent>) -> Multiset<u64>
    decreases events.len(),
{
    if events.len() == 0 {
        Multiset::empty()
    } else {
        match events.last() {
            ServingEvent::Served(sequence, _) => groups_served(events.drop_last()).insert(sequence),
            _ => groups_served(events.drop_last()),
        }
    }
}

/// The groups that failed to be served.
pub open spec fn groups_lost(events: Seq<ServingEvent>) -> Multiset<u64>
    decreases events.len(),
{
    if events.len() == 0 {
        Multiset::empty()
    } else {
        match events.last() {
            ServingEvent::Served(sequence, Some(_)) => groups_lost(events.drop_last()).insert(
                sequence,
            ),
            _ => groups_lost(events.drop_last()),
        }
    }
}

/// What the subscriber is owed for the groups that failed to be served: the number of each, on its
/// own, and the code that it failed with.
pub open spec fn drops_owed(events: Seq<ServingEvent>) -> Multiset<GroupDrop>
    decreases events.len(),
{
    if events.len() == 0 {
        Multiset::empty()
    } else {
        match events.last() {
            ServingEvent::Served(sequence, Some(code)) => drops_owed(events.drop_last()).insert(
                GroupDrop { sequence, count: 0, code },
            ),
            _ => drops_owed(events.drop_last()),
        }
    }
}

/// What the subscriber is told of the events, in order.
pub open spec fn reports(events: Seq<ServingEvent>) -> Seq<GroupDrop>
    decreases events.len(),
{
    if events.len() == 0 {
        Seq::empty()
    } else {
        match report(events.last()) {
            Some(drop) => reports(events.drop_last()).push(drop),
            None => reports(events.drop_last()),
        }
    }
}

/// The subscriber is told of every group that failed to be served, once each and one by one, with
/// the code that it failed with, and of no other.
pub proof fn law_lost_groups_are_reported(events: Seq<ServingEvent>)
    ensures
        reports(events).to_multiset() == drops_owed(events),
        reports(events).map_values(|drop: GroupDrop| drop.sequence).to_multiset() == groups_lost(
            events,
        ),
        groups_lost(events).subset_of(groups_served(events)),
    decreases events.len(),
{
    let number = |drop: GroupDrop| drop.sequence;
    if events.len() == 0 {
        assert(reports(events).map_values(number) =~= Seq::empty());
        Seq::<u64>::empty().to_multiset_ensures();
        assert(Seq::<u64>::empty().to_multiset() =~= Multiset::empty());
        Seq::<GroupDrop>::empty().to_multiset_ensures();
        assert(Seq::<GroupDrop>::empty().to_multiset() =~= Multiset::empty());
    } else {
        let before = events.drop_last();
        law_lost_groups_are_reported(before);
        match report(events.last()) {
            Some(drop) => {
                reports(before).to_multiset_ensures();
                reports(before).map_values(number).to_multiset_ensures();
                assert(reports(events).map_values(number) =~= reports(before).map_values(
                    number,
                ).push(drop.sequence));
            },
            None => {},
        }
    }
}

/// Every group that the track had is either being served or was served, once, and nothing else
/// is. The subscriber is done from the moment on at which it said so, and at no other.
pub proof fn law_every_group_is_served_once(subscribe: u64, events: Seq<ServingEvent>)
    requires
        awaits_all(ServingView::start(subscribe), events),
    ensures
        ({
            let view = after_all(ServingView::start(subscribe), events);
            &&& view.subscribe == subscribe
            &&& groups_had(events) == view.tasks.add(groups_served(events))
            &&& view.complete <==> events.contains(ServingEvent::Update(None))
        }),
    decreases events.len(),
{
    let start = ServingView::start(subscribe);
    let view = after_all(start, events);
    if events.len() > 0 {
        let before = events.drop_last();
        let last = events.last();
        law_every_group_is_served_once(subscribe, before);
        assert(events =~= before.push(last));
        assert(events.contains(ServingEvent::Update(None)) <==> before.contains(
            ServingEvent::Update(None),
        ) || last == ServingEvent::Update(None)) by {
            if before.contains(ServingEvent::Update(None)) {
                let i = choose|i: int|
                    0 <= i < before.len() && before[i] == ServingEvent::Update(None);
                assert(events[i] == ServingEvent::Update(None));
            }
            assert(events[events.len() - 1] == last);
        }
    }
    assert(groups_had(events) =~= view.tasks.add(groups_served(events)));
}

/// A subscription ends only when the subscriber is done and every group that the track had was
/// served, or failed to be.
pub proof fn law_subscription_is_served_to_its_end(subscribe: u64, events: Seq<ServingEvent>)
    requires
        awaits_all(ServingView::start(subscribe), events),
        after_all(ServingView::start(subscribe), events).finished(),
    ensures
        events.contains(ServingEvent::Update(None)),
        groups_had(events) == groups_served(events),
        events.last() == ServingEvent::Group(None),
{
    law_every_group_is_served_once(subscribe, events);
    let view = after_all(ServingView::start(subscribe), events);
    assert(view.tasks =~= Multiset::empty());
    assert(groups_had(events) =~= groups_served(events));
}

/// A track is asked for its next group at all times, but directly after it said that it has no
/// more: groups that are being served never hold the next one up. The subscriber is listened to
/// until it says that it is done. A group can come to its end exactly as often as the track had
/// it and it has not come to its end yet.
pub proof fn law_groups_do_not_wait_for_each_other(subscribe: u64, events: Seq<ServingEvent>)
    requires
        awaits_all(ServingView::start(subscribe), events),
    ensures
        ({
            let view = after_all(ServingView::start(subscribe), events);
            &&& view.ended <==> events.len() > 0 && events.last() == ServingEvent::Group(None)
            &&& forall|sequence: Option<u64>| #[trigger]
                view.awaits(ServingEvent::Group(sequence)) <==> !(events.len() > 0 && events.last()
                    == ServingEvent::Group(None))
            &&& forall|update: Option<SubscribeUpdate>| #[trigger]
                view.awaits(ServingEvent::Update(update)) <==> !events.contains(
                    ServingEvent::Update(None),
                )
            &&& forall|sequence: u64, failed: Option<u32>| #[trigger]
                view.awaits(ServingEvent::Served(sequence, failed)) <==> groups_served(
                    events,
                ).count(sequence) < groups_had(events).count(sequence)
        }),
{
    law_every_group_is_served_once(subscribe, events);
}

/// A subscription is over exactly when the track has just said that it has no more groups, the
/// subscriber is done, and every group that the track had was served, or failed to be.
pub proof fn law_subscription_ends_once_all_is_done(subscribe: u64, events: Seq<ServingEvent>)
    requires
        awaits_all(ServingView::start(subscribe), events),
    ensures
        after_all(ServingView::start(subscribe), events).finished() <==> {
            &&& events.len() > 0
            &&& events.last() == ServingEvent::Group(None)
            &&& events.contains(ServingEvent::Update(None))
            &&& groups_had(events) == groups_served(events)
        },
{
    law_every_group_is_served_once(subscribe, events);
    law_groups_do_not_wait_for_each_other(subscribe, events);
    let view = after_all(ServingView::start(subscribe), events);
    if view.tasks.len() == 0 {
        assert(view.tasks =~= Multiset::empty());
        assert(groups_had(events) =~= groups_served(events));
    }
    if groups_had(events) == groups_served(events) {
        assert(groups_had(events).len() == view.tasks.len() + groups_served(events).len());
    }
}

/// What is waited for follows from what happened: the next group of the track, unless it has just
/// said that it has no more; the subscriber, until it said that it is done; and the groups that
/// are being served, while there are any.
pub proof fn law_polls_follow_from_events(
    server: SubscribeServer,
    subscribe: u64,
    events: Seq<ServingEvent>,
    polls: Polls,
)
    requires
        awaits_all(ServingView::start(subscribe), events),
        server@ == after_all(ServingView::start(subscribe), events),
        call_ensures(SubscribeServer::polls, (&server,), polls),
    ensures
        polls.groups <==> !(events.len() > 0 && events.last() == ServingEvent::Group(None)),
        polls.updates <==> !events.contains(ServingEvent::Update(None)),
        polls.tasks <==> groups_had(events) != groups_served(events),
{
    law_every_group_is_served_once(subscribe, events);
    law_groups_do_not_wait_for_each_other(subscribe, events);
    let tasks = server@.tasks;
    if tasks.len() == 0 {
        assert(tasks =~= Multiset::empty());
        assert(groups_had(events) =~= groups_served(events));
    } else {
        assert(groups_had(events).len() == tasks.len() + groups_served(events).len());
    }
}

/// A subscriber is told of a track at first what anybody is told who asks for its state, and that
/// is what the track says of itself. Its groups go out under the number of the subscription.
pub proof fn law_subscriber_is_told_of_the_track(
    subscribe: u64,
    track: TrackState,
    asked: Info,
    told: (Info, SubscribeServer),
)
    requires
        call_ensures(TrackState::info, (&track,), asked),
        call_ensures(SubscribeServer::new, (subscribe, track), told),
    ensures
        asked.group_latest == track.latest_group,
        asked.group_order == track.order,
        asked.track_priority == track.priority,
        told.0 == asked,
        told.1@.subscribe == subscribe,
        told.1@.tasks.len() == 0,
        !told.1@.complete && !told.1@.ended,
{
}

} // verus!
