use std::collections::HashMap;

use vstd::prelude::*;

use crate::announced::{Announced, AnnouncedConsumer, AnnouncedProducer, AnnouncedView, ConsumerView};
use crate::error::Error;
use crate::group::GroupReceiver;
use crate::message::{
    Announce, AnnouncePlease, ControlType, Group, GroupDrop, Info, Status, Subscribe, Track,
};
use crate::path::{Path, PathView};
use crate::path_map::PathMap;

verus! {

broadcast use vstd::std_specs::hash::group_hash_axioms;

/// What a subscriber has asked for.
#[verifier::reject_recursive_types(P)]
pub struct SubscriberView<P> {
    /// The tracks that are being received.
    pub tracks: Map<PathView, P>,
    /// The tracks that groups are accepted for, by the number of the subscription.
    pub subscribes: Map<u64, P>,
    /// The number of the next subscription.
    pub next_id: u64,
}

/// The number after `id`. The numbers start over once they are used up.
pub open spec fn id_after(id: u64) -> u64 {
    if id == u64::MAX {
        0
    } else {
        (id + 1) as u64
    }
}

impl<P> SubscriberView<P> {
    /// Nothing was asked for yet.
    pub open spec fn empty() -> SubscriberView<P> {
        SubscriberView { tracks: Map::empty(), subscribes: Map::empty(), next_id: 0 }
    }

    /// Whether a subscription to `path` is a new one.
    pub open spec fn is_new(self, path: PathView) -> bool {
        !self.tracks.dom().contains(path)
    }

    /// After a new subscription to `path`, which is to fill `track`.
    pub open spec fn subscribed(self, path: PathView, track: P) -> SubscriberView<P> {
        SubscriberView {
            tracks: self.tracks.insert(path, track),
            next_id: id_after(self.next_id),
            ..self
        }
    }

    /// After groups are accepted for the subscription `id`, which are to fill `track`.
    pub open spec fn running(self, id: u64, track: P) -> SubscriberView<P> {
        SubscriberView { subscribes: self.subscribes.insert(id, track), ..self }
    }

    /// After the subscription `id` to `path` is over.
    pub open spec fn unsubscribed(self, id: u64, path: PathView) -> SubscriberView<P> {
        SubscriberView {
            tracks: self.tracks.remove(path),
            subscribes: self.subscribes.remove(id),
            ..self
        }
    }

    /// Whether `r` is how an arriving group is taken in: it is to be created under its own number
    /// in the track of its subscription, where there is one.
    pub open spec fn takes(self, group: Group, r: Result<ArrivingGroup<P>, Error>) -> bool {
        match r {
            Ok(arriving) => {
                &&& self.subscribes.dom().contains(group.subscribe)
                &&& *arriving.track == self.subscribes[group.subscribe]
                &&& arriving.sequence == group.sequence
                &&& arriving.receiver@ == 0
            },
            Err(error) => {
                &&& !self.subscribes.dom().contains(group.subscribe)
                &&& error == Error::Cancel
            },
        }
    }
}

/// The outcome of a subscription.
#[derive(Debug)]
pub enum Subscribed<'a, P> {
    /// The track is being received already.
    Existing(&'a P),
    /// It is a new subscription.
    Started {
        /// Its number.
        id: u64,
        /// The kind of stream to open for it.
        stream: ControlType,
    },
}

/// A group that arrives for a subscription.
#[derive(Debug)]
pub struct ArrivingGroup<'a, P> {
    /// The track in which it is to be created.
    pub track: &'a P,
    /// The number under which it is to be created.
    pub sequence: u64,
    /// What receives its frames.
    pub receiver: GroupReceiver,
}

/// What an announcement of the peer leads to: the outcome, and what is announced then.
pub open spec fn heard(announced: AnnouncedView, prefix: PathView, status: Status) -> (
    Result<(), Error>,
    AnnouncedView,
) {
    match status {
        Status::Active(suffix) => if announced.active.contains(prefix + suffix) {
            (Err(Error::Duplicate), announced)
        } else {
            (Ok(()), announced.with(prefix + suffix))
        },
        Status::Ended(suffix) => if announced.active.contains(prefix + suffix) {
            (Ok(()), announced.without(prefix + suffix))
        } else {
            (Err(Error::NotFound), announced)
        },
        Status::Live => (Ok(()), announced.made_live()),
    }
}

/// Subscribes to tracks. `P` is a handle to a track that is being filled.
#[derive(Debug)]
pub struct Subscriber<P> {
    tracks: PathMap<P>,
    subscribes: HashMap<u64, P>,
    next_id: u64,
}

impl<P> View for Subscriber<P> {
    type V = SubscriberView<P>;

    closed spec fn view(&self) -> SubscriberView<P> {
        SubscriberView {
            tracks: self.tracks@,
            subscribes: self.subscribes@,
            next_id: self.next_id,
        }
    }
}

impl<P> Subscriber<P> {
    /// Nothing is asked for yet.
    pub fn new() -> (subscriber: Subscriber<P>)
        ensures
            subscriber@ == SubscriberView::<P>::empty(),
    {
        Subscriber { tracks: PathMap::new(), subscribes: HashMap::new(), next_id: 0 }
    }

    /// Discovers the tracks of the peer under `prefix`.
    pub fn announced(&self, prefix: Path) -> (discovery: Discovery)
        ensures
            discovery.starts(prefix@),
    {
        let announced = AnnouncedProducer::new();
        let follower = announced.subscribe_prefix(prefix.clone());
        let request = AnnouncePlease { prefix: prefix.clone() };
        Discovery {
            stream: ControlType::Announce,
            request,
            announcing: Announcing { prefix, announced, following: true },
            follower,
        }
    }

    /// Takes one announcement of the peer in. Fails where it announces a path twice, or takes
    /// the announcement of a path back that it never announced.
    pub fn recv_announce(
        announce: Announce,
        prefix: &Path,
        announced: &mut AnnouncedProducer,
    ) -> (r: Result<(), Error>)
        ensures
            (r, final(announced)@) == heard(old(announced)@, prefix@, announce@),
    {
        match announce {
            Announce::Active { suffix } => {
                let path = prefix.clone().append(&suffix);
                if !announced.announce(path) {
                    assert(announced@ =~= old(announced)@);
                    return Err(Error::Duplicate);
                }
            },
            Announce::Ended { suffix } => {
                let path = prefix.clone().append(&suffix);
                if !announced.unannounce(&path) {
                    assert(announced@ =~= old(announced)@);
                    return Err(Error::NotFound);
                }
            },
            Announce::Live => {
                announced.live();
            },
        }
        Ok(())
    }

    /// Subscribes to the track at `path`, to fill `track`, unless it is being received already.
    pub fn subscribe(&mut self, path: Path, track: P) -> (r: Subscribed<'_, P>)
        ensures
            match r {
                Subscribed::Existing(found) => {
                    &&& !old(self)@.is_new(path@)
                    &&& *found == old(self)@.tracks[path@]
                    &&& final(self)@ == old(self)@
                },
                Subscribed::Started { id, stream } => {
                    &&& stream == ControlType::Subscribe
                    &&& old(self)@.is_new(path@)
                    &&& id == old(self)@.next_id
                    &&& final(self)@ == old(self)@.subscribed(path@, track)
                },
            },
    {
        if self.tracks.contains_key(&path) {
            return Subscribed::Existing(self.tracks.get(&path).unwrap());
        }
        self.tracks.insert_vacant(path, track);
        let id: u64 = self.next_id;
        self.next_id = id.wrapping_add(1);
        Subscribed::Started { id, stream: ControlType::Subscribe }
    }

    /// Runs the subscription `id`: from now on groups for it are accepted, to fill `producer`. The
    /// request is to be sent. It asks for all groups.
    pub fn run_subscribe(&mut self, id: u64, producer: P, track: Track) -> (r: (
        Subscribe,
        Subscription,
    ))
        ensures
            final(self)@ == old(self)@.running(id, producer),
            r.0 == (Subscribe {
                id,
                path: track.path,
                priority: track.priority,
                group_order: track.order,
                group_min: None,
                group_max: None,
            }),
            r.1@ == Phase::Requested,
    {
        self.subscribes.insert(id, producer);
        let request = Subscribe {
            id,
            path: track.path,
            priority: track.priority,
            group_order: track.order,
            group_min: None,
            group_max: None,
        };
        (request, Subscription { phase: Phase::Requested })
    }

    /// The subscription `id` to `path` is over, for whatever reason.
    pub fn unsubscribe(&mut self, id: u64, path: &Path)
        ensures
            final(self)@ == old(self)@.unsubscribed(id, path@),
    {
        self.subscribes.remove(&id);
        self.tracks.remove(path);
    }

    /// A group arrives: where it is to be created, and what receives it. Fails where nobody
    /// subscribes to it.
    pub fn recv_group(&self, group: Group) -> (r: Result<ArrivingGroup<'_, P>, Error>)
        ensures
            self@.takes(group, r),
    {
        match self.subscribes.get(&group.subscribe) {
            Some(track) => Ok(
                ArrivingGroup { track, sequence: group.sequence, receiver: GroupReceiver::new() },
            ),
            None => Err(Error::Cancel),
        }
    }
}

/// A discovery of the tracks of the peer under a prefix.
#[derive(Debug)]
pub struct Discovery {
    /// The kind of stream to open for it.
    pub stream: ControlType,
    /// What to send first.
    pub request: AnnouncePlease,
    /// What follows the answers.
    pub announcing: Announcing,
    /// What tells of them, to whoever asked.
    pub follower: AnnouncedConsumer,
}

impl Discovery {
    /// Whether this is how the discovery of the tracks under `prefix` starts.
    pub open spec fn starts(self, prefix: PathView) -> bool {
        &&& self.stream == ControlType::Announce
        &&& self.request.prefix@ == prefix
        &&& self.announcing@ == AnnouncingView::start(prefix)
        &&& self.follower@ == (ConsumerView { prefix, told: Set::empty(), live: false })
    }
}

/// How far the announcements of the peer under a prefix were followed.
pub struct AnnouncingView {
    /// The prefix.
    pub prefix: PathView,
    /// What is announced.
    pub announced: AnnouncedView,
    /// Whether they are still followed.
    pub following: bool,
}

impl AnnouncingView {
    /// Nothing was announced yet.
    pub open spec fn start(prefix: PathView) -> AnnouncingView {
        AnnouncingView { prefix, announced: AnnouncedView::empty(), following: true }
    }

    /// They are not followed any more. What is announced stays.
    pub open spec fn over(self) -> AnnouncingView {
        AnnouncingView { following: false, ..self }
    }

    /// What the next announcement, or the end of them, leads to: the outcome, and how far they
    /// were followed then. After a failure they are not followed any more.
    pub open spec fn received(self, status: Option<Status>) -> (
        Result<(), Error>,
        AnnouncingView,
    ) {
        match status {
            Some(status) => match heard(self.announced, self.prefix, status) {
                (Ok(_), announced) => (Ok(()), AnnouncingView { announced, ..self }),
                (Err(error), announced) => (
                    Err(error),
                    AnnouncingView { announced, ..self }.over(),
                ),
            },
            None => (Ok(()), self.over()),
        }
    }
}

/// Follows the announcements of the peer under a prefix, until the peer ends them, one of them
/// is refused, or nobody wants to hear of them any more.
#[derive(Debug)]
pub struct Announcing {
    prefix: Path,
    announced: AnnouncedProducer,
    following: bool,
}

impl View for Announcing {
    type V = AnnouncingView;

    closed spec fn view(&self) -> AnnouncingView {
        AnnouncingView {
            prefix: self.prefix@,
            announced: self.announced@,
            following: self.following,
        }
    }
}

impl Announcing {
    /// The next announcement of the peer, or the end of them.
    pub fn received(&mut self, announce: Option<Announce>) -> (r: Result<(), Error>)
        requires
            old(self)@.following,
        ensures
            (r, final(self)@) == old(self)@.received(
                match announce {
                    Some(announce) => Some(announce@),
                    None => None,
                },
            ),
    {
        match announce {
            Some(announce) => {
                let r = Subscriber::<()>::recv_announce(
                    announce,
                    &self.prefix,
                    &mut self.announced,
                );
                if r.is_err() {
                    self.following = false;
                }
                r
            },
            None => {
                self.following = false;
                Ok(())
            },
        }
    }

    /// Nobody wants to hear of the announcements any more.
    pub fn unused(&mut self)
        requires
            old(self)@.following,
        ensures
            final(self)@ == old(self)@.over(),
    {
        self.following = false;
    }

    /// Whether the announcements are still followed.
    pub fn is_following(&self) -> (r: bool)
        ensures
            r == self@.following,
    {
        self.following
    }

    /// The next thing that `follower` has not been told of what is announced, if there is one.
    pub fn next(&self, follower: &mut AnnouncedConsumer) -> (event: Option<Announced>)
        ensures
            old(follower)@.hears(
                self@.announced,
                match event {
                    Some(announced) => Some(announced@),
                    None => None,
                },
                final(follower)@,
            ),
    {
        follower.next(&self.announced)
    }
}

/// How far a subscription is.
#[derive(Debug, Clone, Copy, PartialEq, Eq)]
pub enum Phase {
    /// The publisher has not answered yet.
    Requested,
    /// The publisher serves it.
    Active,
    /// It is over.
    Done,
}

/// What can happen to a subscription.
pub enum SubscriptionEvent {
    /// The publisher answered.
    Info(Info),
    /// The publisher tells of lost groups, or is done.
    Dropped(Option<GroupDrop>),
    /// Nobody reads the track any more.
    Unused,
}

impl Phase {
    /// Whether the event is one that is waited for.
    pub open spec fn awaits(self, event: SubscriptionEvent) -> bool {
        match event {
            SubscriptionEvent::Info(_) => self is Requested,
            _ => self is Active,
        }
    }

    /// After the event.
    pub open spec fn after(self, event: SubscriptionEvent) -> Phase {
        match event {
            SubscriptionEvent::Info(_) => Phase::Active,
            SubscriptionEvent::Dropped(Some(_)) => self,
            SubscriptionEvent::Dropped(None) => Phase::Done,
            SubscriptionEvent::Unused => Phase::Done,
        }
    }
}

/// A subscription that runs.
#[derive(Debug)]
pub struct Subscription {
    phase: Phase,
}

impl View for Subscription {
    type V = Phase;

    closed spec fn view(&self) -> Phase {
        self.phase
    }
}

impl Subscription {
    /// The publisher answered with the state of the track. What it says has no effect.
    pub fn info(&mut self, info: Info)
        requires
            old(self)@ is Requested,
        ensures
            final(self)@ is Active,
            final(self)@ == old(self)@.after(SubscriptionEvent::Info(info)),
    {
        self.phase = Phase::Active;
    }

    /// The publisher tells of lost groups, which has no effect, or it is done.
    pub fn dropped(&mut self, drop: Option<GroupDrop>)
        requires
            old(self)@ is Active,
        ensures
            final(self)@ == if drop is Some {
                Phase::Active
            } else {
                Phase::Done
            },
            final(self)@ == old(self)@.after(SubscriptionEvent::Dropped(drop)),
    {
        if drop.is_none() {
            self.phase = Phase::Done;
        }
    }

    /// Nobody reads the track any more.
    pub fn unused(&mut self)
        requires
            old(self)@ is Active,
        ensures
            final(self)@ is Done,
            final(self)@ == old(self)@.after(SubscriptionEvent::Unused),
    {
        self.phase = Phase::Done;
    }

    /// Whether the subscription is still served.
    pub fn is_active(&self) -> (r: bool)
        ensures
            r == (self@ is Active),
    {
        matches!(self.phase, Phase::Active)
    }
}

/// A track is received once: whoever subscribes to it while a subscription is on gets the track
/// that the first one fills.
pub proof fn law_subscription_is_shared<P>(subscriber: SubscriberView<P>, path: PathView, track: P)
    ensures
        !subscriber.subscribed(path, track).is_new(path),
        subscriber.subscribed(path, track).tracks[path] == track,
{
}

/// The end of a subscription undoes all but the count of it, whether or not it came to run, and
/// the track can be subscribed to anew.
pub proof fn law_unsubscribe_undoes_subscribe<P>(
    subscriber: SubscriberView<P>,
    path: PathView,
    track: P,
    producer: P,
)
    requires
        subscriber.is_new(path),
        !subscriber.subscribes.dom().contains(subscriber.next_id),
    ensures
        ({
            let id = subscriber.next_id;
            let started = subscriber.subscribed(path, track);
            let undone = SubscriberView { next_id: id_after(id), ..subscriber };
            &&& started.unsubscribed(id, path) == undone
            &&& started.running(id, producer).unsubscribed(id, path) == undone
            &&& undone.is_new(path)
        }),
{
    let id = subscriber.next_id;
    let started = subscriber.subscribed(path, track);
    assert(started.unsubscribed(id, path).tracks =~= subscriber.tracks);
    assert(started.unsubscribed(id, path).subscribes =~= subscriber.subscribes);
    assert(started.running(id, producer).unsubscribed(id, path).subscribes
        =~= subscriber.subscribes);
}

/// The end of a subscription leaves the tracks of other paths as they are.
pub proof fn law_unsubscribe_leaves_other_tracks<P>(
    subscriber: SubscriberView<P>,
    id: u64,
    path: PathView,
    other: PathView,
)
    requires
        path != other,
    ensures
        subscriber.unsubscribed(id, path).is_new(other) == subscriber.is_new(other),
        !subscriber.is_new(other) ==> subscriber.unsubscribed(id, path).tracks[other]
            == subscriber.tracks[other],
{
}

/// Whether all numbers in use were given out.
pub open spec fn ids_given<P>(subscriber: SubscriberView<P>) -> bool {
    forall|id: u64| #[trigger]
        subscriber.subscribes.dom().contains(id) ==> id < subscriber.next_id
}

/// As long as the numbers are not used up, a new subscription gets one that no other has.
pub proof fn law_ids_are_fresh<P>(
    subscriber: SubscriberView<P>,
    path: PathView,
    track: P,
    id: u64,
    producer: P,
)
    requires
        ids_given(subscriber),
    ensures
        ids_given(SubscriberView::<P>::empty()),
        !subscriber.subscribes.dom().contains(subscriber.next_id),
        subscriber.next_id < u64::MAX ==> ids_given(subscriber.subscribed(path, track)),
        subscriber.next_id < u64::MAX ==> subscriber.next_id < subscriber.subscribed(
            path,
            track,
        ).next_id,
        id < subscriber.next_id ==> ids_given(subscriber.running(id, producer)),
        ids_given(subscriber.unsubscribed(id, path)),
{
}

/// Groups go to the track of their subscription, from the moment it runs until it is over, and
/// no other subscription changes that.
pub proof fn law_groups_go_to_their_subscription<P>(
    subscriber: SubscriberView<P>,
    id: u64,
    producer: P,
    other: u64,
    other_path: PathView,
    other_producer: P,
)
    requires
        id != other,
    ensures
        ({
            let running = subscriber.running(id, producer);
            &&& running.subscribes.dom().contains(id) && running.subscribes[id] == producer
            &&& running.subscribed(other_path, other_producer).subscribes == running.subscribes
            &&& running.running(other, other_producer).subscribes.dom().contains(id)
            &&& running.running(other, other_producer).subscribes[id] == producer
            &&& running.unsubscribed(other, other_path).subscribes.dom().contains(id)
            &&& running.unsubscribed(other, other_path).subscribes[id] == producer
            &&& !running.unsubscribed(id, other_path).subscribes.dom().contains(id)
        }),
{
}

/// The numbers of subscriptions count up by one, and start over behind the largest.
pub proof fn law_ids_count_up<P>(subscriber: SubscriberView<P>, path: PathView, track: P)
    ensures
        SubscriberView::<P>::empty().next_id == 0,
        subscriber.subscribed(path, track).next_id == (subscriber.next_id + 1)
            % 0x1_0000_0000_0000_0000,
{
}

/// The end of a subscription forgets it, whatever other subscriptions were started, ran or ended
/// in between: its path is new again, and no group is accepted for it any more. At the start all
/// paths are new, and no group is accepted.
pub proof fn law_ended_subscription_is_forgotten<P>(
    subscriber: SubscriberView<P>,
    id: u64,
    path: PathView,
)
    ensures
        subscriber.unsubscribed(id, path).is_new(path),
        !subscriber.unsubscribed(id, path).tracks.dom().contains(path),
        !subscriber.unsubscribed(id, path).subscribes.dom().contains(id),
        SubscriberView::<P>::empty().is_new(path),
        !SubscriberView::<P>::empty().subscribes.dom().contains(id),
{
}

/// A path is new exactly where no track is being received for it. What is done for one path
/// leaves the tracks of other paths as they are, and to accept groups changes no track at all.
pub proof fn law_tracks_are_independent<P>(
    subscriber: SubscriberView<P>,
    id: u64,
    path: PathView,
    track: P,
    other: PathView,
)
    ensures
        subscriber.is_new(other) <==> !subscriber.tracks.dom().contains(other),
        path != other ==> {
            &&& subscriber.subscribed(path, track).is_new(other) == subscriber.is_new(other)
            &&& subscriber.unsubscribed(id, path).is_new(other) == subscriber.is_new(other)
            &&& !subscriber.is_new(other) ==> {
                &&& subscriber.subscribed(path, track).tracks[other] == subscriber.tracks[other]
                &&& subscriber.unsubscribed(id, path).tracks[other] == subscriber.tracks[other]
            }
        },
        !subscriber.subscribed(path, track).is_new(path),
        subscriber.subscribed(path, track).tracks[path] == track,
        subscriber.running(id, track).tracks == subscriber.tracks,
{
}

/// Groups are accepted for a subscription or not, whatever is done for others, and only its own
/// run and its own end change that. A number is used up by a new subscription and by nothing else.
pub proof fn law_subscriptions_are_independent<P>(
    subscriber: SubscriberView<P>,
    id: u64,
    path: PathView,
    track: P,
    other: u64,
)
    ensures
        subscriber.subscribed(path, track).subscribes == subscriber.subscribes,
        id != other ==> {
            &&& subscriber.running(id, track).subscribes.dom().contains(other)
                == subscriber.subscribes.dom().contains(other)
            &&& subscriber.unsubscribed(id, path).subscribes.dom().contains(other)
                == subscriber.subscribes.dom().contains(other)
            &&& subscriber.subscribes.dom().contains(other) ==> {
                &&& subscriber.running(id, track).subscribes[other] == subscriber.subscribes[other]
                &&& subscriber.unsubscribed(id, path).subscribes[other]
                    == subscriber.subscribes[other]
            }
        },
        subscriber.running(id, track).subscribes.dom().contains(id),
        subscriber.running(id, track).subscribes[id] == track,
        subscriber.running(id, track).next_id == subscriber.next_id,
        subscriber.unsubscribed(id, path).next_id == subscriber.next_id,
{
}

/// A group that arrives while its subscription runs is created in the track of the subscription,
/// under its own number and from its first frame on. Before the subscription runs, or once it is
/// over, the group is refused.
pub proof fn law_groups_are_taken_while_subscribed<P>(
    subscriber: SubscriberView<P>,
    path: PathView,
    producer: P,
    group: Group,
    first: Result<ArrivingGroup<P>, Error>,
    running: Result<ArrivingGroup<P>, Error>,
    over: Result<ArrivingGroup<P>, Error>,
    any: Result<ArrivingGroup<P>, Error>,
)
    requires
        SubscriberView::<P>::empty().takes(group, first),
        subscriber.running(group.subscribe, producer).takes(group, running),
        subscriber.unsubscribed(group.subscribe, path).takes(group, over),
        subscriber.takes(group, any),
    ensures
        first == Err::<ArrivingGroup<P>, Error>(Error::Cancel),
        running matches Ok(arriving) && *arriving.track == producer && arriving.sequence
            == group.sequence && arriving.receiver@ == 0,
        over == Err::<ArrivingGroup<P>, Error>(Error::Cancel),
        match any {
            Ok(arriving) => {
                &&& subscriber.subscribes.dom().contains(group.subscribe)
                &&& *arriving.track == subscriber.subscribes[group.subscribe]
                &&& arriving.sequence == group.sequence
                &&& arriving.receiver@ == 0
            },
            Err(error) => error == Error::Cancel && !subscriber.subscribes.dom().contains(
                group.subscribe,
            ),
        },
{
}

/// An announcement of the peer is accepted exactly where it is news of that path, and then changes
/// that path alone: to announce a path makes it announced, to take that back makes it not
/// announced. A path that is announced twice is a duplicate, and one whose announcement is taken
/// back without having been made is not found. Neither changes anything. That all was told is
/// accepted at all times, and changes no path.
pub proof fn law_announcements_are_heard(
    announced: AnnouncedView,
    prefix: PathView,
    suffix: PathView,
    other: PathView,
)
    ensures
        ({
            let path = prefix + suffix;
            let known = announced.active.contains(path);
            let (active, with) = heard(announced, prefix, Status::Active(suffix));
            let (ended, without) = heard(announced, prefix, Status::Ended(suffix));
            let (live, all) = heard(announced, prefix, Status::Live);
            &&& active == if known {
                Err::<(), Error>(Error::Duplicate)
            } else {
                Ok::<(), Error>(())
            }
            &&& with.active.contains(other) <==> other == path || announced.active.contains(other)
            &&& with.live == announced.live
            &&& ended == if known {
                Ok::<(), Error>(())
            } else {
                Err::<(), Error>(Error::NotFound)
            }
            &&& without.active.contains(other) <==> other != path && announced.active.contains(
                other,
            )
            &&& without.live == announced.live
            &&& live == Ok::<(), Error>(())
            &&& all.active.contains(other) <==> announced.active.contains(other)
            &&& all.live
        }),
{
}

/// To take an announcement back undoes it, and what is announced can be taken back and announced
/// anew.
pub proof fn law_end_undoes_announcement(
    announced: AnnouncedView,
    prefix: PathView,
    suffix: PathView,
)
    ensures
        ({
            let (active, with) = heard(announced, prefix, Status::Active(suffix));
            let (ended, without) = heard(with, prefix, Status::Ended(suffix));
            &&& ended is Ok
            &&& heard(with, prefix, Status::Active(suffix)).0 is Err
            &&& heard(without, prefix, Status::Active(suffix)).0 is Ok
            &&& active is Ok ==> without == announced
        }),
{
    let with = heard(announced, prefix, Status::Active(suffix)).1;
    let without = heard(with, prefix, Status::Ended(suffix)).1;
    if !announced.active.contains(prefix + suffix) {
        assert(without =~= announced);
    }
}

/// The announcements of the peer are followed on after each one that is accepted, of whatever
/// kind. They are not followed any more once the peer ends them, one is refused, or nobody wants
/// to hear of them. What is announced changes with the accepted announcements and with nothing
/// else, and the prefix never changes.
pub proof fn law_announcements_are_followed_on(following: AnnouncingView, status: Status)
    ensures
        ({
            let (r, next) = following.received(Some(status));
            let (outcome, announced) = heard(following.announced, following.prefix, status);
            &&& r is Ok <==> outcome is Ok
            &&& r == outcome
            &&& next.following <==> following.following && r is Ok
            &&& next.announced == announced
            &&& next.prefix == following.prefix
        }),
        ({
            let (r, next) = following.received(None);
            &&& r is Ok
            &&& !next.following
            &&& next.announced == following.announced
            &&& next.prefix == following.prefix
        }),
        !following.over().following,
        following.over().announced == following.announced,
        following.over().prefix == following.prefix,
{
}

/// A discovery asks for the prefix that it was started for, and follows the answers under that
/// same prefix, with nothing announced, and whoever asked told of nothing, so far.
pub proof fn law_discovery_asks_for_its_prefix(discovery: Discovery, prefix: PathView)
    requires
        discovery.starts(prefix),
    ensures
        discovery.stream is Announce,
        discovery.request.prefix@ == prefix,
        discovery.announcing@.prefix == prefix,
        discovery.announcing@.following,
        !discovery.announcing@.announced.live,
        forall|path: PathView| !#[trigger] discovery.announcing@.announced.active.contains(path),
        discovery.follower@.prefix == prefix,
        !discovery.follower@.live,
        forall|suffix: PathView| !#[trigger] discovery.follower@.told.contains(suffix),
{
}

/// After all the events, from the moment on at which the subscription was requested.
pub open spec fn phase_after(events: Seq<SubscriptionEvent>) -> Phase
    decreases events.len(),
{
    if events.len() == 0 {
        Phase::Requested
    } else {
        phase_after(events.drop_last()).after(events.last())
    }
}

/// Whether each of the events is waited for when it comes.
pub open spec fn phase_awaits(events: Seq<SubscriptionEvent>) -> bool
    decreases events.len(),
{
    events.len() > 0 ==> {
        &&& phase_awaits(events.drop_last())
        &&& phase_after(events.drop_last()).awaits(events.last())
    }
}

/// Whether the event is one with which a subscription is over: the publisher is done, or nobody
/// reads the track any more.
pub open spec fn is_last(event: SubscriptionEvent) -> bool {
    event == SubscriptionEvent::Dropped(None) || event is Unused
}

/// A subscription is served from the answer of the publisher on, however many groups are lost,
/// until the publisher is done or nobody reads the track any more.
pub proof fn law_subscription_lasts_until_a_side_is_done(events: Seq<SubscriptionEvent>)
    requires
        phase_awaits(events),
    ensures
        phase_after(events) is Requested <==> events.len() == 0,
        phase_after(events) is Done <==> events.len() > 0 && is_last(events.last()),
        forall|i: int| 0 < i < events.len() ==> !((#[trigger] events[i]) is Info),
        forall|i: int| 0 <= i < events.len() - 1 ==> !is_last(#[trigger] events[i]),
        events.len() > 0 ==> events[0] is Info,
    decreases events.len(),
{
    if events.len() > 0 {
        let before = events.drop_last();
        law_subscription_lasts_until_a_side_is_done(before);
        assert forall|i: int| 0 < i < events.len() implies !((#[trigger] events[i]) is Info) by {
            if i < before.len() {
                assert(before[i] == events[i]);
            }
        }
        assert forall|i: int| 0 <= i < events.len() - 1 implies !is_last(#[trigger] events[i]) by {
            assert(before[i] == events[i]);
            if i < before.len() - 1 {
                assert(!is_last(before[i]));
            }
        }
    }
}

/// A subscription tells that it is served exactly between the answer of the publisher and the
/// event with which it is over.
pub proof fn law_subscription_tells_whether_it_is_served(
    subscription: Subscription,
    events: Seq<SubscriptionEvent>,
    active: bool,
)
    requires
        phase_awaits(events),
        subscription@ == phase_after(events),
        call_ensures(Subscription::is_active, (&subscription,), active),
    ensures
        active <==> events.len() > 0 && !is_last(events.last()),
{
    law_subscription_lasts_until_a_side_is_done(events);
}

} // verus!
