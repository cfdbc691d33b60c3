use vstd::prelude::*;

use crate::announced::{Announced, AnnouncedConsumer, AnnouncedProducer, AnnouncedView, ConsumerView};
use crate::error::Error;
use crate::group::GroupServer;
use crate::message::{
    Announce, AnnouncePlease, DataType, Fetch, Group, GroupOrder, Info, InfoRequest, Status, Subscribe,
    Track,
};
use crate::path::{Path, PathView};
use crate::path_map::PathMap;

verus! {

/// Where a requested track comes from.
#[derive(Debug)]
pub enum Source<'a, C, R> {
    /// It is published here.
    Published(&'a C),
    /// It is to be asked for at the router.
    Routed(&'a R, Track),
}

/// What a track says of itself.
#[derive(Debug, Clone, Copy, PartialEq, Eq)]
pub struct TrackState {
    /// The sequence number of the newest group.
    pub latest_group: u64,
    pub order: GroupOrder,
    pub priority: i8,
}

impl TrackState {
    /// The message that tells it.
    pub fn info(&self) -> (info: Info)
        ensures
            info.group_latest == self.latest_group,
            info.group_order == self.order,
            info.track_priority == self.priority,
    {
        Info {
            group_latest: self.latest_group,
            group_order: self.order,
            track_priority: self.priority,
        }
    }
}

/// A group that is to be sent.
#[derive(Debug)]
pub struct GroupStream {
    /// The kind of stream to open for it.
    pub stream: DataType,
    /// What to send first.
    pub head: Group,
    /// What sends the frames.
    pub server: GroupServer,
}

/// What a publisher offers.
#[verifier::reject_recursive_types(C)]
#[verifier::reject_recursive_types(R)]
pub struct PublisherView<C, R> {
    /// The paths that it announces.
    pub announced: AnnouncedView,
    /// The tracks that it serves.
    pub tracks: Map<PathView, C>,
    /// Whom it asks for other tracks.
    pub router: Option<R>,
}

impl<C, R> PublisherView<C, R> {
    /// Nothing is published, and that is all there is.
    pub open spec fn empty() -> PublisherView<C, R> {
        PublisherView {
            announced: AnnouncedView::empty().made_live(),
            tracks: Map::empty(),
            router: None,
        }
    }

    /// Whether a track can be published under `path`.
    pub open spec fn accepts(self, path: PathView) -> bool {
        !self.announced.active.contains(path) && !self.tracks.dom().contains(path)
    }

    /// After the attempt to publish `track` under `path`. A path that was not announced is
    /// announced then, even where an old track still holds it.
    pub open spec fn published(self, path: PathView, track: C) -> PublisherView<C, R> {
        PublisherView {
            announced: self.announced.with(path),
            tracks: if self.accepts(path) {
                self.tracks.insert(path, track)
            } else {
                self.tracks
            },
            ..self
        }
    }

    /// After the track under `path` is gone.
    pub open spec fn unpublished(self, path: PathView) -> PublisherView<C, R> {
        PublisherView {
            announced: self.announced.without(path),
            tracks: self.tracks.remove(path),
            ..self
        }
    }

    /// After an announcement of others is passed on.
    pub open spec fn relayed(self, event: Status) -> PublisherView<C, R> {
        PublisherView {
            announced: match event {
                Status::Active(path) => self.announced.with(path),
                Status::Ended(path) => self.announced.without(path),
                Status::Live => self.announced.made_live(),
            },
            ..self
        }
    }

    /// After a router is set.
    pub open spec fn routed(self, router: R) -> PublisherView<C, R> {
        PublisherView { router: Some(router), ..self }
    }

    /// Whether `source` is where a request for `track` leads.
    pub open spec fn serves(self, track: Track, source: Result<Source<C, R>, Error>) -> bool {
        match source {
            Ok(Source::Published(found)) => {
                &&& self.tracks.dom().contains(track.path@)
                &&& *found == self.tracks[track.path@]
            },
            Ok(Source::Routed(router, asked)) => {
                &&& !self.tracks.dom().contains(track.path@)
                &&& self.router == Some(*router)
                &&& asked == track
            },
            Err(error) => {
                &&& !self.tracks.dom().contains(track.path@)
                &&& self.router is None
                &&& error == Error::NotFound
            },
        }
    }
}

/// Publishes tracks. `C` is a handle to a published track, `R` one to a router.
#[derive(Debug)]
pub struct Publisher<C, R> {
    announced: AnnouncedProducer,
    tracks: PathMap<C>,
    router: Option<R>,
}

impl<C, R> View for Publisher<C, R> {
    type V = PublisherView<C, R>;

    closed spec fn view(&self) -> PublisherView<C, R> {
        PublisherView { announced: self.announced@, tracks: self.tracks@, router: self.router }
    }
}

impl<C, R> Publisher<C, R> {
    /// Nothing is published yet. It starts live, since what it announces is its own.
    pub fn new() -> (publisher: Publisher<C, R>)
        ensures
            publisher@ == PublisherView::<C, R>::empty(),
    {
        let mut announced = AnnouncedProducer::new();
        announced.live();
        Publisher { announced, tracks: PathMap::new(), router: None }
    }

    /// Publishes a track: announces its path and serves it. Fails where the path is announced
    /// already, or where another track holds it.
    pub fn publish(&mut self, path: Path, track: C) -> (r: Result<(), Error>)
        ensures
            final(self)@ == old(self)@.published(path@, track),
            match r {
                Ok(_) => old(self)@.accepts(path@),
                Err(error) => !old(self)@.accepts(path@) && error == Error::Duplicate,
            },
    {
        let name = path.clone();
        if !self.announced.announce(name) {
            assert(self@.announced =~= old(self)@.announced.with(path@));
            return Err(Error::Duplicate);
        }
        if !self.tracks.insert_vacant(path, track) {
            return Err(Error::Duplicate);
        }
        Ok(())
    }

    /// The track under `path` was closed, or the session was: it is no longer served, and its
    /// announcement is taken back.
    pub fn unpublish(&mut self, path: &Path)
        ensures
            final(self)@ == old(self)@.unpublished(path@),
    {
        self.tracks.remove(path);
        self.announced.unannounce(path);
    }

    /// Passes an announcement on to whoever follows this publisher. It does not matter whether
    /// it is news.
    pub fn announce(&mut self, event: Announced)
        ensures
            final(self)@ == old(self)@.relayed(event@),
    {
        match event {
            Announced::Active(path) => {
                self.announced.announce(path);
            },
            Announced::Ended(path) => {
                self.announced.unannounce(&path);
            },
            Announced::Live => {
                self.announced.live();
            },
        }
    }

    /// Sends requests for tracks that are not published here to `router`, instead of the router
    /// that was set before.
    pub fn route(&mut self, router: R)
        ensures
            final(self)@ == old(self)@.routed(router),
    {
        self.router = Some(router);
    }

    /// Where a track comes from: a published one comes from here, others come from the router.
    /// Fails where there is no router.
    pub fn get_track(&self, track: Track) -> (source: Result<Source<'_, C, R>, Error>)
        ensures
            self@.serves(track, source),
    {
        if let Some(found) = self.tracks.get(&track.path) {
            return Ok(Source::Published(found));
        }
        match &self.router {
            Some(router) => Ok(Source::Routed(router, track)),
            None => Err(Error::NotFound),
        }
    }

    /// A peer asks for announcements: they start with the ones that are in force.
    pub fn recv_announce(&self, interest: AnnouncePlease) -> (follower: AnnouncedConsumer)
        ensures
            follower@ == (ConsumerView {
                prefix: interest.prefix@,
                told: Set::empty(),
                live: false,
            }),
    {
        self.announced.subscribe_prefix(interest.prefix)
    }

    /// The next announcement to send to a peer that asked for them, if there is one.
    pub fn next_announce(&self, follower: &mut AnnouncedConsumer) -> (message: Option<Announce>)
        ensures
            old(follower)@.hears(
                self@.announced,
                match message {
                    Some(announce) => Some(announce@),
                    None => None,
                },
                final(follower)@,
            ),
    {
        match follower.next(&self.announced) {
            Some(event) => Some(event.into_message()),
            None => None,
        }
    }

    /// A peer subscribes to a track: where it comes from.
    pub fn recv_subscribe(&self, subscribe: Subscribe) -> (source: Result<
        Source<'_, C, R>,
        Error,
    >)
        ensures
            self@.serves(
                Track {
                    path: subscribe.path,
                    priority: subscribe.priority,
                    order: subscribe.group_order,
                },
                source,
            ),
    {
        let track = Track {
            path: subscribe.path,
            priority: subscribe.priority,
            order: subscribe.group_order,
        };
        self.get_track(track)
    }

    /// A peer asks for the state of a track: where it comes from.
    pub fn recv_info(&self, request: InfoRequest) -> (source: Result<Source<'_, C, R>, Error>)
        ensures
            self@.serves(
                Track { path: request.path, priority: 0, order: GroupOrder::Desc },
                source,
            ),
    {
        let track = Track { path: request.path, ..Default::default() };
        self.get_track(track)
    }

    /// A peer asks for the rest of a group: where its track comes from, and the number under which
    /// the group is to be looked up in it.
    pub fn recv_fetch(&self, fetch: Fetch) -> (r: Result<(Source<'_, C, R>, u64), Error>)
        ensures
            self@.serves(
                Track { path: fetch.path, priority: fetch.priority, order: GroupOrder::Desc },
                match r {
                    Ok((source, _)) => Ok(source),
                    Err(error) => Err(error),
                },
            ),
            r matches Ok((_, group)) ==> group == fetch.group,
    {
        let group: u64 = fetch.group;
        let track = Track { path: fetch.path, priority: fetch.priority, ..Default::default() };
        match self.get_track(track) {
            Ok(source) => Ok((source, group)),
            Err(error) => Err(error),
        }
    }

    /// Starts to send a group, on a stream of its own.
    pub fn serve_group(subscribe: u64, sequence: u64) -> (serving: GroupStream)
        ensures
            serving.stream == DataType::Group,
            serving.head == (Group { subscribe, sequence }),
            serving.server@ == None::<nat>,
    {
        let (head, server) = Self::serve_group_inner(subscribe, sequence);
        GroupStream { stream: DataType::Group, head, server }
    }

    /// The head of a group, which goes first, and what sends its frames.
    pub fn serve_group_inner(subscribe: u64, sequence: u64) -> (r: (Group, GroupServer))
        ensures
            r.0 == (Group { subscribe, sequence }),
            r.1@ == None::<nat>,
    {
        (Group { subscribe, sequence }, GroupServer::new())
    }
}

/// A published track is announced, and served from here, whatever the router.
pub proof fn law_published_track_is_served<C, R>(
    publisher: PublisherView<C, R>,
    track: Track,
    published: C,
    source: Result<Source<C, R>, Error>,
)
    requires
        publisher.accepts(track.path@),
        publisher.published(track.path@, published).serves(track, source),
    ensures
        publisher.published(track.path@, published).announced.active.contains(track.path@),
        source matches Ok(Source::Published(found)) && *found == published,
{
}

/// A path can be published once: until it is given up, another attempt is refused and changes
/// nothing.
pub proof fn law_path_is_published_once<C, R>(
    publisher: PublisherView<C, R>,
    path: PathView,
    first: C,
    second: C,
)
    ensures
        !publisher.published(path, first).accepts(path),
        publisher.published(path, first).published(path, second) == publisher.published(
            path,
            first,
        ),
{
    let once = publisher.published(path, first);
    assert(once.announced.with(path) =~= once.announced);
}

/// To give a published track up undoes its publication, and the path can be published again.
pub proof fn law_unpublish_undoes_publish<C, R>(
    publisher: PublisherView<C, R>,
    path: PathView,
    track: C,
)
    requires
        publisher.accepts(path),
    ensures
        publisher.published(path, track).unpublished(path) == publisher,
        publisher.published(path, track).unpublished(path).accepts(path),
{
    let undone = publisher.published(path, track).unpublished(path);
    assert(undone.announced =~= publisher.announced);
    assert(undone.tracks =~= publisher.tracks);
}

/// To publish a track, or to give it up, leaves the tracks and announcements of other paths as
/// they are.
pub proof fn law_paths_are_independent<C, R>(
    publisher: PublisherView<C, R>,
    path: PathView,
    track: C,
    other: PathView,
)
    requires
        path != other,
    ensures
        ({
            let published = publisher.published(path, track);
            let unpublished = publisher.unpublished(path);
            &&& published.accepts(other) == publisher.accepts(other)
            &&& unpublished.accepts(other) == publisher.accepts(other)
            &&& published.announced.active.contains(other)
                == publisher.announced.active.contains(other)
            &&& unpublished.announced.active.contains(other)
                == publisher.announced.active.contains(other)
            &&& publisher.tracks.dom().contains(other) ==> published.tracks[other]
                == publisher.tracks[other] && unpublished.tracks[other] == publisher.tracks[other]
        }),
{
}

/// Whether every track that is served is announced.
pub open spec fn all_announced<C, R>(publisher: PublisherView<C, R>) -> bool {
    publisher.tracks.dom().subset_of(publisher.announced.active)
}

/// Every track that is served is announced, from the start on. Only a relayed end of
/// announcement of that very path can change this.
pub proof fn law_served_tracks_are_announced<C, R>(
    publisher: PublisherView<C, R>,
    path: PathView,
    track: C,
    router: R,
    event: Status,
)
    requires
        all_announced(publisher),
    ensures
        all_announced(PublisherView::<C, R>::empty()),
        all_announced(publisher.published(path, track)),
        all_announced(publisher.unpublished(path)),
        all_announced(publisher.routed(router)),
        !(event is Ended && publisher.tracks.dom().contains(event->Ended_0)) ==> all_announced(
            publisher.relayed(event),
        ),
{
}

/// While every track that is served is announced, a path can be published exactly where it is
/// not announced.
pub proof fn law_announced_paths_are_refused<C, R>(publisher: PublisherView<C, R>, path: PathView)
    requires
        all_announced(publisher),
    ensures
        publisher.accepts(path) <==> !publisher.announced.active.contains(path),
{
}

/// A request leads to the published track of its path where there is one. Otherwise it is passed
/// to the router as it stands, and without a router it is refused.
pub proof fn law_requests_are_answered<C, R>(
    publisher: PublisherView<C, R>,
    track: Track,
    source: Result<Source<C, R>, Error>,
)
    requires
        publisher.serves(track, source),
    ensures
        publisher.tracks.dom().contains(track.path@) ==> (source matches Ok(
            Source::Published(found),
        ) && *found == publisher.tracks[track.path@]),
        !publisher.tracks.dom().contains(track.path@) && publisher.router is Some ==> (
        source matches Ok(Source::Routed(router, asked)) && *router == publisher.router->0
            && asked == track),
        !publisher.tracks.dom().contains(track.path@) && publisher.router is None ==> source
            == Err::<Source<C, R>, Error>(Error::NotFound),
{
}

/// Once a router is set, every track that is not published here is asked for at that very router,
/// whatever is published, announced, or was routed before. The tracks and the announcements stay.
pub proof fn law_unpublished_tracks_are_routed<C, R>(
    publisher: PublisherView<C, R>,
    router: R,
    track: Track,
    source: Result<Source<C, R>, Error>,
)
    requires
        publisher.routed(router).serves(track, source),
    ensures
        !publisher.tracks.dom().contains(track.path@) ==> (source matches Ok(
            Source::Routed(to, asked),
        ) && *to == router && asked == track),
        publisher.tracks.dom().contains(track.path@) ==> (source matches Ok(
            Source::Published(found),
        ) && *found == publisher.tracks[track.path@]),
        publisher.routed(router).router == Some(router),
        publisher.routed(router).tracks == publisher.tracks,
        publisher.routed(router).announced == publisher.announced,
{
}

/// A router stays until another one is set: no track and no announcement changes it.
pub proof fn law_router_stays<C, R>(
    publisher: PublisherView<C, R>,
    path: PathView,
    track: C,
    event: Status,
)
    ensures
        PublisherView::<C, R>::empty().router is None,
        publisher.published(path, track).router == publisher.router,
        publisher.unpublished(path).router == publisher.router,
        publisher.relayed(event).router == publisher.router,
{
}

/// A publisher starts with nothing announced and says that this is all. It refuses every request.
pub proof fn law_publisher_starts_live<C, R>(track: Track, source: Result<Source<C, R>, Error>)
    requires
        PublisherView::<C, R>::empty().serves(track, source),
    ensures
        PublisherView::<C, R>::empty().announced.live,
        !PublisherView::<C, R>::empty().announced.active.contains(track.path@),
        PublisherView::<C, R>::empty().accepts(track.path@),
        source == Err::<Source<C, R>, Error>(Error::NotFound),
{
}

/// A track can be published exactly where its path is neither announced nor held by another track.
/// The attempt announces the path in any case. The track is served from then on where it could be
/// published, and otherwise the tracks stay. No other path is touched.
pub proof fn law_publication_changes_its_path<C, R>(
    publisher: PublisherView<C, R>,
    path: PathView,
    track: C,
    other: PathView,
)
    ensures
        publisher.accepts(path) <==> !publisher.announced.active.contains(path)
            && !publisher.tracks.dom().contains(path),
        ({
            let published = publisher.published(path, track);
            &&& published.announced.active.contains(other) <==> other == path
                || publisher.announced.active.contains(other)
            &&& published.announced.live == publisher.announced.live
            &&& published.tracks.dom().contains(other) <==> publisher.tracks.dom().contains(other)
                || (other == path && !publisher.announced.active.contains(path))
            &&& publisher.tracks.dom().contains(other) ==> published.tracks[other]
                == publisher.tracks[other]
            &&& !publisher.announced.active.contains(path) && !publisher.tracks.dom().contains(path)
                ==> published.tracks[path] == track
        }),
{
}

/// To give a path up takes its track and its announcement away, whatever happened since it was
/// published. No other path is touched, and whether all was announced stays.
pub proof fn law_given_up_path_is_free<C, R>(
    publisher: PublisherView<C, R>,
    path: PathView,
    other: PathView,
)
    ensures
        ({
            let unpublished = publisher.unpublished(path);
            &&& unpublished.accepts(path)
            &&& unpublished.announced.active.contains(other) <==> other != path
                && publisher.announced.active.contains(other)
            &&& unpublished.announced.live == publisher.announced.live
            &&& unpublished.tracks.dom().contains(other) <==> other != path
                && publisher.tracks.dom().contains(other)
            &&& other != path && publisher.tracks.dom().contains(other)
                ==> unpublished.tracks[other] == publisher.tracks[other]
        }),
{
}

/// A relayed announcement is in force from then on, and for that path alone. It changes no track.
pub proof fn law_relayed_announcements_are_in_force<C, R>(
    publisher: PublisherView<C, R>,
    path: PathView,
    other: PathView,
    event: Status,
)
    ensures
        ({
            let active = publisher.relayed(Status::Active(path)).announced;
            let ended = publisher.relayed(Status::Ended(path)).announced;
            let live = publisher.relayed(Status::Live).announced;
            &&& active.active.contains(other) <==> other == path
                || publisher.announced.active.contains(other)
            &&& active.live == publisher.announced.live
            &&& ended.active.contains(other) <==> other != path
                && publisher.announced.active.contains(other)
            &&& ended.live == publisher.announced.live
            &&& live.active.contains(other) <==> publisher.announced.active.contains(other)
            &&& live.live
        }),
        publisher.relayed(event).tracks == publisher.tracks,
{
}

/// What is done for one path changes the answer to no request for another one.
pub proof fn law_requests_are_independent<C, R>(
    publisher: PublisherView<C, R>,
    path: PathView,
    published: C,
    event: Status,
    track: Track,
    before: Result<Source<C, R>, Error>,
    after: Result<Source<C, R>, Error>,
)
    requires
        publisher.serves(track, before),
        ({
            ||| path != track.path@ && publisher.published(path, published).serves(track, after)
            ||| path != track.path@ && publisher.unpublished(path).serves(track, after)
            ||| publisher.relayed(event).serves(track, after)
        }),
    ensures
        match (before, after) {
            (Ok(Source::Published(a)), Ok(Source::Published(b))) => *a == *b,
            (Ok(Source::Routed(a, asked)), Ok(Source::Routed(b, again))) => *a == *b && asked
                == again,
            (Err(a), Err(b)) => a == b,
            _ => false,
        },
{
}

/// A request for a track that is not published here asks the router for the path that it names:
/// a subscription with its priority and order, a fetch with its priority, and a request for the
/// state of the track with neither. A fetch keeps the number of its group.
pub proof fn law_requests_ask_for_their_track<C, R>(
    publisher: Publisher<C, R>,
    subscribe: Subscribe,
    subscribed: Result<Source<C, R>, Error>,
    request: InfoRequest,
    told: Result<Source<C, R>, Error>,
    fetch: Fetch,
    fetched: Result<(Source<C, R>, u64), Error>,
)
    requires
        call_ensures(Publisher::<C, R>::recv_subscribe, (&publisher, subscribe), subscribed),
        call_ensures(Publisher::<C, R>::recv_info, (&publisher, request), told),
        call_ensures(Publisher::<C, R>::recv_fetch, (&publisher, fetch), fetched),
    ensures
        subscribed matches Ok(Source::Routed(_, asked)) ==> {
            &&& asked.path == subscribe.path
            &&& asked.priority == subscribe.priority
            &&& asked.order == subscribe.group_order
        },
        subscribed matches Ok(Source::Published(found)) ==> *found
            == publisher@.tracks[subscribe.path@],
        subscribed is Err <==> !publisher@.tracks.dom().contains(subscribe.path@)
            && publisher@.router is None,
        told matches Ok(Source::Routed(_, asked)) ==> {
            &&& asked.path == request.path
            &&& asked.priority == 0
            &&& asked.order is Desc
        },
        told matches Ok(Source::Published(found)) ==> *found == publisher@.tracks[request.path@],
        told is Err <==> !publisher@.tracks.dom().contains(request.path@)
            && publisher@.router is None,
        fetched matches Ok((_, group)) ==> group == fetch.group,
        fetched matches Ok((Source::Routed(_, asked), _)) ==> {
            &&& asked.path == fetch.path
            &&& asked.priority == fetch.priority
            &&& asked.order is Desc
        },
        fetched matches Ok((Source::Published(found), _)) ==> *found
            == publisher@.tracks[fetch.path@],
        fetched is Err <==> !publisher@.tracks.dom().contains(fetch.path@)
            && publisher@.router is None,
{
}

/// A group goes out on a stream for groups, under the number of its subscription and its own, with
/// no frame open.
pub proof fn law_group_goes_out_under_its_numbers<C, R>(
    subscribe: u64,
    sequence: u64,
    serving: GroupStream,
)
    requires
        call_ensures(Publisher::<C, R>::serve_group, (subscribe, sequence), serving),
    ensures
        serving.stream is Group,
        serving.head.subscribe == subscribe,
        serving.head.sequence == sequence,
        serving.server@ is None,
{
}

/// A peer that asks for announcements is told of all that are in force under its prefix: at first
/// it knows of none.
pub proof fn law_peer_is_told_from_the_start<C, R>(
    publisher: Publisher<C, R>,
    interest: AnnouncePlease,
    follower: AnnouncedConsumer,
    suffix: PathView,
)
    requires
        call_ensures(Publisher::<C, R>::recv_announce, (&publisher, interest), follower),
    ensures
        follower@.prefix == interest.prefix@,
        !follower@.told.contains(suffix),
        !follower@.live,
{
}

} // verus!
