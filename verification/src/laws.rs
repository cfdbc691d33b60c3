use vstd::prelude::*;

use crate::announced::{AnnouncedView, ConsumerView};
use crate::error::Error;
use crate::message::{Group, Status};
use crate::path::PathView;
use crate::serving::{ServingEvent, ServingView};
use crate::subscriber::{AnnouncingView, ArrivingGroup, SubscriberView};

verus! {

/// Whether `remote` holds what `follower` was told: the paths under its prefix, and whether those
/// are all.
pub open spec fn mirrors(follower: ConsumerView, remote: AnnouncedView) -> bool {
    &&& remote.live == follower.live
    &&& forall|path: PathView| #[trigger]
        remote.active.contains(path) <==> crate::path::under(path, follower.prefix)
            && follower.told.contains(crate::path::suffix_of(path, follower.prefix))
}

/// A subscriber that has heard nothing holds what a follower that was told nothing was told.
pub proof fn law_discovery_starts_in_step(prefix: PathView)
    ensures
        mirrors(
            ConsumerView { prefix, told: Set::empty(), live: false },
            AnnouncedView::empty(),
        ),
{
}

/// A subscriber never refuses an announcement of a publisher, and holds what its follower at the
/// publisher was told, announcement by announcement.
pub proof fn law_announcements_are_accepted(
    publisher: AnnouncedView,
    follower: ConsumerView,
    status: Status,
    after: ConsumerView,
    remote: AnnouncedView,
)
    requires
        mirrors(follower, remote),
        follower.hears(publisher, Some(status), after),
    ensures
        ({
            let (r, next) = crate::subscriber::heard(remote, follower.prefix, status);
            &&& r is Ok
            &&& mirrors(after, next)
        }),
{
    let prefix = follower.prefix;
    let (r, next) = crate::subscriber::heard(remote, prefix, status);
    let named = match status {
        Status::Active(suffix) => suffix,
        Status::Ended(suffix) => suffix,
        Status::Live => Seq::empty(),
    };
    crate::path::law_suffix_names_path(prefix + named, prefix, named);
    assert(remote.active.contains(prefix + named) <==> follower.told.contains(named));
    assert forall|path: PathView| #[trigger]
        next.active.contains(path) <==> crate::path::under(path, after.prefix)
            && after.told.contains(crate::path::suffix_of(path, after.prefix)) by {
        crate::path::law_suffix_names_path(path, prefix, named);
        assert(remote.active.contains(path) <==> crate::path::under(path, prefix)
            && follower.told.contains(crate::path::suffix_of(path, prefix)));
    }
}

proof fn lemma_in_step(publisher: AnnouncedView, follower: ConsumerView, remote: AnnouncedView)
    requires
        mirrors(follower, remote),
        follower.told == publisher.suffixes(follower.prefix),
    ensures
        forall|path: PathView| #[trigger]
            remote.active.contains(path) <==> publisher.active.contains(path)
                && crate::path::under(path, follower.prefix),
{
    let prefix = follower.prefix;
    assert forall|path: PathView| #[trigger]
        remote.active.contains(path) <==> publisher.active.contains(path) && crate::path::under(
            path,
            prefix,
        ) by {
        let suffix = crate::path::suffix_of(path, prefix);
        crate::path::law_suffix_names_path(path, prefix, suffix);
        assert(follower.told.contains(suffix) <==> publisher.active.contains(prefix + suffix));
    }
}

/// When a subscriber hears that it was told of all paths, it holds exactly the announced paths of
/// the publisher under the prefix.
pub proof fn law_live_means_all(
    publisher: AnnouncedView,
    follower: ConsumerView,
    after: ConsumerView,
    remote: AnnouncedView,
)
    requires
        mirrors(follower, remote),
        follower.hears(publisher, Some(Status::Live), after),
    ensures
        forall|path: PathView| #[trigger]
            crate::subscriber::heard(remote, follower.prefix, Status::Live).1.active.contains(path)
                <==> publisher.active.contains(path) && crate::path::under(path, follower.prefix),
{
    lemma_in_step(publisher, follower, remote);
    assert(crate::subscriber::heard(remote, follower.prefix, Status::Live).1.active
        == remote.active);
}

/// Once there is nothing left to tell, a subscriber holds exactly the announced paths of the
/// publisher under the prefix, and knows that those are all where the publisher does. Whoever
/// asked the subscriber has then been told of exactly those, by what follows the prefix.
pub proof fn law_discovery_finds_all(
    publisher: AnnouncedView,
    follower: ConsumerView,
    remote: AnnouncedView,
    seeker: ConsumerView,
)
    requires
        mirrors(follower, remote),
        follower.hears(publisher, None, follower),
        seeker.prefix == follower.prefix,
        seeker.hears(remote, None, seeker),
    ensures
        forall|path: PathView| #[trigger]
            remote.active.contains(path) <==> publisher.active.contains(path)
                && crate::path::under(path, follower.prefix),
        seeker.told == publisher.suffixes(seeker.prefix),
        publisher.live ==> remote.live && seeker.live,
{
    let prefix = follower.prefix;
    lemma_in_step(publisher, follower, remote);
    assert forall|suffix: PathView|
        seeker.told.contains(suffix) == publisher.suffixes(prefix).contains(suffix) by {
        crate::path::law_suffix_names_path(prefix + suffix, prefix, suffix);
        assert(remote.active.contains(prefix + suffix) <==> publisher.active.contains(
            prefix + suffix,
        ));
    }
    assert(seeker.told =~= publisher.suffixes(prefix));
}

/// How many things a follower is still to be told.
pub open spec fn untold(follower: ConsumerView, announced: AnnouncedView) -> nat {
    let current = announced.suffixes(follower.prefix);
    follower.told.difference(current).len() + current.difference(follower.told).len() + if announced.live
        && !follower.live {
        1nat
    } else {
        0nat
    }
}

proof fn lemma_suffixes_finite(announced: AnnouncedView, prefix: PathView)
    requires
        announced.active.finite(),
    ensures
        announced.suffixes(prefix).finite(),
{
    let strip = |path: PathView| crate::path::suffix_of(path, prefix);
    let all = announced.active.map(strip);
    announced.active.lemma_map_finite(strip);
    assert forall|suffix: PathView| announced.suffixes(prefix).contains(
        suffix,
    ) implies all.contains(suffix) by {
        crate::path::law_suffix_names_path(prefix + suffix, prefix, suffix);
        assert(strip(prefix + suffix) == suffix);
    }
    vstd::set_lib::lemma_len_subset(announced.suffixes(prefix), all);
}

/// While nothing new is announced, each thing that a follower is told leaves one thing less to
/// tell, and it is told something as long as there is anything to tell: it catches up.
pub proof fn law_follower_catches_up(
    announced: AnnouncedView,
    follower: ConsumerView,
    event: Option<Status>,
    after: ConsumerView,
)
    requires
        announced.active.finite(),
        follower.told.finite(),
        follower.hears(announced, event, after),
    ensures
        event is Some ==> untold(after, announced) + 1 == untold(follower, announced),
        event is Some <==> untold(follower, announced) > 0,
        after.told.finite(),
{
    let current = announced.suffixes(follower.prefix);
    lemma_suffixes_finite(announced, follower.prefix);
    let gone = follower.told.difference(current);
    let new = current.difference(follower.told);
    match event {
        Some(Status::Ended(suffix)) => {
            assert(after.told.difference(current) =~= gone.remove(suffix));
            assert(current.difference(after.told) =~= new);
            assert(gone.contains(suffix));
        },
        Some(Status::Active(suffix)) => {
            assert(after.told.difference(current) =~= gone);
            assert(current.difference(after.told) =~= new.remove(suffix));
            assert(new.contains(suffix));
        },
        Some(Status::Live) => {
            assert(gone =~= Set::empty());
            assert(new =~= Set::empty());
        },
        None => {
            assert(gone =~= Set::empty());
            assert(new =~= Set::empty());
        },
    }
}

/// Every group that a publisher serves for a subscription comes with the number of the request,
/// and so is created in the track that the subscription fills, under its own number.
pub proof fn law_groups_answer_their_request<P>(
    subscriber: SubscriberView<P>,
    id: u64,
    producer: P,
    events: Seq<ServingEvent>,
    sequence: u64,
    r: Result<ArrivingGroup<P>, Error>,
)
    requires
        crate::serving::awaits_all(ServingView::start(id), events),
        subscriber.running(id, producer).takes(
            Group {
                subscribe: crate::serving::after_all(ServingView::start(id), events).subscribe,
                sequence,
            },
            r,
        ),
    ensures
        r matches Ok(arriving) && *arriving.track == producer && arriving.sequence == sequence,
{
    crate::serving::law_every_group_is_served_once(id, events);
}

/// After all the announcements, of which each was taken in whatever became of the ones before.
pub open spec fn followed(announcing: AnnouncingView, statuses: Seq<Status>) -> AnnouncingView
    decreases statuses.len(),
{
    if statuses.len() == 0 {
        announcing
    } else {
        followed(announcing, statuses.drop_last()).received(Some(statuses.last())).1
    }
}

/// A subscriber follows a publisher through any number of announcements, whatever the publisher
/// announces and takes back in between: as long as it is sent what its follower at the publisher
/// is told, it is still following, under the same prefix, and holds what the follower was told.
pub proof fn law_publisher_is_followed_on(
    publishers: Seq<AnnouncedView>,
    followers: Seq<ConsumerView>,
    statuses: Seq<Status>,
    announcing: AnnouncingView,
)
    requires
        publishers.len() == statuses.len(),
        followers.len() == statuses.len() + 1,
        forall|i: int|
            0 <= i < statuses.len() ==> (#[trigger] followers[i]).hears(
                publishers[i],
                Some(statuses[i]),
                followers[i + 1],
            ),
        announcing.following,
        announcing.prefix == followers[0].prefix,
        mirrors(followers[0], announcing.announced),
    ensures
        followed(announcing, statuses).following,
        followed(announcing, statuses).prefix == announcing.prefix,
        followers.last().prefix == announcing.prefix,
        mirrors(followers.last(), followed(announcing, statuses).announced),
    decreases statuses.len(),
{
    if statuses.len() > 0 {
        let n = statuses.len() - 1;
        let before = followers.drop_last();
        assert forall|i: int| 0 <= i < n implies (#[trigger] before[i]).hears(
            publishers.drop_last()[i],
            Some(statuses.drop_last()[i]),
            before[i + 1],
        ) by {
            assert(followers[i].hears(publishers[i], Some(statuses[i]), followers[i + 1]));
        }
        law_publisher_is_followed_on(
            publishers.drop_last(),
            before,
            statuses.drop_last(),
            announcing,
        );
        assert(followers[n].hears(publishers[n], Some(statuses[n]), followers[n + 1]));
        law_announcements_are_accepted(
            publishers[n],
            followers[n],
            statuses[n],
            followers[n + 1],
            followed(announcing, statuses.drop_last()).announced,
        );
    }
}

} // verus!
