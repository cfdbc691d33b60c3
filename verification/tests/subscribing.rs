use moq_transfork::announced::{Announced, AnnouncedProducer};
use moq_transfork::error::Error;
use moq_transfork::message::{
    Announce, AnnouncePlease, ControlType, Group, GroupDrop, GroupOrder, Info, Track,
};
use moq_transfork::path::Path;
use moq_transfork::path_map::PathMap;
use moq_transfork::publisher::{Publisher, TrackState};
use moq_transfork::serving::SubscribeServer;
use moq_transfork::session::Session;
use moq_transfork::subscriber::{Subscribed, Subscriber};

fn path(parts: &[&str]) -> Path {
    let mut path = Path::new();
    for part in parts {
        path = path.push(part.to_string());
    }
    path
}

fn started(subscriber: &mut Subscriber<u64>, parts: &[&str], track: u64) -> Option<u64> {
    match subscriber.subscribe(path(parts), track) {
        Subscribed::Started { id, stream } => {
            assert_eq!(stream, ControlType::Subscribe);
            Some(id)
        }
        Subscribed::Existing(_) => None,
    }
}

fn existing(subscriber: &mut Subscriber<u64>, parts: &[&str], track: u64) -> Option<u64> {
    match subscriber.subscribe(path(parts), track) {
        Subscribed::Started { .. } => None,
        Subscribed::Existing(track) => Some(*track),
    }
}

#[test]
fn subscriptions_are_numbered() {
    let mut subscriber: Subscriber<u64> = Subscriber::new();
    assert_eq!(started(&mut subscriber, &["a"], 10), Some(0));
    assert_eq!(started(&mut subscriber, &["b"], 11), Some(1));
    assert_eq!(started(&mut subscriber, &["c"], 12), Some(2));
}

#[test]
fn subscription_is_shared() {
    let mut subscriber: Subscriber<u64> = Subscriber::new();
    assert_eq!(started(&mut subscriber, &["a"], 10), Some(0));
    assert_eq!(existing(&mut subscriber, &["a"], 11), Some(10));
    assert_eq!(started(&mut subscriber, &["b"], 12), Some(1));
}

#[test]
fn unsubscribe_undoes_subscribe() {
    let mut subscriber: Subscriber<u64> = Subscriber::new();
    assert_eq!(started(&mut subscriber, &["a"], 10), Some(0));
    subscriber.unsubscribe(0, &path(&["a"]));
    assert_eq!(started(&mut subscriber, &["a"], 11), Some(1));
    assert_eq!(existing(&mut subscriber, &["a"], 12), Some(11));
}

#[test]
fn unsubscribe_leaves_other_tracks() {
    let mut subscriber: Subscriber<u64> = Subscriber::new();
    assert_eq!(started(&mut subscriber, &["a"], 10), Some(0));
    assert_eq!(started(&mut subscriber, &["b"], 11), Some(1));
    subscriber.unsubscribe(0, &path(&["a"]));
    assert_eq!(existing(&mut subscriber, &["b"], 12), Some(11));
}

#[test]
fn groups_answer_their_request() {
    let mut subscriber: Subscriber<u64> = Subscriber::new();
    assert_eq!(started(&mut subscriber, &["a"], 10), Some(0));
    assert_eq!(started(&mut subscriber, &["b"], 11), Some(1));
    let (request, _) = subscriber.run_subscribe(1, 21, Track::default());
    let state = TrackState {
        latest_group: 0,
        order: GroupOrder::Desc,
        priority: 0,
    };
    let (_, mut serving) = SubscribeServer::new(request.id, state);
    for sequence in [4, 5] {
        let head = serving.group(Some(sequence)).unwrap();
        assert_eq!(head.sequence, sequence);
        let arriving = subscriber.recv_group(head).unwrap();
        assert_eq!(*arriving.track, 21);
        assert_eq!(arriving.sequence, sequence);
    }
}

#[test]
fn request_asks_for_all_groups() {
    let mut subscriber: Subscriber<u64> = Subscriber::new();
    let track = Track {
        path: path(&["a"]),
        priority: -2,
        order: GroupOrder::Asc,
    };
    let (request, subscription) = subscriber.run_subscribe(7, 10, track);
    assert_eq!(request.id, 7);
    assert_eq!(request.path, path(&["a"]));
    assert_eq!(request.priority, -2);
    assert_eq!(request.group_order, GroupOrder::Asc);
    assert_eq!(request.group_min, None);
    assert_eq!(request.group_max, None);
    assert!(!subscription.is_active());
}

#[test]
fn groups_go_to_their_subscription() {
    let mut subscriber: Subscriber<u64> = Subscriber::new();
    let head = |subscribe| Group {
        subscribe,
        sequence: 3,
    };
    assert!(matches!(subscriber.recv_group(head(7)), Err(Error::Cancel)));
    subscriber.run_subscribe(7, 10, Track::default());
    subscriber.run_subscribe(8, 11, Track::default());
    assert_eq!(*subscriber.recv_group(head(7)).unwrap().track, 10);
    assert_eq!(*subscriber.recv_group(head(8)).unwrap().track, 11);
    assert_eq!(subscriber.recv_group(head(8)).unwrap().receiver.wants(), 0);
    assert_eq!(subscriber.recv_group(head(8)).unwrap().sequence, 3);
    subscriber.unsubscribe(7, &path(&["a"]));
    assert!(matches!(subscriber.recv_group(head(7)), Err(Error::Cancel)));
    assert_eq!(*subscriber.recv_group(head(8)).unwrap().track, 11);
}

#[test]
fn subscription_lasts_until_a_side_is_done() {
    let info = Info {
        track_priority: 0,
        group_latest: 0,
        group_order: GroupOrder::Desc,
    };
    let lost = GroupDrop {
        sequence: 1,
        count: 0,
        code: 3,
    };
    let mut subscriber: Subscriber<u64> = Subscriber::new();
    let (_, mut subscription) = subscriber.run_subscribe(0, 1, Track::default());
    subscription.info(info);
    assert!(subscription.is_active());
    subscription.dropped(Some(lost));
    assert!(subscription.is_active());
    subscription.dropped(None);
    assert!(!subscription.is_active());

    let (_, mut subscription) = subscriber.run_subscribe(1, 1, Track::default());
    subscription.info(info);
    subscription.unused();
    assert!(!subscription.is_active());
}

#[test]
fn path_is_announced_once() {
    let mut announced = AnnouncedProducer::new();
    let active = || Announce::Active {
        suffix: path(&["b"]),
    };
    let ended = || Announce::Ended {
        suffix: path(&["b"]),
    };
    let prefix = path(&["a"]);
    let mut recv = |message| Subscriber::<u64>::recv_announce(message, &prefix, &mut announced);
    assert_eq!(recv(ended()), Err(Error::NotFound));
    assert_eq!(recv(active()), Ok(()));
    assert_eq!(recv(active()), Err(Error::Duplicate));
    assert_eq!(recv(ended()), Ok(()));
    assert_eq!(recv(ended()), Err(Error::NotFound));
    assert_eq!(recv(Announce::Live), Ok(()));
    assert_eq!(recv(Announce::Live), Ok(()));
    assert_eq!(recv(active()), Ok(()));
    assert!(!announced.announce(path(&["a", "b"])));
    assert!(!announced.live());
    assert!(announced.unannounce(&path(&["a", "b"])));
}

#[test]
fn discovery_follows_the_announcements() {
    let subscriber: Subscriber<u64> = Subscriber::new();
    let mut discovery = subscriber.announced(path(&["a"]));
    assert_eq!(discovery.stream, ControlType::Announce);
    assert_eq!(
        discovery.request,
        AnnouncePlease {
            prefix: path(&["a"])
        }
    );
    let announcing = &mut discovery.announcing;
    assert_eq!(announcing.next(&mut discovery.follower), None);
    assert_eq!(
        announcing.received(Some(Announce::Active {
            suffix: path(&["x"])
        })),
        Ok(())
    );
    assert_eq!(announcing.received(Some(Announce::Live)), Ok(()));
    assert_eq!(
        announcing.next(&mut discovery.follower),
        Some(Announced::Active(path(&["x"])))
    );
    assert_eq!(announcing.next(&mut discovery.follower), Some(Announced::Live));
    assert_eq!(announcing.next(&mut discovery.follower), None);
    assert!(announcing.is_following());
    assert_eq!(announcing.received(None), Ok(()));
    assert!(!announcing.is_following());
}

#[test]
fn discovery_ends_with_a_refused_announcement() {
    let subscriber: Subscriber<u64> = Subscriber::new();
    let active = || Announce::Active {
        suffix: path(&["x"]),
    };
    let mut announcing = subscriber.announced(path(&["a"])).announcing;
    assert_eq!(announcing.received(Some(active())), Ok(()));
    assert_eq!(announcing.received(Some(active())), Err(Error::Duplicate));
    assert!(!announcing.is_following());

    let mut announcing = subscriber.announced(path(&["a"])).announcing;
    assert_eq!(
        announcing.received(Some(Announce::Ended {
            suffix: path(&["y"])
        })),
        Err(Error::NotFound)
    );
    assert!(!announcing.is_following());
}

#[test]
fn discovery_ends_when_nobody_follows() {
    let subscriber: Subscriber<u64> = Subscriber::new();
    let mut discovery = subscriber.announced(path(&["a"]));
    let announcing = &mut discovery.announcing;
    assert_eq!(
        announcing.received(Some(Announce::Active {
            suffix: path(&["x"])
        })),
        Ok(())
    );
    assert!(announcing.is_following());
    announcing.unused();
    assert!(!announcing.is_following());
    assert_eq!(
        announcing.next(&mut discovery.follower),
        Some(Announced::Active(path(&["x"])))
    );
    assert_eq!(announcing.next(&mut discovery.follower), None);
}

#[test]
fn discovery_finds_what_is_published() {
    let mut publisher: Publisher<u64, u64> = Publisher::new();
    let session: Session<u64, u64, u64> = Session::new(1);
    for name in [&["a", "x"], &["b", "y"], &["a", "z"]] {
        assert_eq!(publisher.publish(path(name), 0), Ok(()));
    }
    let mut discovery = session.announced(path(&["a"]));
    let mut there = publisher.recv_announce(discovery.request);

    let mut found = Vec::new();
    for round in 0..3 {
        if round == 1 {
            publisher.unpublish(&path(&["a", "x"]));
            assert_eq!(publisher.publish(path(&["a", "w"]), 0), Ok(()));
        }
        while let Some(message) = publisher.next_announce(&mut there) {
            assert_eq!(discovery.announcing.received(Some(message)), Ok(()));
        }
        while let Some(event) = discovery.announcing.next(&mut discovery.follower) {
            found.push(event);
        }
    }
    assert_eq!(
        found,
        vec![
            Announced::Active(path(&["x"])),
            Announced::Active(path(&["z"])),
            Announced::Live,
            Announced::Ended(path(&["x"])),
            Announced::Active(path(&["w"])),
        ]
    );
}

#[test]
fn session_subscribes() {
    let mut session: Session<u64, u64, u64> = Session::new(5);
    assert!(matches!(
        session.subscribe(path(&["a"]), 1),
        Subscribed::Started {
            id: 0,
            stream: ControlType::Subscribe
        }
    ));
    assert!(matches!(
        session.subscribe(path(&["a"]), 2),
        Subscribed::Existing(1)
    ));
}

#[test]
fn map_keeps_its_paths_in_order() {
    let mut map: PathMap<u64> = PathMap::new();
    assert_eq!(map.len(), 0);
    for (i, name) in ["c", "a", "b"].iter().enumerate() {
        assert!(map.insert_vacant(path(&[name]), i as u64));
    }
    assert!(!map.insert_vacant(path(&["a"]), 9));
    assert_eq!(map.len(), 3);
    assert_eq!(*map.key(1), path(&["a"]));
    assert_eq!(map.remove(&path(&["c"])), Some(0));
    assert_eq!(map.remove(&path(&["c"])), None);
    assert_eq!(map.len(), 2);
    assert_eq!(*map.key(0), path(&["a"]));
    assert_eq!(*map.key(1), path(&["b"]));
    assert_eq!(map.get(&path(&["a"])), Some(&1));
}

#[test]
fn paths_are_compared_part_by_part() {
    assert_eq!(path(&["a", "b"]), path(&["a"]).append(&path(&["b"])));
    assert_ne!(path(&["a", "b"]), path(&["ab"]));
    assert_ne!(path(&["a", "b"]), path(&["a"]));
    assert!(path(&["a", "b"]).has_prefix(&path(&["a"])));
    assert!(!path(&["a"]).has_prefix(&path(&["a", "b"])));
    assert!(!path(&["ab"]).has_prefix(&path(&["a"])));
    assert_eq!(
        path(&["a", "b", "c"]).strip_prefix(&path(&["a"])),
        Some(path(&["b", "c"]))
    );
    assert_eq!(path(&["a"]).strip_prefix(&path(&["b"])), None);
    assert_eq!(path(&["a", "b"]).to_vec(), vec!["a".to_string(), "b".to_string()]);
}
