use moq_transfork::announced::Announced;
use moq_transfork::error::Error;
use moq_transfork::message::{
    Announce, AnnouncePlease, DataType, Fetch, Group, GroupDrop, GroupOrder, InfoRequest, Subscribe,
    SubscribeUpdate, Track,
};
use moq_transfork::path::Path;
use moq_transfork::publisher::{Publisher, Source, TrackState};
use moq_transfork::serving::SubscribeServer;
use moq_transfork::session::Session;

fn path(parts: &[&str]) -> Path {
    let mut path = Path::new();
    for part in parts {
        path = path.push(part.to_string());
    }
    path
}

fn track(parts: &[&str]) -> Track {
    Track {
        path: path(parts),
        priority: 3,
        order: GroupOrder::Asc,
    }
}

fn served(publisher: &Publisher<u64, u64>, parts: &[&str]) -> Option<u64> {
    match publisher.get_track(track(parts)) {
        Ok(Source::Published(handle)) => Some(*handle),
        _ => None,
    }
}

fn announcements(publisher: &Publisher<u64, u64>, prefix: &[&str]) -> Vec<Announce> {
    let mut follower = publisher.recv_announce(AnnouncePlease {
        prefix: path(prefix),
    });
    let mut all = Vec::new();
    while let Some(message) = publisher.next_announce(&mut follower) {
        all.push(message);
    }
    all
}

#[test]
fn published_track_is_served() {
    let mut publisher: Publisher<u64, u64> = Publisher::new();
    assert_eq!(publisher.publish(path(&["a", "b"]), 1), Ok(()));
    assert_eq!(served(&publisher, &["a", "b"]), Some(1));
    publisher.route(9);
    assert_eq!(served(&publisher, &["a", "b"]), Some(1));
    assert_eq!(served(&publisher, &["a"]), None);
}

#[test]
fn path_is_published_once() {
    let mut publisher: Publisher<u64, u64> = Publisher::new();
    assert_eq!(publisher.publish(path(&["a"]), 1), Ok(()));
    assert_eq!(publisher.publish(path(&["a"]), 2), Err(Error::Duplicate));
    assert_eq!(served(&publisher, &["a"]), Some(1));
    publisher.unpublish(&path(&["a"]));
    assert_eq!(served(&publisher, &["a"]), None);
    assert_eq!(publisher.publish(path(&["a"]), 3), Ok(()));
    assert_eq!(served(&publisher, &["a"]), Some(3));
}

#[test]
fn unpublish_leaves_other_tracks() {
    let mut publisher: Publisher<u64, u64> = Publisher::new();
    for (i, name) in ["a", "b", "c"].iter().enumerate() {
        assert_eq!(publisher.publish(path(&[name]), i as u64), Ok(()));
    }
    publisher.unpublish(&path(&["b"]));
    publisher.unpublish(&path(&["unknown"]));
    assert_eq!(served(&publisher, &["a"]), Some(0));
    assert_eq!(served(&publisher, &["b"]), None);
    assert_eq!(served(&publisher, &["c"]), Some(2));
}

#[test]
fn announced_path_cannot_be_published() {
    let mut publisher: Publisher<u64, u64> = Publisher::new();
    publisher.announce(Announced::Active(path(&["a"])));
    assert_eq!(publisher.publish(path(&["a"]), 1), Err(Error::Duplicate));
    assert_eq!(served(&publisher, &["a"]), None);
}

#[test]
fn refused_path_may_get_announced() {
    let mut publisher: Publisher<u64, u64> = Publisher::new();
    assert_eq!(publisher.publish(path(&["a"]), 1), Ok(()));
    publisher.announce(Announced::Ended(path(&["a"])));
    assert_eq!(announcements(&publisher, &[]), vec![Announce::Live]);
    // The track still holds the path, yet the attempt announces it.
    assert_eq!(publisher.publish(path(&["a"]), 2), Err(Error::Duplicate));
    assert_eq!(served(&publisher, &["a"]), Some(1));
    assert_eq!(
        announcements(&publisher, &[]),
        vec![Announce::Active { suffix: path(&["a"]) }, Announce::Live]
    );
}

#[test]
fn unknown_track_needs_a_router() {
    let mut publisher: Publisher<u64, u64> = Publisher::new();
    assert!(matches!(
        publisher.get_track(track(&["a"])),
        Err(Error::NotFound)
    ));
    publisher.route(7);
    publisher.route(8);
    match publisher.get_track(track(&["a"])) {
        Ok(Source::Routed(router, asked)) => {
            assert_eq!(*router, 8);
            assert_eq!(asked, track(&["a"]));
        }
        _ => panic!("not routed"),
    };
}

#[test]
fn requests_name_their_track() {
    let mut publisher: Publisher<u64, u64> = Publisher::new();
    publisher.route(1);
    let subscribe = Subscribe {
        id: 4,
        path: path(&["a"]),
        priority: -5,
        group_order: GroupOrder::Asc,
        group_min: Some(1),
        group_max: None,
    };
    match publisher.recv_subscribe(subscribe) {
        Ok(Source::Routed(_, asked)) => {
            assert_eq!(asked.path, path(&["a"]));
            assert_eq!(asked.priority, -5);
            assert_eq!(asked.order, GroupOrder::Asc);
        }
        _ => panic!("not routed"),
    }
    match publisher.recv_info(InfoRequest { path: path(&["b"]) }) {
        Ok(Source::Routed(_, asked)) => {
            assert_eq!(
                asked,
                Track {
                    path: path(&["b"]),
                    ..Default::default()
                }
            );
        }
        _ => panic!("not routed"),
    }
    let fetch = Fetch {
        path: path(&["c"]),
        priority: 2,
        group: 10,
        offset: 100,
    };
    match publisher.recv_fetch(fetch) {
        Ok((Source::Routed(_, asked), group)) => {
            assert_eq!(group, 10);
            assert_eq!(
                asked,
                Track {
                    path: path(&["c"]),
                    priority: 2,
                    ..Default::default()
                }
            );
        }
        _ => panic!("not routed"),
    };
}

#[test]
fn fetch_names_its_group() {
    let mut publisher: Publisher<u64, u64> = Publisher::new();
    assert_eq!(publisher.publish(path(&["a"]), 6), Ok(()));
    let fetch = Fetch {
        path: path(&["a"]),
        priority: 0,
        group: 21,
        offset: 5,
    };
    assert!(matches!(
        publisher.recv_fetch(fetch),
        Ok((Source::Published(6), 21))
    ));
}

#[test]
fn requests_for_unknown_tracks_fail() {
    let publisher: Publisher<u64, u64> = Publisher::new();
    assert!(matches!(
        publisher.recv_info(InfoRequest { path: path(&["b"]) }),
        Err(Error::NotFound)
    ));
    assert!(matches!(
        publisher.recv_fetch(Fetch {
            path: path(&["b"]),
            priority: 0,
            group: 0,
            offset: 0
        }),
        Err(Error::NotFound)
    ));
}

#[test]
fn track_tells_its_state() {
    let info = TrackState {
        latest_group: 12,
        order: GroupOrder::Asc,
        priority: -3,
    }
    .info();
    assert_eq!(info.group_latest, 12);
    assert_eq!(info.group_order, GroupOrder::Asc);
    assert_eq!(info.track_priority, -3);
}

#[test]
fn announcements_start_with_those_in_force() {
    let mut publisher: Publisher<u64, u64> = Publisher::new();
    for name in [&["a", "x"], &["b", "y"], &["a", "z"]] {
        assert_eq!(publisher.publish(path(name), 0), Ok(()));
    }
    assert_eq!(
        announcements(&publisher, &["a"]),
        vec![
            Announce::Active { suffix: path(&["x"]) },
            Announce::Active { suffix: path(&["z"]) },
            Announce::Live,
        ]
    );
    assert_eq!(announcements(&publisher, &["c"]), vec![Announce::Live]);
    assert_eq!(announcements(&publisher, &["a", "x", "1"]), vec![Announce::Live]);
    assert_eq!(
        announcements(&publisher, &["a", "x"]),
        vec![Announce::Active { suffix: path(&[]) }, Announce::Live]
    );
}

#[test]
fn announcements_go_on() {
    let mut publisher: Publisher<u64, u64> = Publisher::new();
    assert_eq!(publisher.publish(path(&["a", "x"]), 0), Ok(()));
    let mut follower = publisher.recv_announce(AnnouncePlease {
        prefix: path(&["a"]),
    });
    assert_eq!(
        publisher.next_announce(&mut follower),
        Some(Announce::Active { suffix: path(&["x"]) })
    );
    assert_eq!(publisher.next_announce(&mut follower), Some(Announce::Live));
    assert_eq!(publisher.next_announce(&mut follower), None);

    publisher.unpublish(&path(&["a", "x"]));
    publisher.announce(Announced::Active(path(&["a", "y"])));
    publisher.announce(Announced::Active(path(&["b"])));
    publisher.announce(Announced::Live);
    assert_eq!(
        publisher.next_announce(&mut follower),
        Some(Announce::Ended { suffix: path(&["x"]) })
    );
    assert_eq!(
        publisher.next_announce(&mut follower),
        Some(Announce::Active { suffix: path(&["y"]) })
    );
    assert_eq!(publisher.next_announce(&mut follower), None);

    // What comes and goes before it is told is not told.
    publisher.announce(Announced::Active(path(&["a", "z"])));
    publisher.announce(Announced::Ended(path(&["a", "z"])));
    assert_eq!(publisher.next_announce(&mut follower), None);
}

#[test]
fn group_gets_a_stream_and_a_head() {
    let serving = Publisher::<u64, u64>::serve_group(6, 42);
    assert_eq!(serving.stream, DataType::Group);
    assert_eq!(
        serving.head,
        Group {
            subscribe: 6,
            sequence: 42
        }
    );
}

#[test]
fn subscription_is_served_to_its_end() {
    let state = TrackState {
        latest_group: 2,
        order: GroupOrder::Desc,
        priority: 1,
    };
    let (info, mut serving) = SubscribeServer::new(6, state);
    assert_eq!(info, state.info());

    assert_eq!(
        serving.group(Some(1)),
        Some(Group {
            subscribe: 6,
            sequence: 1
        })
    );
    assert_eq!(
        serving.group(Some(2)),
        Some(Group {
            subscribe: 6,
            sequence: 2
        })
    );
    assert_eq!(serving.group(None), None);
    let polls = serving.polls();
    assert!(!polls.groups && polls.updates && polls.tasks);

    let update = SubscribeUpdate {
        priority: 0,
        group_order: GroupOrder::Asc,
        group_min: None,
        group_max: None,
    };
    serving.update(Some(update));
    let polls = serving.polls();
    assert!(polls.groups && polls.updates && polls.tasks);

    assert_eq!(serving.served(2, None), None);
    assert_eq!(
        serving.served(1, Some(14)),
        Some(GroupDrop {
            sequence: 1,
            count: 0,
            code: 14
        })
    );
    serving.update(None);
    let polls = serving.polls();
    assert!(polls.groups && !polls.updates && !polls.tasks);

    assert_eq!(serving.group(None), None);
    let polls = serving.polls();
    assert!(!polls.groups && !polls.updates && !polls.tasks);
}

#[test]
fn done_subscriber_still_gets_its_groups() {
    let state = TrackState {
        latest_group: 0,
        order: GroupOrder::Desc,
        priority: 0,
    };
    let (_, mut serving) = SubscribeServer::new(1, state);
    serving.update(None);
    assert!(serving.group(Some(5)).is_some());
    assert_eq!(serving.group(None), None);
    assert!(serving.polls().tasks);
    assert_eq!(serving.served(5, None), None);
    // Something happened: the track is asked again.
    assert!(serving.polls().groups);
    assert_eq!(serving.group(None), None);
    let polls = serving.polls();
    assert!(!polls.groups && !polls.updates && !polls.tasks);
}

#[test]
fn session_publishes() {
    let mut session: Session<u64, u64, u64> = Session::new(5);
    assert_eq!(session.publish(path(&["a"]), 1), Ok(()));
    assert_eq!(session.publish(path(&["a"]), 2), Err(Error::Duplicate));
    session.route(3);
    session.announce(Announced::Active(path(&["b"])));
    assert_eq!(served(&session.publisher, &["a"]), Some(1));
    assert_eq!(announcements(&session.publisher, &[]).len(), 3);
    assert_eq!(session.tracing_id, 5);
}
