use moq_transfork::error::Error;
use moq_transfork::message::{
    ClientSetup, ControlType, Extensions, GroupOrder, Info, ServerSetup, Version,
};
use moq_transfork::session::{Request, Session, VARINT_MAX};

type Plain = Session<u64, u64, u64>;

#[test]
fn client_offers_its_version() {
    let client = Plain::connect_setup(Version(0xff0bad03), 77);
    assert_eq!(client.versions, vec![Version(0xff0bad03)]);
    assert!(client.extensions.entries.is_empty());
    assert_eq!(client.tracing_id, 77);
}

#[test]
fn client_draws_its_number() {
    let mut numbers = Vec::new();
    for _ in 0..8 {
        let (kind, client) = Plain::connect(Version(3));
        assert_eq!(kind, ControlType::Session);
        assert_eq!(client.versions, vec![Version(3)]);
        assert!(client.tracing_id <= VARINT_MAX);
        numbers.push(client.tracing_id);
    }
    assert!(numbers.iter().any(|n| *n != VARINT_MAX));
    assert!(numbers.iter().any(|n| *n != numbers[0]));
}

#[test]
fn varint_max_has_62_bits() {
    assert_eq!(VARINT_MAX, (1u64 << 62) - 1);
}

#[test]
fn same_version_shares_the_number() {
    let client = Plain::connect_setup(Version(3), 1234);
    let keep = ClientSetup {
        versions: vec![Version(3)],
        extensions: Extensions::default(),
        tracing_id: 1234,
    };
    assert_eq!(client, keep);
    let (server, tracing_id) = Plain::accept_setup(client, Version(3)).unwrap();
    assert_eq!(server.version, Version(3));
    assert!(server.extensions.entries.is_empty());
    assert_eq!(tracing_id, 1234);

    let here = Plain::connected(&keep, server);
    let there = Plain::new(tracing_id);
    assert_eq!(here.tracing_id, there.tracing_id);
}

#[test]
fn other_version_is_refused() {
    let client = Plain::connect_setup(Version(2), 5);
    assert_eq!(
        Plain::accept_setup(client, Version(3)),
        Err(Error::Version(vec![Version(2)], vec![Version(3)]))
    );
}

#[test]
fn version_is_found_among_several() {
    let client = ClientSetup {
        versions: vec![Version(1), Version(2), Version(3)],
        extensions: Extensions {
            entries: vec![(7, vec![1])],
        },
        tracing_id: 9,
    };
    let (server, tracing_id) = Plain::accept_setup(client, Version(3)).unwrap();
    assert_eq!(server.version, Version(3));
    assert!(server.extensions.entries.is_empty());
    assert_eq!(tracing_id, 9);
}

#[test]
fn no_version_is_refused() {
    let client = ClientSetup {
        versions: vec![],
        extensions: Extensions::default(),
        tracing_id: 9,
    };
    assert_eq!(
        Plain::accept_setup(client, Version(3)),
        Err(Error::Version(vec![], vec![Version(3)]))
    );
}

#[test]
fn client_takes_any_answer() {
    let client = Plain::connect_setup(Version(3), 11);
    let server = ServerSetup {
        version: Version(99),
        extensions: Extensions::default(),
    };
    assert_eq!(Plain::connected(&client, server).tracing_id, 11);
}

#[test]
fn first_stream_is_for_the_handshake() {
    assert_eq!(Plain::accept(ControlType::Session), Ok(()));
    for kind in [
        ControlType::Announce,
        ControlType::Subscribe,
        ControlType::Fetch,
        ControlType::Info,
    ] {
        assert_eq!(Plain::accept(kind), Err(Error::UnexpectedStream(kind)));
    }
}

#[test]
fn later_streams_are_not() {
    assert_eq!(
        Plain::run_control(ControlType::Session),
        Err(Error::UnexpectedStream(ControlType::Session))
    );
    assert_eq!(Plain::run_control(ControlType::Announce), Ok(Request::Announce));
    assert_eq!(Plain::run_control(ControlType::Subscribe), Ok(Request::Subscribe));
    assert_eq!(Plain::run_control(ControlType::Fetch), Ok(Request::Fetch));
    assert_eq!(Plain::run_control(ControlType::Info), Ok(Request::Info));
}

#[test]
fn session_ends_with_its_stream() {
    let info = Info {
        track_priority: -1,
        group_latest: 3,
        group_order: GroupOrder::Asc,
    };
    assert_eq!(Plain::run_session(Some(info)), Ok(()));
    assert_eq!(Plain::run_session(None), Err(Error::Cancel));
}
