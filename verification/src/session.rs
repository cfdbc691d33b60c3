use vstd::prelude::*;

use crate::announced::Announced;
use crate::error::Error;
use crate::message::{ClientSetup, ControlType, Extensions, Info, ServerSetup, Version};
use crate::path::Path;
use crate::publisher::{Publisher, PublisherView};
use crate::subscriber::{Discovery, Subscribed, Subscriber, SubscriberView};

verus! {

/// The largest number that a message can hold: the variable-length integers of QUIC have 62 bits.
pub const VARINT_MAX: u64 = 0x3fff_ffff_ffff_ffff;

/// `rand::random_range` draws a number from the range, here up to `max` and with `max`. Which one
/// is left to chance.
#[verifier::external_body]
fn random_up_to(max: u64) -> (n: u64)
    ensures
        n <= max,
{
    rand::random_range(0..=max)
}

/// What a stream of a peer asks of an established session.
#[derive(Debug, Clone, Copy, PartialEq, Eq)]
pub enum Request {
    Announce,
    Subscribe,
    Fetch,
    Info,
}

/// What both sides know of a session.
#[verifier::reject_recursive_types(C)]
#[verifier::reject_recursive_types(R)]
#[verifier::reject_recursive_types(P)]
pub struct SessionView<C, R, P> {
    pub publisher: PublisherView<C, R>,
    pub subscriber: SubscriberView<P>,
    pub tracing_id: u64,
}

/// Whether `client` is the setup of a client that speaks `current` and traces the session under
/// `tracing_id`.
pub open spec fn offers(client: ClientSetup, current: Version, tracing_id: u64) -> bool {
    &&& client.versions@ == seq![current]
    &&& client.extensions.entries@.len() == 0
    &&& client.tracing_id == tracing_id
}

/// Whether `answer` is how a server that speaks `current` answers the setup of a client: it takes
/// its own version where the client speaks it, and keeps the client's number for the session.
pub open spec fn answers(
    client: ClientSetup,
    current: Version,
    answer: Result<(ServerSetup, u64), Error>,
) -> bool {
    match answer {
        Ok((server, tracing_id)) => {
            &&& client.versions@.contains(current)
            &&& server.version == current
            &&& server.extensions.entries@.len() == 0
            &&& tracing_id == client.tracing_id
        },
        Err(error) => {
            &&& !client.versions@.contains(current)
            &&& error matches Error::Version(theirs, ours) && theirs@ == client.versions@ && ours@
                == seq![current]
        },
    }
}

/// A session, used to publish and to subscribe to tracks. `C` is a handle to a published track,
/// `R` one to a router, and `P` one to a track that is being filled.
#[derive(Debug)]
pub struct Session<C, R, P> {
    pub publisher: Publisher<C, R>,
    pub subscriber: Subscriber<P>,
    pub tracing_id: u64,
}

impl<C, R, P> View for Session<C, R, P> {
    type V = SessionView<C, R, P>;

    open spec fn view(&self) -> SessionView<C, R, P> {
        SessionView {
            publisher: self.publisher@,
            subscriber: self.subscriber@,
            tracing_id: self.tracing_id,
        }
    }
}

impl<C, R, P> Session<C, R, P> {
    /// A session after the handshake.
    pub fn new(tracing_id: u64) -> (session: Session<C, R, P>)
        ensures
            session@ == (SessionView {
                publisher: PublisherView::<C, R>::empty(),
                subscriber: SubscriberView::<P>::empty(),
                tracing_id,
            }),
    {
        Session { publisher: Publisher::new(), subscriber: Subscriber::new(), tracing_id }
    }

    /// Starts the handshake as a client that speaks `current`: the kind of stream to open for it,
    /// and the setup to send. The number under which the session is traced is drawn at random.
    pub fn connect(current: Version) -> (r: (ControlType, ClientSetup))
        ensures
            r.0 == ControlType::Session,
            offers(r.1, current, r.1.tracing_id),
            r.1.tracing_id <= VARINT_MAX,
    {
        let tracing_id = random_up_to(VARINT_MAX);
        (ControlType::Session, Self::connect_setup(current, tracing_id))
    }

    /// The setup of a client that speaks `current` and traces the session under `tracing_id`.
    pub fn connect_setup(current: Version, tracing_id: u64) -> (client: ClientSetup)
        ensures
            offers(client, current, tracing_id),
    {
        let mut versions: Vec<Version> = Vec::new();
        versions.push(current);
        assert(versions@ =~= seq![current]);
        ClientSetup { versions, extensions: Extensions::default(), tracing_id }
    }

    /// The client's side of the session once the server answered, whatever it answered.
    pub fn connected(client: &ClientSetup, server: ServerSetup) -> (session: Session<C, R, P>)
        ensures
            session@ == (SessionView {
                publisher: PublisherView::<C, R>::empty(),
                subscriber: SubscriberView::<P>::empty(),
                tracing_id: client.tracing_id,
            }),
    {
        Self::new(client.tracing_id)
    }

    /// Starts the handshake as a server: the first stream of the client has to be for that.
    pub fn accept(kind: ControlType) -> (r: Result<(), Error>)
        ensures
            r == if kind == ControlType::Session {
                Ok::<(), Error>(())
            } else {
                Err::<(), Error>(Error::UnexpectedStream(kind))
            },
    {
        if kind != ControlType::Session {
            return Err(Error::UnexpectedStream(kind));
        }
        Ok(())
    }

    /// How a server that speaks `current` answers the setup of a client: the setup to send back,
    /// and the number under which the session is traced. Fails where the client does not speak
    /// that version.
    pub fn accept_setup(client: ClientSetup, current: Version) -> (answer: Result<
        (ServerSetup, u64),
        Error,
    >)
        ensures
            answers(client, current, answer),
    {
        let mut i: usize = 0;
        while i < client.versions.len()
            invariant
                i <= client.versions@.len(),
                forall|j: int| 0 <= j < i ==> client.versions@[j] != current,
            decreases client.versions@.len() - i,
        {
            if client.versions[i] == current {
                let server = ServerSetup { version: current, extensions: Extensions::default() };
                return Ok((server, client.tracing_id));
            }
            i = i + 1;
        }
        let mut ours: Vec<Version> = Vec::new();
        ours.push(current);
        assert(ours@ =~= seq![current]);
        Err(Error::Version(client.versions, ours))
    }

    /// The next message of the peer on the stream of the handshake. It has no effect; without a
    /// next one the session is over.
    pub fn run_session(info: Option<Info>) -> (r: Result<(), Error>)
        ensures
            r == if info is Some {
                Ok::<(), Error>(())
            } else {
                Err::<(), Error>(Error::Cancel)
            },
    {
        match info {
            Some(_) => Ok(()),
            None => Err(Error::Cancel),
        }
    }

    /// What a bidirectional stream of the peer asks for. There is only one handshake.
    pub fn run_control(kind: ControlType) -> (r: Result<Request, Error>)
        ensures
            r == match kind {
                ControlType::Session => Err::<Request, Error>(Error::UnexpectedStream(kind)),
                ControlType::Announce => Ok::<Request, Error>(Request::Announce),
                ControlType::Subscribe => Ok::<Request, Error>(Request::Subscribe),
                ControlType::Fetch => Ok::<Request, Error>(Request::Fetch),
                ControlType::Info => Ok::<Request, Error>(Request::Info),
            },
    {
        match kind {
            ControlType::Session => Err(Error::UnexpectedStream(kind)),
            ControlType::Announce => Ok(Request::Announce),
            ControlType::Subscribe => Ok(Request::Subscribe),
            ControlType::Fetch => Ok(Request::Fetch),
            ControlType::Info => Ok(Request::Info),
        }
    }

    /// Publishes a track: announces its path and serves it. Fails where the path is announced
    /// already, or where another track holds it.
    pub fn publish(&mut self, path: Path, track: C) -> (r: Result<(), Error>)
        ensures
            final(self)@ == (SessionView {
                publisher: old(self)@.publisher.published(path@, track),
                ..old(self)@
            }),
            match r {
                Ok(_) => old(self)@.publisher.accepts(path@),
                Err(error) => !old(self)@.publisher.accepts(path@) && error == Error::Duplicate,
            },
    {
        self.publisher.publish(path, track)
    }

    /// Passes an announcement on to the peer.
    pub fn announce(&mut self, event: Announced)
        ensures
            final(self)@ == (SessionView {
                publisher: old(self)@.publisher.relayed(event@),
                ..old(self)@
            }),
    {
        self.publisher.announce(event)
    }

    /// Sends requests for tracks that are not published here to `router`.
    pub fn route(&mut self, router: R)
        ensures
            final(self)@ == (SessionView {
                publisher: old(self)@.publisher.routed(router),
                ..old(self)@
            }),
    {
        self.publisher.route(router)
    }

    /// Subscribes to the track at `path`, to fill `track`, unless it is being received already.
    pub fn subscribe(&mut self, path: Path, track: P) -> (r: Subscribed<'_, P>)
        ensures
            final(self)@.publisher == old(self)@.publisher,
            final(self)@.tracing_id == old(self)@.tracing_id,
            match r {
                Subscribed::Existing(found) => {
                    &&& !old(self)@.subscriber.is_new(path@)
                    &&& *found == old(self)@.subscriber.tracks[path@]
                    &&& final(self)@.subscriber == old(self)@.subscriber
                },
                Subscribed::Started { id, stream } => {
                    &&& stream == ControlType::Subscribe
                    &&& old(self)@.subscriber.is_new(path@)
                    &&& id == old(self)@.subscriber.next_id
                    &&& final(self)@.subscriber == old(self)@.subscriber.subscribed(path@, track)
                },
            },
    {
        self.subscriber.subscribe(path, track)
    }

    /// Discovers the tracks of the peer under `prefix`.
    pub fn announced(&self, prefix: Path) -> (discovery: Discovery)
        ensures
            discovery.starts(prefix@),
    {
        self.subscriber.announced(prefix)
    }
}

/// A client and a server that speak the same version come to a session under one number, and in
/// that version. Where their versions differ the server refuses, and says which they are.
pub proof fn law_handshake(
    client: ClientSetup,
    theirs: Version,
    ours: Version,
    tracing_id: u64,
    answer: Result<(ServerSetup, u64), Error>,
)
    requires
        offers(client, theirs, tracing_id),
        answers(client, ours, answer),
    ensures
        theirs == ours ==> (answer matches Ok((server, id)) && server.version == theirs && id
            == tracing_id),
        theirs != ours ==> (answer matches Err(Error::Version(a, b)) && a@ == seq![theirs] && b@
            == seq![ours]),
{
    assert(client.versions@[0] == theirs);
}

/// A client offers its one version, no extensions, and the number that was drawn.
pub proof fn law_client_offers_its_version(client: ClientSetup, current: Version, tracing_id: u64)
    requires
        offers(client, current, tracing_id),
    ensures
        client.versions@.len() == 1,
        client.versions@[0] == current,
        client.extensions.entries@.len() == 0,
        client.tracing_id == tracing_id,
{
}

/// Whatever versions a client offers, and in whatever order, the server accepts exactly where one
/// of them is its own. It then answers with that version and no extensions, and keeps the number
/// of the client. Otherwise it tells what the client offered, and its own version.
pub proof fn law_server_accepts_its_version(
    client: ClientSetup,
    ours: Version,
    answer: Result<(ServerSetup, u64), Error>,
)
    requires
        answers(client, ours, answer),
    ensures
        answer is Ok <==> exists|i: int|
            0 <= i < client.versions@.len() && #[trigger] client.versions@[i] == ours,
        answer matches Ok((server, tracing_id)) ==> {
            &&& server.version == ours
            &&& server.extensions.entries@.len() == 0
            &&& tracing_id == client.tracing_id
        },
        answer matches Err(error) ==> (error matches Error::Version(theirs, own) && theirs@
            == client.versions@ && own@.len() == 1 && own@[0] == ours),
{
}

/// The kind of stream that the handshake takes is the one kind that an established session
/// refuses, and the other way round. Both name the stream that they refuse.
pub proof fn law_there_is_one_handshake<C, R, P>(
    kind: ControlType,
    first: Result<(), Error>,
    later: Result<Request, Error>,
)
    requires
        call_ensures(Session::<C, R, P>::accept, (kind,), first),
        call_ensures(Session::<C, R, P>::run_control, (kind,), later),
    ensures
        first is Ok <==> kind is Session,
        first is Ok <==> later is Err,
        first matches Err(error) ==> error == Error::UnexpectedStream(kind),
        later matches Err(error) ==> error == Error::UnexpectedStream(kind),
        later matches Ok(request) ==> match request {
            Request::Announce => kind is Announce,
            Request::Subscribe => kind is Subscribe,
            Request::Fetch => kind is Fetch,
            Request::Info => kind is Info,
        },
{
}

/// A client and a server that speak the same version come to a session, whatever number the
/// client drew: the server takes the stream that the client opens, and accepts its setup. Both
/// trace the session under the number of the client, and neither has published or asked for
/// anything.
pub proof fn law_both_sides_come_to_a_session<C, R, P>(
    current: Version,
    opened: (ControlType, ClientSetup),
    taken: Result<(), Error>,
    answer: Result<(ServerSetup, u64), Error>,
    at_client: Session<C, R, P>,
    at_server: Session<C, R, P>,
)
    requires
        call_ensures(Session::<C, R, P>::connect, (current,), opened),
        call_ensures(Session::<C, R, P>::accept, (opened.0,), taken),
        call_ensures(Session::<C, R, P>::accept_setup, (opened.1, current), answer),
        call_ensures(
            Session::<C, R, P>::connected,
            (&opened.1, answer->Ok_0.0),
            at_client,
        ),
        call_ensures(Session::<C, R, P>::new, (answer->Ok_0.1,), at_server),
    ensures
        taken is Ok,
        answer is Ok,
        answer->Ok_0.0.version == current,
        opened.1.tracing_id <= VARINT_MAX,
        at_client@.tracing_id == opened.1.tracing_id,
        at_server@.tracing_id == opened.1.tracing_id,
        at_client@.publisher == at_server@.publisher,
        at_client@.subscriber == at_server@.subscriber,
{
    law_server_accepts_its_version(opened.1, current, answer);
    law_client_offers_its_version(opened.1, current, opened.1.tracing_id);
    assert(opened.1.versions@[0] == current);
}

/// A session lasts as long as the peer keeps the stream of the handshake open, whatever it says
/// there.
pub proof fn law_session_lasts_with_its_stream<C, R, P>(
    info: Option<Info>,
    r: Result<(), Error>,
)
    requires
        call_ensures(Session::<C, R, P>::run_session, (info,), r),
    ensures
        r is Ok <==> info is Some,
        r matches Err(error) ==> error == Error::Cancel,
{
}

} // verus!
