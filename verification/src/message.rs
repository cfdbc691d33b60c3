use vstd::prelude::*;

use crate::path::{Path, PathView};

verus! {

/// What a bidirectional stream is for. It is the first thing that its opener writes to it.
#[derive(Debug, Clone, Copy, PartialEq, Eq, Structural)]
pub enum ControlType {
    Session,
    Announce,
    Subscribe,
    Fetch,
    Info,
}

/// What a unidirectional stream is for. It is the first thing that its opener writes to it.
#[derive(Debug, Clone, Copy, PartialEq, Eq, Structural)]
pub enum DataType {
    Group,
}

/// A version of the protocol, by its number on the wire.
#[derive(Debug, Clone, Copy, PartialEq, Eq, Structural)]
pub struct Version(pub u64);

/// The extensions that one side offers, by number, each with its parameter.
#[derive(Debug, PartialEq, Eq)]
pub struct Extensions {
    pub entries: Vec<(u64, Vec<u8>)>,
}

impl Default for Extensions {
    fn default() -> (extensions: Extensions)
        ensures
            extensions.entries@ == Seq::<(u64, Vec<u8>)>::empty(),
    {
        Extensions { entries: Vec::new() }
    }
}

/// The first message of a session, from the client.
#[derive(Debug, PartialEq, Eq)]
pub struct ClientSetup {
    /// The versions that the client speaks.
    pub versions: Vec<Version>,
    pub extensions: Extensions,
    /// The number under which both sides trace the session.
    pub tracing_id: u64,
}

/// The server's answer to [`ClientSetup`].
#[derive(Debug, PartialEq, Eq)]
pub struct ServerSetup {
    /// The version that the session speaks.
    pub version: Version,
    pub extensions: Extensions,
}

/// The order in which the groups of a track are delivered.
#[derive(Debug, Clone, Copy, PartialEq, Eq, Structural)]
pub enum GroupOrder {
    /// Oldest first.
    Asc,
    /// Newest first.
    Desc,
}

/// Asks for the announcements of all paths under a prefix.
#[derive(Debug, PartialEq, Eq)]
pub struct AnnouncePlease {
    pub prefix: Path,
}

/// One announcement. A path is named by what follows the prefix that was asked for.
#[derive(Debug, PartialEq, Eq)]
pub enum Announce {
    /// The path is now available.
    Active { suffix: Path },
    /// The path is no longer available.
    Ended { suffix: Path },
    /// All paths that are available have been announced.
    Live,
}

/// The meaning of an announcement.
pub enum Status {
    Active(PathView),
    Ended(PathView),
    Live,
}

impl View for Announce {
    type V = Status;

    open spec fn view(&self) -> Status {
        match *self {
            Announce::Active { suffix } => Status::Active(suffix@),
            Announce::Ended { suffix } => Status::Ended(suffix@),
            Announce::Live => Status::Live,
        }
    }
}

/// Asks for the groups of a track.
#[derive(Debug, PartialEq, Eq)]
pub struct Subscribe {
    /// The number by which the subscriber knows this subscription.
    pub id: u64,
    pub path: Path,
    pub priority: i8,
    pub group_order: GroupOrder,
    /// The first group that is wanted, if there is one.
    pub group_min: Option<u64>,
    /// The last group that is wanted, if there is one.
    pub group_max: Option<u64>,
}

/// Changes a subscription.
#[derive(Debug, Clone, Copy, PartialEq, Eq)]
pub struct SubscribeUpdate {
    pub priority: u64,
    pub group_order: GroupOrder,
    pub group_min: Option<u64>,
    pub group_max: Option<u64>,
}

/// What a publisher tells of a track.
#[derive(Debug, Clone, Copy, PartialEq, Eq)]
pub struct Info {
    pub track_priority: i8,
    pub group_latest: u64,
    pub group_order: GroupOrder,
}

/// Asks for the [`Info`] of a track.
#[derive(Debug, PartialEq, Eq)]
pub struct InfoRequest {
    pub path: Path,
}

/// Asks for the rest of one group.
#[derive(Debug, PartialEq, Eq)]
pub struct Fetch {
    pub path: Path,
    pub priority: i8,
    /// The sequence number of the group.
    pub group: u64,
    /// How many bytes of the group to skip.
    pub offset: usize,
}

/// The head of a group.
#[derive(Debug, Clone, Copy, PartialEq, Eq)]
pub struct Group {
    /// The subscription that the group is for.
    pub subscribe: u64,
    pub sequence: u64,
}

/// The head of a frame. As many bytes of payload as it says follow it.
#[derive(Debug, Clone, Copy, PartialEq, Eq)]
pub struct Frame {
    pub size: usize,
}

/// Tells a subscriber that groups will not arrive.
#[derive(Debug, Clone, Copy, PartialEq, Eq)]
pub struct GroupDrop {
    /// The first of these groups.
    pub sequence: u64,
    /// How many groups after the first are lost with it.
    pub count: u64,
    /// Why, as an error code.
    pub code: u32,
}

/// A track, and how to deliver it.
#[derive(Debug, PartialEq, Eq)]
pub struct Track {
    pub path: Path,
    pub priority: i8,
    pub order: GroupOrder,
}

impl Default for Track {
    fn default() -> (track: Track)
        ensures
            track.path@ == PathView::empty(),
            track.priority == 0,
            track.order == GroupOrder::Desc,
    {
        Track { path: Path::new(), priority: 0, order: GroupOrder::Desc }
    }
}

} // verus!
