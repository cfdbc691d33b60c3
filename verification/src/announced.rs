use vstd::prelude::*;

use crate::message::{Announce, Status};
use crate::path::{Path, PathView};
use crate::path_map::PathMap;

verus! {

/// What happened to a path. A path is named by what follows the prefix that was asked for.
#[derive(Debug, PartialEq, Eq)]
pub enum Announced {
    /// The path is now available.
    Active(Path),
    /// The path is no longer available.
    Ended(Path),
    /// All paths that are available have been announced.
    Live,
}

impl View for Announced {
    type V = Status;

    open spec fn view(&self) -> Status {
        match *self {
            Announced::Active(path) => Status::Active(path@),
            Announced::Ended(path) => Status::Ended(path@),
            Announced::Live => Status::Live,
        }
    }
}

impl Announced {
    /// The message that announces this.
    pub fn into_message(self) -> (message: Announce)
        ensures
            message@ == self@,
    {
        match self {
            Announced::Active(suffix) => Announce::Active { suffix },
            Announced::Ended(suffix) => Announce::Ended { suffix },
            Announced::Live => Announce::Live,
        }
    }
}

/// The paths that are announced, and whether they are all that are available.
#[verifier::ext_equal]
pub struct AnnouncedView {
    pub active: Set<PathView>,
    pub live: bool,
}

impl AnnouncedView {
    /// Nothing is announced yet.
    pub open spec fn empty() -> AnnouncedView {
        AnnouncedView { active: Set::empty(), live: false }
    }

    /// With `path` announced.
    pub open spec fn with(self, path: PathView) -> AnnouncedView {
        AnnouncedView { active: self.active.insert(path), ..self }
    }

    /// With `path` no longer announced.
    pub open spec fn without(self, path: PathView) -> AnnouncedView {
        AnnouncedView { active: self.active.remove(path), ..self }
    }

    /// With all available paths announced.
    pub open spec fn made_live(self) -> AnnouncedView {
        AnnouncedView { live: true, ..self }
    }

    /// What is left of each announced path under `prefix` once the prefix is taken from it.
    pub open spec fn suffixes(self, prefix: PathView) -> Set<PathView> {
        Set::new(|suffix: PathView| self.active.contains(prefix + suffix))
    }
}

/// The set of announced paths.
#[derive(Debug)]
pub struct AnnouncedProducer {
    active: PathMap<()>,
    live: bool,
}

impl View for AnnouncedProducer {
    type V = AnnouncedView;

    closed spec fn view(&self) -> AnnouncedView {
        AnnouncedView { active: self.active@.dom(), live: self.live }
    }
}

impl AnnouncedProducer {
    /// Finitely many paths are announced.
    pub proof fn law_is_finite(self)
        ensures
            self@.active.finite(),
    {
        self.active.lemma_finite();
    }

    /// Nothing is announced yet.
    pub fn new() -> (announced: AnnouncedProducer)
        ensures
            announced@ == AnnouncedView::empty(),
    {
        let announced = AnnouncedProducer { active: PathMap::new(), live: false };
        assert(announced@ =~= AnnouncedView::empty());
        announced
    }

    /// Announces `path`. The result is `false` where it is announced already.
    pub fn announce(&mut self, path: Path) -> (new: bool)
        ensures
            new == !old(self)@.active.contains(path@),
            final(self)@ == old(self)@.with(path@),
    {
        let new = self.active.insert_vacant(path, ());
        assert(self@ =~= old(self)@.with(path@));
        new
    }

    /// Takes the announcement of `path` back. The result is `false` where it is not announced.
    pub fn unannounce(&mut self, path: &Path) -> (found: bool)
        ensures
            found == old(self)@.active.contains(path@),
            final(self)@ == old(self)@.without(path@),
    {
        let found = self.active.remove(path).is_some();
        assert(self@ =~= old(self)@.without(path@));
        found
    }

    /// Declares that all available paths are announced. The result is `false` where that was
    /// declared before.
    pub fn live(&mut self) -> (new: bool)
        ensures
            new == !old(self)@.live,
            final(self)@ == old(self)@.made_live(),
    {
        let new = !self.live;
        self.live = true;
        new
    }

    /// Follows the announcements under `prefix`, from the ones that are in force on.
    pub fn subscribe_prefix(&self, prefix: Path) -> (consumer: AnnouncedConsumer)
        ensures
            consumer@ == (ConsumerView { prefix: prefix@, told: Set::empty(), live: false }),
    {
        let consumer = AnnouncedConsumer { prefix, told: PathMap::new(), live: false };
        assert(consumer@.told =~= Set::empty());
        consumer
    }
}

/// What a follower of the announcements under a prefix has been told.
#[verifier::ext_equal]
pub struct ConsumerView {
    pub prefix: PathView,
    /// The paths under the prefix that it was told are available, by their suffixes.
    pub told: Set<PathView>,
    /// Whether it was told that those were all.
    pub live: bool,
}

impl ConsumerView {
    /// Whether `event` is what this follower is to be told next, given what is announced, and
    /// leaves it at `after`. It first hears of the paths that ended, then of those that are new
    /// to it, in no particular order; that those are all, it hears last.
    pub open spec fn hears(
        self,
        announced: AnnouncedView,
        event: Option<Status>,
        after: ConsumerView,
    ) -> bool {
        let current = announced.suffixes(self.prefix);
        match event {
            Some(Status::Ended(suffix)) => {
                &&& self.told.contains(suffix)
                &&& !current.contains(suffix)
                &&& after == (ConsumerView { told: self.told.remove(suffix), ..self })
            },
            Some(Status::Active(suffix)) => {
                &&& self.told.subset_of(current)
                &&& current.contains(suffix)
                &&& !self.told.contains(suffix)
                &&& after == (ConsumerView { told: self.told.insert(suffix), ..self })
            },
            Some(Status::Live) => {
                &&& self.told == current
                &&& announced.live
                &&& !self.live
                &&& after == (ConsumerView { live: true, ..self })
            },
            None => {
                &&& self.told == current
                &&& announced.live ==> self.live
                &&& after == self
            },
        }
    }
}

/// A follower of the announcements under a prefix.
#[derive(Debug)]
pub struct AnnouncedConsumer {
    prefix: Path,
    told: PathMap<()>,
    live: bool,
}

impl View for AnnouncedConsumer {
    type V = ConsumerView;

    closed spec fn view(&self) -> ConsumerView {
        ConsumerView { prefix: self.prefix@, told: self.told@.dom(), live: self.live }
    }
}

impl AnnouncedConsumer {
    /// A follower was told of finitely many paths.
    pub proof fn law_is_finite(self)
        ensures
            self@.told.finite(),
    {
        self.told.lemma_finite();
    }

    /// The next thing that this follower has not been told, if there is one.
    pub fn next(&mut self, announced: &AnnouncedProducer) -> (event: Option<Announced>)
        ensures
            old(self)@.hears(
                announced@,
                match event {
                    Some(announced) => Some(announced@),
                    None => None,
                },
                final(self)@,
            ),
    {
        let ghost before = self@;
        let ghost current = announced@.suffixes(before.prefix);
        let n: usize = self.told.len();
        let mut i: usize = 0;
        while i < n
            invariant
                before == old(self)@,
                self@ == before,
                current == announced@.suffixes(before.prefix),
                n == self.told.keys().len(),
                forall|j: int| 0 <= j < i ==> current.contains(#[trigger] self.told.keys()[j]),
            decreases n - i,
        {
            let suffix = self.told.key(i).clone();
            let path = self.prefix.clone().append(&suffix);
            if !announced.active.contains_key(&path) {
                proof {
                    assert(self.told.keys()[i as int] == suffix@);
                    self.told.lemma_keys(suffix@);
                }
                self.told.remove(&suffix);
                assert(self@ =~= ConsumerView { told: before.told.remove(suffix@), ..before });
                return Some(Announced::Ended(suffix));
            }
            i = i + 1;
        }
        assert(before.told.subset_of(current)) by {
            assert forall|s: PathView| before.told.contains(s) implies current.contains(s) by {
                self.told.lemma_keys(s);
                let j = choose|j: int| 0 <= j < self.told.keys().len() && self.told.keys()[j] == s;
                assert(current.contains(self.told.keys()[j]));
            }
        }
        let n: usize = announced.active.len();
        let mut i: usize = 0;
        while i < n
            invariant
                before == old(self)@,
                self@ == before,
                current == announced@.suffixes(before.prefix),
                before.told.subset_of(current),
                n == announced.active.keys().len(),
                forall|j: int, s: PathView|
                    #![trigger announced.active.keys()[j], before.told.contains(s)]
                    0 <= j < i && announced.active.keys()[j] == before.prefix + s
                        ==> before.told.contains(s),
            decreases n - i,
        {
            let path = announced.active.key(i);
            proof {
                assert(announced.active.keys()[i as int] == path@);
                announced.active.lemma_keys(path@);
            }
            match path.strip_prefix(&self.prefix) {
                Some(suffix) => {
                    proof {
                        crate::path::law_suffix_names_path(path@, before.prefix, suffix@);
                    }
                    if !self.told.contains_key(&suffix) {
                        let ghost s = suffix@;
                        let told = suffix.clone();
                        self.told.insert_vacant(told, ());
                        assert(self@ =~= ConsumerView { told: before.told.insert(s), ..before });
                        return Some(Announced::Active(suffix));
                    }
                },
                None => {},
            }
            assert forall|s: PathView| announced.active.keys()[i as int] == before.prefix
                + s implies #[trigger] before.told.contains(s) by {
                crate::path::law_suffix_names_path(path@, before.prefix, s);
            }
            i = i + 1;
        }
        assert(before.told =~= current) by {
            assert forall|s: PathView| current.contains(s) implies before.told.contains(s) by {
                let path = before.prefix + s;
                announced.active.lemma_keys(path);
                let j = choose|j: int|
                    0 <= j < announced.active.keys().len() && announced.active.keys()[j] == path;
                assert(announced.active.keys()[j] == path);
            }
        }
        if announced.live && !self.live {
            self.live = true;
            assert(self@ =~= ConsumerView { live: true, ..before });
            return Some(Announced::Live);
        }
        None
    }
}

/// What is announced tells of each path on its own: to announce a path, or to take that back,
/// changes that path and no other, and to declare that all is announced changes no path. At the
/// start no path is announced, and nothing was declared.
pub proof fn law_announced_paths_are_independent(
    announced: AnnouncedView,
    path: PathView,
    other: PathView,
)
    ensures
        !AnnouncedView::empty().active.contains(path),
        !AnnouncedView::empty().live,
        announced.with(path).active.contains(other) <==> other == path
            || announced.active.contains(other),
        announced.with(path).live == announced.live,
        announced.without(path).active.contains(other) <==> other != path
            && announced.active.contains(other),
        announced.without(path).live == announced.live,
        announced.made_live().active.contains(other) <==> announced.active.contains(other),
        announced.made_live().live,
        announced.suffixes(path).contains(other) <==> announced.active.contains(path + other),
{
}

/// A follower hears what is so and what it does not know yet: that a path which it knows is no
/// longer announced, that one which it does not know is, or, once it knows exactly the announced
/// paths, that those are all. It knows one thing more then, and nothing else changes. It hears
/// nothing only where it knows exactly the announced paths, and that they are all where that was
/// declared.
pub proof fn law_follower_hears_the_news(
    follower: ConsumerView,
    announced: AnnouncedView,
    event: Option<Status>,
    after: ConsumerView,
    suffix: PathView,
)
    requires
        follower.hears(announced, event, after),
    ensures
        after.prefix == follower.prefix,
        event matches Some(Status::Ended(named)) ==> {
            &&& follower.told.contains(named)
            &&& !announced.active.contains(follower.prefix + named)
            &&& after.told.contains(suffix) <==> suffix != named && follower.told.contains(suffix)
            &&& after.live == follower.live
        },
        event matches Some(Status::Active(named)) ==> {
            &&& !follower.told.contains(named)
            &&& announced.active.contains(follower.prefix + named)
            &&& after.told.contains(suffix) <==> suffix == named || follower.told.contains(suffix)
            &&& after.live == follower.live
        },
        event matches Some(Status::Live) ==> {
            &&& announced.live && !follower.live && after.live
            &&& follower.told.contains(suffix) <==> announced.active.contains(
                follower.prefix + suffix,
            )
            &&& after.told.contains(suffix) <==> follower.told.contains(suffix)
        },
        event is None ==> {
            &&& announced.live ==> follower.live
            &&& follower.told.contains(suffix) <==> announced.active.contains(
                follower.prefix + suffix,
            )
            &&& after.told.contains(suffix) <==> follower.told.contains(suffix)
            &&& after.live == follower.live
        },
{
}

/// What happened to a path and the message that announces it mean the same, path by path.
pub proof fn law_messages_mean_what_happened(path: Path)
    ensures
        Announced::Active(path)@ == Status::Active(path@),
        Announced::Ended(path)@ == Status::Ended(path@),
        Announced::Live@ == Status::Live,
        (Announce::Active { suffix: path })@ == Status::Active(path@),
        (Announce::Ended { suffix: path })@ == Status::Ended(path@),
        Announce::Live@ == Status::Live,
{
}

} // verus!
