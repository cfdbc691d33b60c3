use vstd::prelude::*;

verus! {

/// The name of a track: a list of parts, from the most general to the most specific.
#[derive(Debug)]
pub struct Path {
    parts: Vec<String>,
}

/// The parts of a path, each as its characters.
pub type PathView = Seq<Seq<char>>;

/// A list of parts, each as its characters.
pub open spec fn parts_view(parts: Seq<String>) -> PathView {
    Seq::new(parts.len(), |i: int| parts[i]@)
}

/// Whether `path` lies under `prefix`, that is, whether it starts with the parts of `prefix`.
pub open spec fn under(path: PathView, prefix: PathView) -> bool {
    prefix.is_prefix_of(path)
}

/// What is left of `path` once the parts of `prefix` are taken from its front.
pub open spec fn suffix_of(path: PathView, prefix: PathView) -> PathView
    recommends
        under(path, prefix),
{
    path.skip(prefix.len() as int)
}

impl View for Path {
    type V = PathView;

    closed spec fn view(&self) -> PathView {
        parts_view(self.parts@)
    }
}

impl Path {
    /// The path with no parts.
    pub fn new() -> (path: Path)
        ensures
            path@ == PathView::empty(),
    {
        let path = Path { parts: Vec::new() };
        assert(path@ =~= PathView::empty());
        path
    }

    /// The path with one more part at its end.
    pub fn push(self, part: String) -> (path: Path)
        ensures
            path@ == self@.push(part@),
    {
        let mut parts = self.parts;
        parts.push(part);
        let path = Path { parts };
        assert(path@ =~= self@.push(part@));
        path
    }

    /// The parts of this path followed by those of `other`.
    pub fn append(self, other: &Path) -> (path: Path)
        ensures
            path@ == self@ + other@,
    {
        let ghost front = self@;
        let mut path = self;
        let mut i: usize = 0;
        assert(front + other@.take(0) =~= front);
        while i < other.parts.len()
            invariant
                i <= other.parts.len(),
                other.parts.len() == other@.len(),
                path@ == front + other@.take(i as int),
            decreases other.parts.len() - i,
        {
            path = path.push(other.parts[i].clone());
            assert((front + other@.take(i as int)).push(other@[i as int]) =~= front
                + other@.take(i + 1));
            i = i + 1;
        }
        assert(other@.take(i as int) =~= other@);
        path
    }

    /// Whether this path starts with the parts of `prefix`.
    pub fn has_prefix(&self, prefix: &Path) -> (r: bool)
        ensures
            r == under(self@, prefix@),
    {
        if prefix.parts.len() > self.parts.len() {
            return false;
        }
        let mut i: usize = 0;
        while i < prefix.parts.len()
            invariant
                i <= prefix.parts.len() <= self.parts.len(),
                prefix.parts.len() == prefix@.len(),
                self.parts.len() == self@.len(),
                forall|j: int| 0 <= j < i ==> prefix@[j] == self@[j],
            decreases prefix.parts.len() - i,
        {
            if !self.parts[i].eq(&prefix.parts[i]) {
                assert(self@[i as int] != prefix@[i as int]);
                assert(self@.subrange(0, prefix@.len() as int)[i as int] == self@[i as int]);
                return false;
            }
            i = i + 1;
        }
        assert(prefix@ =~= self@.subrange(0, prefix@.len() as int));
        true
    }

    /// The rest of this path behind `prefix`, where it starts with the parts of `prefix`.
    pub fn strip_prefix(&self, prefix: &Path) -> (rest: Option<Path>)
        ensures
            rest is Some <==> under(self@, prefix@),
            rest matches Some(path) ==> path@ == suffix_of(self@, prefix@),
    {
        if !self.has_prefix(prefix) {
            return None;
        }
        let mut path = Path::new();
        let mut i: usize = prefix.parts.len();
        assert(path@ =~= self@.subrange(i as int, i as int));
        while i < self.parts.len()
            invariant
                prefix.parts.len() <= i <= self.parts.len(),
                prefix.parts.len() == prefix@.len(),
                self.parts.len() == self@.len(),
                path@ == self@.subrange(prefix@.len() as int, i as int),
            decreases self.parts.len() - i,
        {
            path = path.push(self.parts[i].clone());
            assert(self@.subrange(prefix@.len() as int, i as int).push(self@[i as int])
                =~= self@.subrange(prefix@.len() as int, i + 1));
            i = i + 1;
        }
        assert(path@ =~= suffix_of(self@, prefix@));
        Some(path)
    }

    /// The parts of this path.
    pub fn to_vec(&self) -> (parts: Vec<String>)
        ensures
            parts_view(parts@) == self@,
    {
        let path = self.clone();
        path.parts
    }
}

impl Clone for Path {
    fn clone(&self) -> (path: Path)
        ensures
            path@ == self@,
    {
        let path = Path::new().append(self);
        assert(path@ =~= self@);
        path
    }
}

impl PartialEq for Path {
    fn eq(&self, other: &Path) -> (r: bool) {
        let r = self.parts.len() == other.parts.len() && self.has_prefix(other);
        assert(self@.subrange(0, self@.len() as int) =~= self@);
        r
    }
}

impl vstd::std_specs::cmp::PartialEqSpecImpl for Path {
    open spec fn obeys_eq_spec() -> bool {
        true
    }

    open spec fn eq_spec(&self, other: &Path) -> bool {
        self@ == other@
    }
}

impl Eq for Path {

}

/// Behind a prefix, the suffix names the path: to append it gives the path back, and the path
/// that an appended suffix gives has that suffix.
pub proof fn law_suffix_names_path(path: PathView, prefix: PathView, suffix: PathView)
    ensures
        under(path, prefix) ==> prefix + suffix_of(path, prefix) == path,
        under(prefix + suffix, prefix),
        suffix_of(prefix + suffix, prefix) == suffix,
{
    if under(path, prefix) {
        assert(prefix + suffix_of(path, prefix) =~= path);
    }
    assert(prefix =~= (prefix + suffix).subrange(0, prefix.len() as int));
    assert(suffix_of(prefix + suffix, prefix) =~= suffix);
}

/// A path has the parts that it is made of, one by one and in order. It lies under a prefix exactly
/// where it has at least as many parts, and the same in front.
pub proof fn law_path_is_its_parts(parts: Seq<String>, path: PathView, prefix: PathView)
    ensures
        parts_view(parts).len() == parts.len(),
        forall|i: int| 0 <= i < parts.len() ==> #[trigger] parts_view(parts)[i] == parts[i]@,
        under(path, prefix) <==> {
            &&& prefix.len() <= path.len()
            &&& forall|i: int| 0 <= i < prefix.len() ==> #[trigger] path[i] == prefix[i]
        },
        under(path, prefix) ==> suffix_of(path, prefix).len() == path.len() - prefix.len(),
{
    if prefix.len() <= path.len() && forall|i: int|
        0 <= i < prefix.len() ==> #[trigger] path[i] == prefix[i] {
        assert(prefix =~= path.subrange(0, prefix.len() as int));
    }
    if under(path, prefix) {
        assert forall|i: int| 0 <= i < prefix.len() implies #[trigger] path[i] == prefix[i] by {
            assert(path.subrange(0, prefix.len() as int)[i] == path[i]);
        }
    }
}

} // verus!
