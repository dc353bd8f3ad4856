use vstd::prelude::*;

verus! {

/// One component of a filesystem path, as produced by splitting it.
pub enum PathPart {
    /// A platform prefix such as a drive letter.
    Prefix(String),
    /// The root separator of an absolute path.
    Root,
    /// The current directory, `.`.
    Cur,
    /// The parent directory, `..`.
    Parent,
    /// An ordinary name.
    Normal(String),
}

/// The mathematical value of a [`PathPart`].
pub enum PartView {
    Prefix(Seq<char>),
    Root,
    Cur,
    Parent,
    Normal(Seq<char>),
}

impl View for PathPart {
    type V = PartView;

    open spec fn view(&self) -> PartView {
        match self {
            PathPart::Prefix(s) => PartView::Prefix(s@),
            PathPart::Root => PartView::Root,
            PathPart::Cur => PartView::Cur,
            PathPart::Parent => PartView::Parent,
            PathPart::Normal(s) => PartView::Normal(s@),
        }
    }
}

/// Compares two components by value.
pub fn part_eq(a: &PathPart, b: &PathPart) -> (r: bool)
    ensures
        r == (a@ == b@),
{
    match a {
        PathPart::Prefix(x) => match b {
            PathPart::Prefix(y) => x.eq(y),
            _ => false,
        },
        PathPart::Root => matches!(b, PathPart::Root),
        PathPart::Cur => matches!(b, PathPart::Cur),
        PathPart::Parent => matches!(b, PathPart::Parent),
        PathPart::Normal(x) => match b {
            PathPart::Normal(y) => x.eq(y),
            _ => false,
        },
    }
}

} // verus!

verus! {

/// A filesystem path held as its sequence of components.
pub struct FsPath {
    pub parts: Vec<PathPart>,
}

impl View for FsPath {
    type V = Seq<PartView>;

    open spec fn view(&self) -> Seq<PartView> {
        parts_view(self.parts@)
    }
}

/// The values of a sequence of components.
pub open spec fn parts_view(s: Seq<PathPart>) -> Seq<PartView> {
    s.map_values(|p: PathPart| p@)
}

/// `a` is `p` itself or one of its ancestors: its components start `p`.
pub open spec fn is_ancestor_or_self(a: Seq<PartView>, p: Seq<PartView>) -> bool {
    a.len() <= p.len() && p.subrange(0, a.len() as int) == a
}

/// `a` is a strict ancestor of `p`.
pub open spec fn is_proper_ancestor(a: Seq<PartView>, p: Seq<PartView>) -> bool {
    a.len() < p.len() && is_ancestor_or_self(a, p)
}

/// A path is absolute when it holds a root component.
pub open spec fn is_absolute(p: Seq<PartView>) -> bool {
    exists|i: int| 0 <= i < p.len() && p[i] is Root
}

/// A relative path is resolved under `base`; an absolute one stands as it is.
pub open spec fn resolved(base: Seq<PartView>, p: Seq<PartView>) -> Seq<PartView> {
    if is_absolute(p) {
        p
    } else {
        base + p
    }
}

/// Anchor components and retained names after reading `parts` left to right:
/// prefixes and roots are kept verbatim, `.` is dropped, `..` discards the
/// most recently retained name, and names are retained.
pub open spec fn lexical_state(parts: Seq<PartView>) -> (Seq<PartView>, Seq<PartView>)
    decreases parts.len(),
{
    if parts.len() == 0 {
        (Seq::empty(), Seq::empty())
    } else {
        let (anchor, names) = lexical_state(parts.drop_last());
        let last = parts.last();
        match last {
            PartView::Prefix(_) => (anchor.push(last), names),
            PartView::Root => (anchor.push(last), names),
            PartView::Cur => (anchor, names),
            PartView::Parent => (
                anchor,
                if names.len() > 0 {
                    names.drop_last()
                } else {
                    names
                },
            ),
            PartView::Normal(_) => (anchor, names.push(last)),
        }
    }
}

/// The purely syntactic normal form of a path: its anchor, then its names.
pub open spec fn lexical_normal(parts: Seq<PartView>) -> Seq<PartView> {
    lexical_state(parts).0 + lexical_state(parts).1
}

/// The normal form of a configured path, resolved against `base`.
pub open spec fn normalized(base: Seq<PartView>, p: Seq<PartView>) -> Seq<PartView> {
    lexical_normal(resolved(base, p))
}

impl PathPart {
    /// A copy of this component.
    pub fn copy(&self) -> (r: PathPart)
        ensures
            r@ == self@,
    {
        match self {
            PathPart::Prefix(s) => PathPart::Prefix(s.clone()),
            PathPart::Root => PathPart::Root,
            PathPart::Cur => PathPart::Cur,
            PathPart::Parent => PathPart::Parent,
            PathPart::Normal(s) => PathPart::Normal(s.clone()),
        }
    }
}

impl FsPath {
    /// A copy of this path.
    pub fn copy(&self) -> (r: FsPath)
        ensures
            r@ == self@,
    {
        let mut parts: Vec<PathPart> = Vec::new();
        let mut i: usize = 0;
        while i < self.parts.len()
            invariant
                i <= self.parts.len(),
                parts@.len() == i,
                parts_view(parts@) == self@.subrange(0, i as int),
            decreases self.parts.len() - i,
        {
            let c = self.parts[i].copy();
            assert(self@[i as int] == self.parts@[i as int]@);
            let ghost prev = parts@;
            parts.push(c);
            i += 1;
            assert forall|k: int| 0 <= k < i implies parts_view(parts@)[k] == self@[k] by {
                if k < i - 1 {
                    assert(parts@[k] == prev[k]);
                    assert(parts_view(prev)[k] == self@.subrange(0, i - 1)[k]);
                }
            }
            assert(parts_view(parts@) =~= self@.subrange(0, i as int));
        }
        assert(self@.subrange(0, i as int) =~= self@);
        FsPath { parts }
    }

    /// The number of components.
    pub fn depth(&self) -> (r: usize)
        ensures
            r == self@.len(),
    {
        self.parts.len()
    }

    /// Whether the path holds a root component.
    pub fn is_absolute(&self) -> (r: bool)
        ensures
            r == is_absolute(self@),
    {
        let mut i: usize = 0;
        while i < self.parts.len()
            invariant
                i <= self.parts.len(),
                forall|k: int| 0 <= k < i ==> !(self@[k] is Root),
            decreases self.parts.len() - i,
        {
            if matches!(self.parts[i], PathPart::Root) {
                assert(self@[i as int] is Root);
                return true;
            }
            i += 1;
        }
        false
    }

    /// Whether `self` is `other` or one of its ancestors.
    pub fn is_ancestor_or_self_of(&self, other: &FsPath) -> (r: bool)
        ensures
            r == is_ancestor_or_self(self@, other@),
    {
        if self.parts.len() > other.parts.len() {
            return false;
        }
        let mut i: usize = 0;
        while i < self.parts.len()
            invariant
                i <= self.parts.len() <= other.parts.len(),
                forall|k: int| 0 <= k < i ==> self@[k] == other@[k],
            decreases self.parts.len() - i,
        {
            if !part_eq(&self.parts[i], &other.parts[i]) {
                assert(other@.subrange(0, self@.len() as int)[i as int] != self@[i as int]);
                return false;
            }
            i += 1;
        }
        assert(other@.subrange(0, self@.len() as int) =~= self@);
        true
    }

    /// Whether two paths have the same components.
    pub fn same_as(&self, other: &FsPath) -> (r: bool)
        ensures
            r == (self@ == other@),
    {
        if self.parts.len() != other.parts.len() {
            return false;
        }
        assert(other@.subrange(0, other@.len() as int) =~= other@);
        self.is_ancestor_or_self_of(other)
    }
}

} // verus!

verus! {

impl FsPath {
    /// `self` followed by the components of `other`.
    pub fn join(&self, other: &FsPath) -> (r: FsPath)
        ensures
            r@ == self@ + other@,
    {
        let mut r = self.copy();
        let mut i: usize = 0;
        while i < other.parts.len()
            invariant
                i <= other.parts.len(),
                r@ == self@ + other@.subrange(0, i as int),
            decreases other.parts.len() - i,
        {
            let ghost prev = r.parts@;
            r.parts.push(other.parts[i].copy());
            i += 1;
            assert(parts_view(r.parts@) =~= parts_view(prev).push(other@[i - 1]));
            assert(r@ =~= self@ + other@.subrange(0, i as int));
        }
        assert(other@.subrange(0, i as int) =~= other@);
        r
    }
}

} // verus!

verus! {

/// The path of the file `filename` inside directory `dir_path`.
pub fn get_file_path(dir_path: FsPath, filename: &str) -> (r: FsPath)
    ensures
        r@ == dir_path@.push(PartView::Normal(filename@)),
{
    let mut r = dir_path;
    let ghost prev = r.parts@;
    r.parts.push(PathPart::Normal(filename.to_owned()));
    assert(parts_view(r.parts@) =~= parts_view(prev).push(PartView::Normal(filename@)));
    r
}

} // verus!
