//! Paths of the file system as the components that they are made of.

use vstd::prelude::*;
use vstd::utf8::encode_utf8;

verus! {

/// A component of a path. Names are kept as raw bytes, of which UTF-8 text is
/// one case.
#[derive(Debug, PartialEq, Eq)]
pub enum PathComponent {
    /// What stands before the root, such as a drive.
    Prefix(Vec<u8>),
    RootDir,
    CurDir,
    ParentDir,
    Normal(Vec<u8>),
}

pub enum ComponentModel {
    Prefix(Seq<u8>),
    RootDir,
    CurDir,
    ParentDir,
    Normal(Seq<u8>),
}

impl View for PathComponent {
    type V = ComponentModel;

    open spec fn view(&self) -> ComponentModel {
        match *self {
            PathComponent::Prefix(name) => ComponentModel::Prefix(name@),
            PathComponent::RootDir => ComponentModel::RootDir,
            PathComponent::CurDir => ComponentModel::CurDir,
            PathComponent::ParentDir => ComponentModel::ParentDir,
            PathComponent::Normal(name) => ComponentModel::Normal(name@),
        }
    }
}

#[derive(Debug, PartialEq, Eq)]
pub struct LocalPath {
    pub components: Vec<PathComponent>,
}

impl View for LocalPath {
    type V = Seq<ComponentModel>;

    open spec fn view(&self) -> Seq<ComponentModel> {
        self.components@.map_values(|c: PathComponent| c@)
    }
}

/// The path without its last component, unless that is a root or a prefix.
pub open spec fn parent_of(path: Seq<ComponentModel>) -> Option<Seq<ComponentModel>> {
    if path.len() == 0 || path.last() is RootDir || path.last() is Prefix {
        None
    } else {
        Some(path.drop_last())
    }
}

/// The last component, where it is a name.
pub open spec fn file_name_of(path: Seq<ComponentModel>) -> Option<Seq<u8>> {
    if path.len() == 0 {
        None
    } else {
        match path.last() {
            ComponentModel::Normal(name) => Some(name),
            _ => None,
        }
    }
}

/// The path starts at a root, which a prefix may precede.
pub open spec fn absolute(path: Seq<ComponentModel>) -> bool {
    ||| path.len() > 0 && path[0] is RootDir
    ||| path.len() > 1 && path[0] is Prefix && path[1] is RootDir
}

/// `base` is the path itself or one of the directories that it lies in.
pub open spec fn lies_in(path: Seq<ComponentModel>, base: Seq<ComponentModel>) -> bool {
    base.len() <= path.len() && path.take(base.len() as int) == base
}

/// Whether the two byte strings are the same.
pub fn same_bytes(a: &[u8], b: &[u8]) -> (r: bool)
    ensures
        r == (a@ == b@),
{
    if a.len() != b.len() {
        return false;
    }
    let mut i: usize = 0;
    while i < a.len()
        invariant
            i <= a@.len() == b@.len(),
            forall|j: int| 0 <= j < i ==> a@[j] == b@[j],
        decreases a.len() - i,
    {
        if a[i] != b[i] {
            return false;
        }
        i = i + 1;
    }
    assert(a@ =~= b@);
    true
}

/// The same bytes once more.
pub fn copy_bytes(a: &[u8]) -> (r: Vec<u8>)
    ensures
        r@ == a@,
{
    let mut v: Vec<u8> = Vec::new();
    let mut i: usize = 0;
    while i < a.len()
        invariant
            i <= a@.len(),
            v@ == a@.subrange(0, i as int),
        decreases a.len() - i,
    {
        v.push(a[i]);
        i = i + 1;
    }
    v
}

impl PathComponent {
    fn duplicate(&self) -> (r: PathComponent)
        ensures
            r@ == self@,
    {
        match self {
            PathComponent::Prefix(name) => PathComponent::Prefix(copy_bytes(name.as_slice())),
            PathComponent::RootDir => PathComponent::RootDir,
            PathComponent::CurDir => PathComponent::CurDir,
            PathComponent::ParentDir => PathComponent::ParentDir,
            PathComponent::Normal(name) => PathComponent::Normal(copy_bytes(name.as_slice())),
        }
    }

    fn same(&self, other: &PathComponent) -> (r: bool)
        ensures
            r == (self@ == other@),
    {
        match (self, other) {
            (PathComponent::Prefix(a), PathComponent::Prefix(b)) => same_bytes(
                a.as_slice(),
                b.as_slice(),
            ),
            (PathComponent::RootDir, PathComponent::RootDir) => true,
            (PathComponent::CurDir, PathComponent::CurDir) => true,
            (PathComponent::ParentDir, PathComponent::ParentDir) => true,
            (PathComponent::Normal(a), PathComponent::Normal(b)) => same_bytes(
                a.as_slice(),
                b.as_slice(),
            ),
            _ => false,
        }
    }

    /// Whether the component is the name `name`.
    pub fn is_named(&self, name: &str) -> (r: bool)
        ensures
            r == (self@ == ComponentModel::Normal(encode_utf8(name@))),
    {
        match self {
            PathComponent::Normal(bytes) => same_bytes(bytes.as_slice(), name.as_bytes()),
            _ => false,
        }
    }
}

impl LocalPath {
    /// The path of the first `n` components.
    pub fn leading(&self, n: usize) -> (r: LocalPath)
        requires
            n <= self.components@.len(),
        ensures
            r@ == self@.take(n as int),
    {
        let mut components: Vec<PathComponent> = Vec::new();
        let mut i: usize = 0;
        while i < n
            invariant
                i <= n <= self.components@.len(),
                components@.len() == i,
                forall|j: int| 0 <= j < i ==> (#[trigger] components@[j])@ == self.components@[j]@,
            decreases n - i,
        {
            components.push(self.components[i].duplicate());
            i = i + 1;
        }
        LocalPath { components }
    }

    /// The path without its last component, unless that is a root or a prefix.
    pub fn parent(&self) -> (r: Option<LocalPath>)
        ensures
            match r {
                Some(p) => parent_of(self@) == Some(p@),
                None => parent_of(self@) is None,
            },
    {
        let n = self.components.len();
        if n == 0 {
            return None;
        }
        match &self.components[n - 1] {
            PathComponent::Prefix(_) => None,
            PathComponent::RootDir => None,
            _ => {
                assert(self@.take(n - 1) == self@.drop_last());
                Some(self.leading(n - 1))
            },
        }
    }

    /// The same path once more.
    pub fn duplicate(&self) -> (r: LocalPath)
        ensures
            r@ == self@,
    {
        assert(self@.take(self.components@.len() as int) =~= self@);
        self.leading(self.components.len())
    }

    /// Whether the path starts at a root, which a prefix may precede.
    pub fn is_absolute(&self) -> (r: bool)
        ensures
            r == absolute(self@),
    {
        if self.components.len() == 0 {
            return false;
        }
        match &self.components[0] {
            PathComponent::RootDir => true,
            PathComponent::Prefix(_) => self.components.len() > 1 && matches!(
                self.components[1],
                PathComponent::RootDir
            ),
            _ => false,
        }
    }

    /// The last component, where it is a name.
    pub fn file_name(&self) -> (r: Option<Vec<u8>>)
        ensures
            match r {
                Some(name) => file_name_of(self@) == Some(name@),
                None => file_name_of(self@) is None,
            },
    {
        let n = self.components.len();
        if n == 0 {
            return None;
        }
        match &self.components[n - 1] {
            PathComponent::Normal(name) => Some(copy_bytes(name.as_slice())),
            _ => None,
        }
    }

    /// Whether `base` is the path itself or one of the directories that it lies
    /// in.
    pub fn starts_with(&self, base: &LocalPath) -> (r: bool)
        ensures
            r == lies_in(self@, base@),
    {
        if base.components.len() > self.components.len() {
            return false;
        }
        let mut i: usize = 0;
        while i < base.components.len()
            invariant
                i <= base.components@.len() <= self.components@.len(),
                forall|j: int| 0 <= j < i ==> #[trigger] self@[j] == base@[j],
            decreases base.components.len() - i,
        {
            if !self.components[i].same(&base.components[i]) {
                assert(self@.take(base@.len() as int)[i as int] != base@[i as int]);
                return false;
            }
            i = i + 1;
        }
        assert(self@.take(base@.len() as int) =~= base@);
        true
    }
}

/// What stands below a directory lies in it, and so does the directory itself;
/// what lies in a directory stands below it.
pub proof fn law_what_stands_below_lies_in(
    path: Seq<ComponentModel>,
    base: Seq<ComponentModel>,
    rest: Seq<ComponentModel>,
)
    ensures
        lies_in(base + rest, base),
        lies_in(path, base) ==> exists|below: Seq<ComponentModel>| path == #[trigger] (base + below),
{
    assert((base + rest).take(base.len() as int) =~= base);
    if lies_in(path, base) {
        let below = path.skip(base.len() as int);
        assert(path =~= base + below);
    }
}

/// A name below a directory has that directory as its parent, and itself as its
/// file name. What is at the top has no parent.
pub proof fn law_a_name_lies_in_its_parent(dir: Seq<ComponentModel>, name: Seq<u8>)
    ensures
        parent_of(dir.push(ComponentModel::Normal(name))) == Some(dir),
        file_name_of(dir.push(ComponentModel::Normal(name))) == Some(name),
        parent_of(dir.push(ComponentModel::ParentDir)) == Some(dir),
        parent_of(dir.push(ComponentModel::CurDir)) == Some(dir),
        file_name_of(dir.push(ComponentModel::ParentDir)) is None,
        file_name_of(dir.push(ComponentModel::CurDir)) is None,
        file_name_of(dir.push(ComponentModel::RootDir)) is None,
        file_name_of(dir.push(ComponentModel::Prefix(name))) is None,
        parent_of(dir.push(ComponentModel::RootDir)) is None,
        parent_of(dir.push(ComponentModel::Prefix(name))) is None,
        parent_of(Seq::empty()) is None,
        file_name_of(Seq::empty()) is None,
{
    assert(dir.push(ComponentModel::Normal(name)).drop_last() =~= dir);
    assert(dir.push(ComponentModel::ParentDir).drop_last() =~= dir);
    assert(dir.push(ComponentModel::CurDir).drop_last() =~= dir);
}

/// A path is absolute where it starts with the root, or with a prefix and the root.
pub proof fn law_absolute_paths_start_at_the_root(prefix: Seq<u8>, rest: Seq<ComponentModel>)
    ensures
        absolute(seq![ComponentModel::RootDir] + rest),
        absolute(seq![ComponentModel::Prefix(prefix), ComponentModel::RootDir] + rest),
        absolute(seq![ComponentModel::Prefix(prefix)] + rest) ==> rest.len() > 0
            && rest[0] is RootDir,
        absolute(rest) ==> rest.len() > 0 && (rest[0] is RootDir || rest[0] is Prefix),
{
}

} // verus!
