//! Names and paths.

use crate::error::ApfsError;
use crate::reader::container::Container;
use crate::types::filesystem::{
    OwnedDirectoryEntryRecord, SnapshotMetadataRecord, INODE_ROOT_DIRECTORY,
};
use vstd::prelude::*;
use vstd::string::*;

verus! {

/// A record that is looked up by its name.
pub trait Named: Sized {
    /// The name.
    spec fn spec_name(&self) -> Seq<char>;

    /// Returns whether this is the name of the record.
    fn is_named(&self, name: &String) -> (same: bool)
        ensures
            same == (self.spec_name() == name@),
    ;
}

impl Named for OwnedDirectoryEntryRecord {
    open spec fn spec_name(&self) -> Seq<char> {
        self.name@
    }

    fn is_named(&self, name: &String) -> (same: bool) {
        self.name == *name
    }
}

impl Named for SnapshotMetadataRecord {
    open spec fn spec_name(&self) -> Seq<char> {
        self.name@
    }

    fn is_named(&self, name: &String) -> (same: bool) {
        self.name == *name
    }
}

/// The first record of this name.
pub open spec fn named<T: Named>(records: Seq<T>, name: Seq<char>) -> Option<T> {
    crate::search::first_where(records, |record: T| record.spec_name() == name)
}

/// Finds a record by name. The first record of the name counts.
fn find_named<T: Named>(records: Vec<T>, name: &str) -> (found: Option<T>)
    ensures
        found == named(records@, name@),
{
    let wanted_name: String = name.to_owned();
    let ghost wanted = |record: T| record.spec_name() == name@;
    let mut i: usize = 0;
    while i < records.len() && !records[i].is_named(&wanted_name)
        invariant
            i <= records@.len(),
            wanted_name@ == name@,
            wanted == (|record: T| record.spec_name() == name@),
            forall|j: int| 0 <= j < i ==> !wanted(#[trigger] records@[j]),
        decreases records@.len() - i,
    {
        i = i + 1;
    }
    proof {
        crate::search::lemma_first_where(records@, wanted, i as int);
    }
    let mut records = records;
    if i < records.len() {
        Some(records.swap_remove(i))
    } else {
        None
    }
}

/// The parts of a path between its slashes.
pub open spec fn parts(path: Seq<char>) -> Seq<Seq<char>>
    decreases path.len(),
{
    if path.len() == 0 {
        seq![Seq::empty()]
    } else {
        let before = parts(path.drop_last());
        if path.last() == '/' {
            before.push(Seq::empty())
        } else {
            before.drop_last().push(before.last().push(path.last()))
        }
    }
}

/// Whether a part of a path names anything.
pub open spec fn names_something() -> spec_fn(Seq<char>) -> bool {
    |part: Seq<char>| part.len() > 0
}

/// The names in a path: its parts that are not empty.
pub open spec fn components(path: Seq<char>) -> Seq<Seq<char>> {
    parts(path).filter(names_something())
}

/// The text of several strings.
pub open spec fn texts(strings: Seq<String>) -> Seq<Seq<char>> {
    strings.map_values(|string: String| string@)
}

/// A path has at least one part.
proof fn lemma_parts_nonempty(path: Seq<char>)
    ensures
        parts(path).len() > 0,
    decreases path.len(),
{
    if path.len() > 0 {
        lemma_parts_nonempty(path.drop_last());
    }
}

/// Ends the current part of a path: it is a name when it is not empty.
fn end_part(found: &mut Vec<String>, path: &str, start: usize, end: usize)
    requires
        start <= end <= path@.len(),
    ensures
        texts(final(found)@) == (if start < end {
            texts(old(found)@).push(path@.subrange(start as int, end as int))
        } else {
            texts(old(found)@)
        }),
{
    if start < end {
        let name: String = path.substring_char(start, end).to_owned();
        let ghost before = found@;
        found.push(name);
        assert(texts(found@) =~= texts(before).push(name@));
    }
}

/// Splits a path into its names.
pub fn path_components(path: &str) -> (found: Vec<String>)
    ensures
        texts(found@) == components(path@),
{
    let mut found: Vec<String> = Vec::new();
    let mut start: usize = 0;
    let mut end: usize = 0;
    let length: usize = path.unicode_len();
    proof {
        reveal(Seq::filter);
        assert(path@.take(0) =~= Seq::empty());
        assert(parts(path@.take(0)).drop_last() =~= Seq::empty());
        assert(texts(found@) =~= Seq::empty());
        assert(path@.subrange(0, 0) =~= Seq::empty());
    }
    for c in it: path.chars()
        invariant
            length == path@.len(),
            it.seq() == path@,
            end == it.index(),
            start <= end <= length,
            parts(path@.take(end as int)).len() > 0,
            parts(path@.take(end as int)).last() == path@.subrange(start as int, end as int),
            texts(found@) == parts(path@.take(end as int)).drop_last().filter(names_something()),
    {
        let ghost here = path@.take(end as int);
        let ghost next = path@.take(end + 1);
        proof {
            assert(next.drop_last() =~= here);
            assert(next.last() == c);
            lemma_parts_nonempty(next);
        }
        if c == '/' {
            end_part(&mut found, path, start, end);
            proof {
                reveal(Seq::filter);
                assert(parts(next).drop_last() =~= parts(here));
                assert(path@.subrange(end + 1, end + 1) =~= Seq::empty());
            }
            end = end + 1;
            start = end;
        } else {
            proof {
                assert(parts(next).drop_last() =~= parts(here).drop_last());
                assert(path@.subrange(start as int, end + 1) =~= path@.subrange(
                    start as int,
                    end as int,
                ).push(c));
            }
            end = end + 1;
        }
    }
    end_part(&mut found, path, start, end);
    proof {
        reveal(Seq::filter);
        assert(path@.take(end as int) =~= path@);
    }
    found
}

/// A walk down the directories that a path names.
pub struct PathWalk {
    components: Vec<String>,
    next: usize,
    directory: u64,
    current: Option<OwnedDirectoryEntryRecord>,
}

/// What a [`PathWalk`] holds.
#[verifier::ext_equal]
pub struct PathWalkView {
    /// The names that are left.
    pub remaining: Seq<Seq<char>>,
    /// The directory to look for the next one in.
    pub directory: u64,
    /// The entry that was found last.
    pub current: Option<OwnedDirectoryEntryRecord>,
}

impl View for PathWalk {
    type V = PathWalkView;

    closed spec fn view(&self) -> PathWalkView {
        PathWalkView {
            remaining: texts(self.components@.skip(self.next as int)),
            directory: self.directory,
            current: self.current,
        }
    }
}

/// Where a walk down a path stands.
pub enum PathStep {
    /// The walk wants an entry of a directory.
    Find {
        /// Inode identifier of the directory.
        directory: u64,
        /// Name of the entry.
        name: String,
        /// What goes on when it is handed what was found.
        walk: PathWalk,
    },
    /// The walk is over.
    Done(Result<Option<OwnedDirectoryEntryRecord>, ApfsError>),
}

/// What a [`PathStep`] holds.
#[verifier::ext_equal]
pub enum PathStepView {
    /// The walk wants an entry of a directory.
    Find {
        /// Inode identifier of the directory.
        directory: u64,
        /// Name of the entry.
        name: Seq<char>,
        /// The walk itself.
        walk: PathWalkView,
    },
    /// The walk is over.
    Done(Result<Option<OwnedDirectoryEntryRecord>, ApfsError>),
}

impl View for PathStep {
    type V = PathStepView;

    open spec fn view(&self) -> PathStepView {
        match self {
            PathStep::Find { directory, name, walk } => PathStepView::Find {
                directory: *directory,
                name: name@,
                walk: walk@,
            },
            PathStep::Done(result) => PathStepView::Done(*result),
        }
    }
}

/// What a walk does next.
pub open spec fn path_walk_step(walk: PathWalkView) -> PathStepView {
    if walk.remaining.len() > 0 {
        PathStepView::Find { directory: walk.directory, name: walk.remaining[0], walk }
    } else {
        PathStepView::Done(Ok(walk.current))
    }
}

/// How a walk down `path` starts: in the root directory.
pub open spec fn path_walk_start(path: Seq<char>) -> PathStepView {
    path_walk_step(
        PathWalkView {
            remaining: components(path),
            directory: INODE_ROOT_DIRECTORY,
            current: None,
        },
    )
}

/// What a walk does when it is handed what was found.
pub open spec fn path_walk_resume(
    walk: PathWalkView,
    found: Result<Option<OwnedDirectoryEntryRecord>, ApfsError>,
) -> PathStepView {
    match found {
        Err(error) => PathStepView::Done(Err(error)),
        Ok(None) => PathStepView::Done(Ok(None)),
        Ok(Some(entry)) => path_walk_step(
            PathWalkView {
                remaining: walk.remaining.drop_first(),
                directory: entry.file_id,
                current: Some(entry),
            },
        ),
    }
}

impl PathWalk {
    /// Whether the walk waits for an entry.
    pub closed spec fn wf(&self) -> bool {
        self.next < self.components.len()
    }

    fn step(self) -> (step: PathStep)
        requires
            self.next <= self.components@.len(),
        ensures
            step@ == path_walk_step(self@),
            step matches PathStep::Find { walk, .. } ==> walk.wf(),
    {
        if self.next < self.components.len() {
            let name: String = self.components[self.next].clone();
            PathStep::Find { directory: self.directory, name, walk: self }
        } else {
            PathStep::Done(Ok(self.current))
        }
    }

    /// Goes on with what was found.
    pub fn resume(self, found: Result<Option<OwnedDirectoryEntryRecord>, ApfsError>) -> (step:
        PathStep)
        requires
            self.wf(),
        ensures
            step@ == path_walk_resume(self@, found),
            step matches PathStep::Find { walk, .. } ==> walk.wf(),
    {
        let entry = match found {
            Err(error) => return PathStep::Done(Err(error)),
            Ok(None) => return PathStep::Done(Ok(None)),
            Ok(Some(entry)) => entry,
        };
        let ghost before = self.components@.skip(self.next as int);
        let mut walk = self;
        walk.next = walk.next + 1;
        walk.directory = entry.file_id;
        walk.current = Some(entry);
        assert(texts(walk.components@.skip(walk.next as int)) =~= texts(before).drop_first());
        walk.step()
    }
}

impl<D> Container<D> {
    /// Resolves a slash-separated path from the volume root directory.
    pub fn resolve_path(&self, path: &str) -> (step: PathStep)
        ensures
            step@ == path_walk_start(path@),
            step matches PathStep::Find { walk, .. } ==> walk.wf(),
    {
        let components = path_components(path);
        assert(components@.skip(0) =~= components@);
        PathWalk { components, next: 0, directory: INODE_ROOT_DIRECTORY, current: None }.step()
    }

    /// Finds an owned entry by name in a directory inode.
    pub fn directory_owned_entry(
        &self,
        entries: Vec<OwnedDirectoryEntryRecord>,
        name: &str,
    ) -> (found: Option<OwnedDirectoryEntryRecord>)
        ensures
            found == named(entries@, name@),
    {
        find_named(entries, name)
    }

    /// Finds a volume snapshot by name.
    pub fn find_volume_snapshot(
        &self,
        snapshots: Vec<SnapshotMetadataRecord>,
        name: &str,
    ) -> (found: Option<SnapshotMetadataRecord>)
        ensures
            found == named(snapshots@, name@),
    {
        find_named(snapshots, name)
    }
}

} // verus!
