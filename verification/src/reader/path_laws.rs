//! What a path leads to.

use crate::error::ApfsError;
use crate::reader::path::{PathStep, PathStepView, PathWalkView};
use crate::types::filesystem::{OwnedDirectoryEntryRecord, INODE_ROOT_DIRECTORY};
use vstd::prelude::*;

verus! {

/// The parts of two paths with a slash between them are the parts of both.
proof fn lemma_parts_of_joined(left: Seq<char>, right: Seq<char>)
    ensures
        crate::reader::path::parts(left + seq!['/'] + right) == crate::reader::path::parts(left)
            + crate::reader::path::parts(right),
        crate::reader::path::parts(right).len() > 0,
    decreases right.len(),
{
    let joined = left + seq!['/'] + right;
    let left_parts = crate::reader::path::parts(left);
    if right.len() == 0 {
        assert(joined.drop_last() =~= left);
        assert(left_parts.push(Seq::empty()) =~= left_parts + seq![Seq::empty()]);
    } else {
        lemma_parts_of_joined(left, right.drop_last());
        assert(joined.drop_last() =~= left + seq!['/'] + right.drop_last());
        let before = crate::reader::path::parts(right.drop_last());
        let both = left_parts + before;
        if right.last() == '/' {
            assert(both.push(Seq::empty()) =~= left_parts + before.push(Seq::empty()));
        } else {
            let last = before.last().push(right.last());
            assert(both.drop_last().push(last) =~= left_parts + before.drop_last().push(last));
        }
    }
}

/// A slash separates names and does nothing else: the names in two paths with
/// a slash between them are the names in the first, then those in the second.
/// So slashes at the start, at the end or one after another make no
/// difference.
pub proof fn law_slash_separates(left: Seq<char>, right: Seq<char>)
    ensures
        crate::reader::path::components(left + seq!['/'] + right)
            == crate::reader::path::components(left) + crate::reader::path::components(right),
{
    lemma_parts_of_joined(left, right);
    Seq::filter_distributes_over_add(
        crate::reader::path::parts(left),
        crate::reader::path::parts(right),
        crate::reader::path::names_something(),
    );
}

/// What descending by `names` from a directory leads to, when looking up a
/// name in a directory always gives what `tree` says. `current` is what led to
/// the directory.
pub open spec fn descend(
    tree: spec_fn(u64, Seq<char>) -> Option<OwnedDirectoryEntryRecord>,
    directory: u64,
    current: Option<OwnedDirectoryEntryRecord>,
    names: Seq<Seq<char>>,
) -> Option<OwnedDirectoryEntryRecord>
    decreases names.len(),
{
    if names.len() == 0 {
        current
    } else {
        match tree(directory, names[0]) {
            None => None,
            Some(entry) => descend(tree, entry.file_id, Some(entry), names.drop_first()),
        }
    }
}

/// Where a walk down a path stands after `finds` more lookups, or where it
/// ended before that.
pub open spec fn path_run(
    step: PathStepView,
    tree: spec_fn(u64, Seq<char>) -> Option<OwnedDirectoryEntryRecord>,
    finds: nat,
) -> PathStepView
    decreases finds,
{
    match step {
        PathStepView::Done(_) => step,
        PathStepView::Find { directory, name, walk } => if finds == 0 {
            step
        } else {
            path_run(
                crate::reader::path::path_walk_resume(walk, Ok(tree(directory, name))),
                tree,
                (finds - 1) as nat,
            )
        },
    }
}

/// How a walk down a path ends from its middle.
proof fn lemma_path_walk(
    walk: PathWalkView,
    tree: spec_fn(u64, Seq<char>) -> Option<OwnedDirectoryEntryRecord>,
)
    ensures
        path_run(crate::reader::path::path_walk_step(walk), tree, walk.remaining.len())
            == PathStepView::Done(
            Ok(descend(tree, walk.directory, walk.current, walk.remaining)),
        ),
    decreases walk.remaining.len(),
{
    reveal_with_fuel(path_run, 2);
    if walk.remaining.len() > 0 {
        if let Some(entry) = tree(walk.directory, walk.remaining[0]) {
            lemma_path_walk(
                PathWalkView {
                    remaining: walk.remaining.drop_first(),
                    directory: entry.file_id,
                    current: Some(entry),
                },
                tree,
            );
        }
    }
}

/// In a tree that does not change, resolving a path descends from the root
/// directory by one name after the other. A path without names leads to
/// nothing, and so does one with a name that is not there.
pub proof fn law_path_resolution_descends(
    path: Seq<char>,
    tree: spec_fn(u64, Seq<char>) -> Option<OwnedDirectoryEntryRecord>,
)
    ensures
        path_run(
            crate::reader::path::path_walk_start(path),
            tree,
            crate::reader::path::components(path).len(),
        ) == PathStepView::Done(
            Ok(
                descend(
                    tree,
                    2,
                    None,
                    crate::reader::path::components(path),
                ),
            ),
        ),
{
    lemma_path_walk(
        PathWalkView {
            remaining: crate::reader::path::components(path),
            directory: INODE_ROOT_DIRECTORY,
            current: None,
        },
        tree,
    );
}

/// To descend by one list of names and then by another is to descend by both.
pub proof fn law_descents_compose(
    tree: spec_fn(u64, Seq<char>) -> Option<OwnedDirectoryEntryRecord>,
    directory: u64,
    current: Option<OwnedDirectoryEntryRecord>,
    first: Seq<Seq<char>>,
    second: Seq<Seq<char>>,
)
    requires
        first.len() > 0,
    ensures
        descend(tree, directory, current, first + second) == match descend(
            tree,
            directory,
            current,
            first,
        ) {
            None => None,
            Some(entry) => descend(tree, entry.file_id, Some(entry), second),
        },
    decreases first.len(),
{
    assert((first + second).drop_first() =~= first.drop_first() + second);
    if let Some(entry) = tree(directory, first[0]) {
        if first.len() > 1 {
            law_descents_compose(tree, entry.file_id, Some(entry), first.drop_first(), second);
        } else {
            assert(first.drop_first() + second =~= second);
        }
    }
}

/// No part of a path holds a slash.
proof fn lemma_parts_hold_no_slash(path: Seq<char>)
    ensures
        forall|i: int|
            0 <= i < crate::reader::path::parts(path).len() ==> !(
            #[trigger] crate::reader::path::parts(path)[i]).contains('/'),
        crate::reader::path::parts(path).len() > 0,
    decreases path.len(),
{
    let all = crate::reader::path::parts(path);
    if path.len() > 0 {
        let before = crate::reader::path::parts(path.drop_last());
        lemma_parts_hold_no_slash(path.drop_last());
        assert forall|i: int| 0 <= i < all.len() implies !(#[trigger] all[i]).contains('/') by {
            if path.last() != '/' && i == all.len() - 1 {
                let last = before[before.len() - 1];
                assert(!last.contains('/'));
                assert(all[i] == last.push(path.last()));
                assert forall|j: int| 0 <= j < all[i].len() implies all[i][j] != '/' by {
                    if j < last.len() {
                        assert(last.contains(last[j]));
                    }
                }
            } else if i < before.len() {
                assert(all[i] == before[i]);
            }
        }
    }
}

/// The names in a path are not empty and hold no slash.
pub proof fn law_names_are_proper(path: Seq<char>, i: int)
    requires
        0 <= i < crate::reader::path::components(path).len(),
    ensures
        crate::reader::path::components(path)[i].len() > 0,
        !crate::reader::path::components(path)[i].contains('/'),
{
    let parts = crate::reader::path::parts(path);
    let keep = crate::reader::path::names_something();
    let name = crate::reader::path::components(path)[i];
    lemma_parts_hold_no_slash(path);
    parts.lemma_filter_pred(keep, i);
    assert(parts.filter(keep).contains(name));
    parts.lemma_filter_contains_rev(keep, name);
    let j = parts.index_of(name);
    assert(parts[j] == name);
}

/// A text without a slash is one part.
proof fn lemma_one_part(name: Seq<char>)
    requires
        !name.contains('/'),
    ensures
        crate::reader::path::parts(name) == seq![name],
    decreases name.len(),
{
    if name.len() > 0 {
        let front = name.drop_last();
        assert(!front.contains('/')) by {
            if front.contains('/') {
                let i = choose|i: int| 0 <= i < front.len() && front[i] == '/';
                assert(name[i] == '/');
            }
        }
        assert(name[name.len() - 1] != '/') by {
            assert(name.contains(name[name.len() - 1]));
        }
        lemma_one_part(front);
        assert(seq![front].drop_last().push(front.push(name.last())) =~= seq![name]) by {
            assert(front.push(name.last()) =~= name);
        }
    } else {
        assert(name =~= Seq::empty());
    }
}

/// A text without a slash that is not empty is a path of one name, itself,
/// whatever its characters are; the empty text has no names. With what a slash
/// does this fixes the names of every path.
pub proof fn law_plain_names_are_kept(name: Seq<char>)
    requires
        !name.contains('/'),
    ensures
        name.len() > 0 ==> crate::reader::path::components(name) == seq![name],
        name.len() == 0 ==> crate::reader::path::components(name) == Seq::<Seq<char>>::empty(),
{
    lemma_one_part(name);
    reveal_with_fuel(Seq::filter, 2);
    assert(seq![name].drop_last() =~= Seq::<Seq<char>>::empty());
    if name.len() > 0 {
        assert(crate::reader::path::components(name) =~= seq![name]);
    } else {
        assert(crate::reader::path::components(name) =~= Seq::<Seq<char>>::empty());
    }
}

/// How a path is resolved, in a tree that does not change. A path of one name
/// leads to what the root directory, which is inode 2, has under that name. A
/// path with one more name leads to what the directory that the rest of it
/// leads to has under that name, and to nothing when the rest leads to
/// nothing.
pub proof fn law_each_name_is_looked_up_in_the_directory_before_it(
    rest: Seq<char>,
    name: Seq<char>,
    tree: spec_fn(u64, Seq<char>) -> Option<OwnedDirectoryEntryRecord>,
)
    requires
        name.len() > 0,
        !name.contains('/'),
    ensures
        path_run(crate::reader::path::path_walk_start(name), tree, 1) == PathStepView::Done(
            Ok(tree(2, name)),
        ),
        crate::reader::path::components(rest).len() > 0 ==> {
            let count = crate::reader::path::components(rest).len();
            match path_run(crate::reader::path::path_walk_start(rest), tree, count) {
                PathStepView::Done(Ok(found)) => path_run(
                    crate::reader::path::path_walk_start(rest + seq!['/'] + name),
                    tree,
                    count + 1,
                ) == PathStepView::Done(
                    Ok(
                        match found {
                            Some(entry) => tree(entry.file_id, name),
                            None => None,
                        },
                    ),
                ),
                _ => false,
            }
        },
{
    law_plain_names_are_kept(name);
    law_path_resolution_descends(name, tree);
    reveal_with_fuel(descend, 2);
    let one = seq![name];
    assert(one.drop_first() =~= Seq::<Seq<char>>::empty());
    let names = crate::reader::path::components(rest);
    if names.len() > 0 {
        law_slash_separates(rest, name);
        law_path_resolution_descends(rest, tree);
        law_path_resolution_descends(rest + seq!['/'] + name, tree);
        law_descents_compose(tree, INODE_ROOT_DIRECTORY, None, names, one);
        assert((names + one).len() == names.len() + 1);
    }
}

/// A path without names leads to nothing, without a look at any directory; a
/// failed lookup ends a resolution with its error, and a name that is not there
/// ends it with nothing.
pub proof fn law_resolutions_that_end_early(
    path: Seq<char>,
    walk: PathWalkView,
    error: ApfsError,
)
    ensures
        crate::reader::path::components(path).len() == 0 ==> crate::reader::path::path_walk_start(
            path,
        ) == PathStepView::Done(Ok(None)),
        crate::reader::path::path_walk_resume(walk, Err(error)) == PathStepView::Done(Err(error)),
        crate::reader::path::path_walk_resume(walk, Ok(None)) == PathStepView::Done(Ok(None)),
{
}

/// What is found under a name has that name, and no record before it has it;
/// nothing is found only when no record has the name.
pub proof fn law_names_are_found_exactly<T: crate::reader::path::Named>(
    records: Seq<T>,
    name: Seq<char>,
)
    ensures
        match crate::reader::path::named(records, name) {
            Some(record) => exists|i: int|
                {
                    &&& 0 <= i < records.len()
                    &&& #[trigger] records[i] == record
                    &&& record.spec_name() == name
                    &&& forall|j: int| 0 <= j < i ==> (#[trigger] records[j]).spec_name() != name
                },
            None => forall|j: int|
                0 <= j < records.len() ==> (#[trigger] records[j]).spec_name() != name,
        },
    decreases records.len(),
{
    if records.len() > 0 && records[0].spec_name() != name {
        let rest = records.drop_first();
        law_names_are_found_exactly(rest, name);
        if let Some(record) = crate::reader::path::named(rest, name) {
            let i = choose|i: int|
                {
                    &&& 0 <= i < rest.len()
                    &&& #[trigger] rest[i] == record
                    &&& record.spec_name() == name
                    &&& forall|j: int| 0 <= j < i ==> (#[trigger] rest[j]).spec_name() != name
                };
            assert(records[i + 1] == record);
            assert forall|j: int| 0 <= j < i + 1 implies (#[trigger] records[j]).spec_name()
                != name by {
                if j > 0 {
                    assert(records[j] == rest[j - 1]);
                }
            }
            assert(crate::reader::path::named(records, name) == Some(record));
        } else {
            assert forall|j: int| 0 <= j < records.len() implies (
            #[trigger] records[j]).spec_name() != name by {
                if j > 0 {
                    assert(records[j] == rest[j - 1]);
                }
            }
        }
    } else if records.len() > 0 {
        assert(crate::reader::path::named(records, name) == Some(records[0]));
    }
}

/// Directory entries and snapshots are named by their name field.
pub proof fn law_record_names(
    entry: OwnedDirectoryEntryRecord,
    snapshot: crate::types::filesystem::SnapshotMetadataRecord,
)
    ensures
        crate::reader::path::Named::spec_name(&entry) == entry.name@,
        crate::reader::path::Named::spec_name(&snapshot) == snapshot.name@,
{
}

/// A step is shown as it is: the directory and the name that are wanted, or the
/// result.
pub proof fn law_path_steps_are_shown_whole(step: PathStep)
    ensures
        match step {
            PathStep::Find { directory, name, walk } => step@ == (PathStepView::Find {
                directory,
                name: name@,
                walk: walk@,
            }),
            PathStep::Done(result) => step@ == PathStepView::Done(result),
        },
{
}

} // verus!
