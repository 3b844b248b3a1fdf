//! What the copies of a plan do to the files of a store.
//!
//! The files are modelled as a mapping from the text of a path to the bytes
//! of the file at that path: two files are the same file exactly when their
//! paths are the same text. Folders are not modelled.

use crate::plan::CopyStepView;
use vstd::prelude::*;

verus! {

/// The files of a store: the bytes of each, by its path.
pub type Files = Map<Seq<char>, Seq<u8>>;

/// The files after one copy was made: the target holds what the source
/// holds, and every other file is as it was.
pub open spec fn copied(files: Files, step: CopyStepView) -> Files {
    files.insert(step.to, files[step.from])
}

/// The files after the copies were made one after another.
pub open spec fn materialized(files: Files, steps: Seq<CopyStepView>) -> Files
    decreases steps.len(),
{
    if steps.len() == 0 {
        files
    } else {
        copied(materialized(files, steps.drop_last()), steps.last())
    }
}

/// Whether the source of every copy is among the files.
pub open spec fn sources_exist(files: Files, steps: Seq<CopyStepView>) -> bool {
    forall|i: int| 0 <= i < steps.len() ==> files.dom().contains((#[trigger] steps[i]).from)
}

/// Whether no copy writes a file that a copy reads.
pub open spec fn sources_kept(steps: Seq<CopyStepView>) -> bool {
    forall|i: int, j: int|
        0 <= i < steps.len() && 0 <= j < steps.len() ==> (#[trigger] steps[i]).to != (
        #[trigger] steps[j]).from
}

/// Whether no two copies write the same file.
pub open spec fn targets_distinct(steps: Seq<CopyStepView>) -> bool {
    forall|i: int, j: int|
        0 <= i < j < steps.len() ==> (#[trigger] steps[i]).to != (#[trigger] steps[j]).to
}

/// The position of the last copy that writes `path`, or -1 where none does.
pub open spec fn last_write(steps: Seq<CopyStepView>, path: Seq<char>) -> int
    decreases steps.len(),
{
    if steps.len() == 0 {
        -1
    } else if steps.last().to == path {
        steps.len() - 1
    } else {
        last_write(steps.drop_last(), path)
    }
}

/// [`last_write`] is where it says: the copy there writes `path` and none
/// after it does, and it is -1 exactly where no copy writes `path`.
pub proof fn lemma_last_write(steps: Seq<CopyStepView>, path: Seq<char>)
    ensures
        -1 <= last_write(steps, path) < steps.len(),
        last_write(steps, path) >= 0 ==> steps[last_write(steps, path)].to == path,
        forall|k: int| last_write(steps, path) < k < steps.len() ==> (#[trigger] steps[k]).to != path,
    decreases steps.len(),
{
    if steps.len() > 0 && steps.last().to != path {
        let front = steps.drop_last();
        lemma_last_write(front, path);
        assert forall|k: int| last_write(steps, path) < k < steps.len() implies (
        #[trigger] steps[k]).to != path by {
            if k < front.len() {
                assert(front[k] == steps[k]);
            }
        }
    }
}

/// What a file holds after the copies, where no copy writes what a copy
/// reads: a file that some copy writes holds what the source of the last
/// such copy held before, and any other file is as it was.
pub proof fn lemma_materialized_at(files: Files, steps: Seq<CopyStepView>, path: Seq<char>)
    requires
        sources_kept(steps),
    ensures
        materialized(files, steps).dom().contains(path) <==> (last_write(steps, path) >= 0
            || files.dom().contains(path)),
        materialized(files, steps)[path] == if last_write(steps, path) >= 0 {
            files[steps[last_write(steps, path)].from]
        } else {
            files[path]
        },
    decreases steps.len(),
{
    if steps.len() > 0 {
        let front = steps.drop_last();
        let last = steps.last();
        assert(sources_kept(front)) by {
            assert forall|i: int, j: int|
                0 <= i < front.len() && 0 <= j < front.len() implies (#[trigger] front[i]).to != (
            #[trigger] front[j]).from by {
                assert(steps[i].to != steps[j].from);
            }
        }
        lemma_materialized_at(files, front, path);
        lemma_materialized_at(files, front, last.from);
        lemma_last_write(front, last.from);
        if last_write(front, last.from) >= 0 {
            let w = last_write(front, last.from);
            assert(steps[w].to != steps[steps.len() - 1].from);
            assert(front[w] == steps[w]);
        }
        if last.to != path {
            lemma_last_write(front, path);
            if last_write(front, path) >= 0 {
                assert(front[last_write(front, path)] == steps[last_write(front, path)]);
            }
        }
    }
}

/// Where the sources exist, no copy writes what a copy reads and no two
/// copies write the same file, every target holds after the copies what its
/// source holds, and every source holds what it held before.
pub proof fn law_copies_are_faithful(files: Files, steps: Seq<CopyStepView>)
    requires
        sources_exist(files, steps),
        sources_kept(steps),
        targets_distinct(steps),
    ensures
        forall|i: int|
            #![trigger steps[i]]
            0 <= i < steps.len() ==> {
                &&& materialized(files, steps).dom().contains(steps[i].to)
                &&& materialized(files, steps).dom().contains(steps[i].from)
                &&& materialized(files, steps)[steps[i].to] == files[steps[i].from]
                &&& materialized(files, steps)[steps[i].from] == files[steps[i].from]
            },
{
    assert forall|i: int| #![trigger steps[i]] 0 <= i < steps.len() implies {
        &&& materialized(files, steps).dom().contains(steps[i].to)
        &&& materialized(files, steps).dom().contains(steps[i].from)
        &&& materialized(files, steps)[steps[i].to] == files[steps[i].from]
        &&& materialized(files, steps)[steps[i].from] == files[steps[i].from]
    } by {
        let to = steps[i].to;
        let from = steps[i].from;
        lemma_materialized_at(files, steps, to);
        lemma_materialized_at(files, steps, from);
        lemma_last_write(steps, to);
        lemma_last_write(steps, from);
        let w = last_write(steps, to);
        assert(w == i) by {
            if w < i {
                assert(steps[i].to == to);
            } else if i < w {
                assert(steps[i].to != steps[w].to);
            }
        }
        if last_write(steps, from) >= 0 {
            assert(steps[last_write(steps, from)].to != steps[i].from);
        }
    }
}

/// Making the copies a second time changes nothing, where no copy writes
/// what a copy reads: every file holds after the second round what it held
/// after the first, and no file is there that was not.
pub proof fn law_materializing_again_changes_nothing(files: Files, steps: Seq<CopyStepView>)
    requires
        sources_kept(steps),
    ensures
        materialized(materialized(files, steps), steps) == materialized(files, steps),
{
    let once = materialized(files, steps);
    let twice = materialized(once, steps);
    assert forall|path: Seq<char>| #[trigger]
        twice.dom().contains(path) == once.dom().contains(path) && (once.dom().contains(path)
            ==> twice[path] == once[path]) by {
        lemma_materialized_at(files, steps, path);
        lemma_materialized_at(once, steps, path);
        lemma_last_write(steps, path);
        let w = last_write(steps, path);
        if w >= 0 {
            let from = steps[w].from;
            lemma_materialized_at(files, steps, from);
            lemma_last_write(steps, from);
            if last_write(steps, from) >= 0 {
                assert(steps[last_write(steps, from)].to != steps[w].from);
            }
        }
    }
    assert(twice =~= once);
}

} // verus!
