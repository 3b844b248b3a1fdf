//! What materialising one package comes to: one copy for each entry of its
//! manifest.

use crate::data::{distinct_paths, Entries, Index, ObjectView};
use crate::layout::{
    files_name, lemma_object_path_shape, lemma_output_path_shape, object_path, objects_prefix,
    output_path, output_path_of, resolve, shard, under,
};
use crate::path::{is_absolute, is_component};
use crate::store::{sources_kept, targets_distinct};
use vstd::prelude::*;

verus! {

/// What a [`CopyStep`] is, as plain mathematical values.
pub struct CopyStepView {
    pub from: Seq<char>,
    pub to: Seq<char>,
}

/// One copy: the full contents of the file `from` become the contents of the
/// file `to`, which is overwritten where it exists.
#[derive(Debug, PartialEq, Eq)]
pub struct CopyStep {
    pub from: String,
    pub to: String,
}

impl View for CopyStep {
    type V = CopyStepView;

    open spec fn view(&self) -> CopyStepView {
        CopyStepView { from: self.from@, to: self.to@ }
    }
}

impl DeepView for CopyStep {
    type V = CopyStepView;

    open spec fn deep_view(&self) -> CopyStepView {
        self@
    }
}

/// The copy that an entry of the manifest of `package` asks for: from the
/// blob that its hash names to the file that its logical path names.
pub open spec fn step_of(root: Seq<char>, package: Seq<char>, entry: (Seq<char>, ObjectView))
    -> CopyStepView {
    CopyStepView {
        from: object_path(root, entry.1.hash),
        to: output_path(root, package, entry.0),
    }
}

/// The copies that a manifest asks for: one for each entry, in the order of
/// the entries.
pub open spec fn plan_of(root: Seq<char>, package: Seq<char>, entries: Entries) -> Seq<
    CopyStepView,
> {
    Seq::new(entries.len(), |i: int| step_of(root, package, entries[i]))
}

/// Plans the materialisation of `package` from its manifest `index` under
/// `root`: the copies to make, in order. The number of copies is the number
/// of entries.
pub fn materialize(root: &str, index: &Index, package: &str) -> (steps: Vec<CopyStep>)
    ensures
        steps.deep_view() == plan_of(root@, package@, index.entries()),
        steps.len() == index.entries().len(),
        forall|i: int|
            0 <= i < steps.len() ==> (#[trigger] steps[i])@ == step_of(
                root@,
                package@,
                index.entries()[i],
            ),
{
    let objects = index.objects();
    let mut steps: Vec<CopyStep> = Vec::new();
    let mut i: usize = 0;
    while i < objects.len()
        invariant
            i <= objects.len(),
            objects.deep_view() == index.entries(),
            steps.len() == i,
            forall|k: int|
                0 <= k < i ==> (#[trigger] steps[k])@ == step_of(
                    root@,
                    package@,
                    index.entries()[k],
                ),
        decreases objects.len() - i,
    {
        assert(objects.deep_view()[i as int] == (objects[i as int].0@, objects[i as int].1@));
        let from = resolve(root, objects[i].1.hash());
        let to = output_path_of(root, package, objects[i].0.as_str());
        steps.push(CopyStep { from, to });
        i = i + 1;
    }
    assert(steps.deep_view() =~= plan_of(root@, package@, index.entries()));
    steps
}

/// Whether none of the logical paths is absolute.
pub open spec fn all_relative(entries: Entries) -> bool {
    forall|i: int| 0 <= i < entries.len() ==> !is_absolute((#[trigger] entries[i]).0)
}

/// Where the package is one component and no logical path is absolute, no
/// copy of the plan writes a blob: every target lies under `files`, every
/// source under `objects`.
pub proof fn lemma_plan_keeps_sources(root: Seq<char>, package: Seq<char>, entries: Entries)
    requires
        is_component(package),
        all_relative(entries),
    ensures
        sources_kept(plan_of(root, package, entries)),
{
    let plan = plan_of(root, package, entries);
    assert forall|i: int, j: int| 0 <= i < plan.len() && 0 <= j < plan.len() implies (
    #[trigger] plan[i]).to != (#[trigger] plan[j]).from by {
        let logical = entries[i].0;
        let hash = entries[j].1.hash;
        lemma_output_path_shape(root, package, logical);
        lemma_object_path_shape(root, hash);
        let at = under(root).len() as int;
        let target = under(root) + files_name() + seq!['/'] + package + seq!['/'] + logical;
        let source = under(root) + objects_prefix() + shard(hash) + seq!['/'] + hash;
        assert(target[at] == files_name()[0]);
        assert(source[at] == objects_prefix()[0]);
    }
}

/// Where the package is one component, no logical path is absolute and no
/// logical path occurs twice, no two copies of the plan write the same file.
pub proof fn lemma_plan_targets_distinct(root: Seq<char>, package: Seq<char>, entries: Entries)
    requires
        is_component(package),
        all_relative(entries),
        distinct_paths(entries),
    ensures
        targets_distinct(plan_of(root, package, entries)),
{
    let plan = plan_of(root, package, entries);
    let front = under(root) + files_name() + seq!['/'] + package + seq!['/'];
    assert forall|i: int, j: int| 0 <= i < j < plan.len() implies (#[trigger] plan[i]).to != (
    #[trigger] plan[j]).to by {
        lemma_output_path_shape(root, package, entries[i].0);
        lemma_output_path_shape(root, package, entries[j].0);
        assert((front + entries[i].0).skip(front.len() as int) =~= entries[i].0);
        assert((front + entries[j].0).skip(front.len() as int) =~= entries[j].0);
        assert(entries[i].0 != entries[j].0);
    }
}

} // verus!
