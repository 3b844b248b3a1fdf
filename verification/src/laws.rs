//! What holds of every run, whatever root it is given and whatever is
//! reported to it.

use crate::data::{distinct_paths, lemma_mapping_at, mapping, Entries};
use crate::engine::{paths_of, ActionView, EventView, ExtractionView, Phase};
use crate::error::ErrorView;
use crate::layout::{index_path, indexes_dir, object_path, output_path};
use crate::path::{is_component, lemma_stem_is_component, stem_of};
use crate::plan::{
    all_relative, lemma_plan_keeps_sources, lemma_plan_targets_distinct, plan_of, step_of,
};
use crate::store::{
    law_copies_are_faithful, law_materializing_again_changes_nothing, materialized, Files,
};
use vstd::prelude::*;

verus! {

/// The run after `events` were reported to it one after another.
pub open spec fn after(run: ExtractionView, events: Seq<EventView>) -> ExtractionView
    decreases events.len(),
{
    if events.len() == 0 {
        run
    } else {
        after(run, events.drop_last()).next(events.last())
    }
}

/// The actions that the run asks for while `events` are reported to it: the
/// one at position `i` is asked for once the first `i` events are in.
pub open spec fn asked(run: ExtractionView, events: Seq<EventView>) -> Seq<ActionView> {
    Seq::new(events.len() + 1, |i: int| after(run, events.take(i)).action())
}

/// Whether an action changes anything on the file system.
pub open spec fn writes(action: ActionView) -> bool {
    action is CreateDirAll || action is CreateParentDirs || action is CopyFile
}

/// Whether a run is over, one way or the other.
pub open spec fn ended(run: ExtractionView) -> bool {
    run.phase == Phase::Finished || run.phase == Phase::Failed
}

/// Whatever is reported to a run, it stays well formed.
pub proof fn law_next_keeps_well_formed(run: ExtractionView, event: EventView)
    requires
        run.wf(),
    ensures
        run.next(event).wf(),
{
}

/// A run is well formed from its start and after whatever was reported to
/// it.
pub proof fn law_every_run_is_well_formed(root: Seq<char>, events: Seq<EventView>)
    ensures
        ExtractionView::initial(root).wf(),
        after(ExtractionView::initial(root), events).wf(),
    decreases events.len(),
{
    if events.len() > 0 {
        law_every_run_is_well_formed(root, events.drop_last());
        law_next_keeps_well_formed(
            after(ExtractionView::initial(root), events.drop_last()),
            events.last(),
        );
    }
}

/// A run that is over stays as it is, whatever is reported to it: after a
/// failure nothing more is asked for but the abort, with the same failure.
pub proof fn law_ended_run_stays(run: ExtractionView, events: Seq<EventView>)
    requires
        ended(run),
    ensures
        after(run, events) == run,
    decreases events.len(),
{
    if events.len() > 0 {
        law_ended_run_stays(run, events.drop_last());
    }
}

/// Reporting events one after another is reporting the first, then the rest.
pub proof fn lemma_after_first(run: ExtractionView, events: Seq<EventView>)
    requires
        events.len() > 0,
    ensures
        after(run, events) == after(run.next(events[0]), events.drop_first()),
    decreases events.len(),
{
    let none = Seq::<EventView>::empty();
    let then = run.next(events[0]);
    let rest = events.drop_first();
    assert(after(run, none) == run);
    assert(after(then, none) == then);
    assert(after(run, events) == after(run, events.drop_last()).next(events.last()));
    if events.len() == 1 {
        assert(events.drop_last() =~= none);
        assert(rest =~= none);
    } else {
        lemma_after_first(run, events.drop_last());
        assert(events.drop_last().drop_first() =~= rest.drop_last());
        assert(events.drop_last()[0] == events[0]);
        assert(rest.last() == events.last());
        assert(after(then, rest) == after(then, rest.drop_last()).next(rest.last()));
    }
}

/// Reporting events one after another is reporting the first `k` of them,
/// then the others.
pub proof fn lemma_after_split(run: ExtractionView, events: Seq<EventView>, k: int)
    requires
        0 <= k <= events.len(),
    ensures
        after(run, events) == after(after(run, events.take(k)), events.skip(k)),
    decreases events.len() - k,
{
    if k == events.len() {
        assert(events.take(k) =~= events);
        assert(events.skip(k) =~= Seq::<EventView>::empty());
    } else {
        lemma_after_split(run, events, k + 1);
        let rest = events.skip(k);
        lemma_after_first(after(run, events.take(k)), rest);
        assert(rest.drop_first() =~= events.skip(k + 1));
        assert(events.take(k + 1).drop_last() =~= events.take(k));
        assert(events.take(k + 1).last() == events[k]);
    }
}

/// Once a run is over after the first `k` events, it is the same run after
/// any more of them.
pub proof fn lemma_over_from(run: ExtractionView, events: Seq<EventView>, k: int)
    requires
        0 <= k <= events.len(),
        ended(after(run, events.take(k))),
    ensures
        forall|i: int|
            k <= i <= events.len() ==> after(run, #[trigger] events.take(i)) == after(
                run,
                events.take(k),
            ),
{
    assert forall|i: int| k <= i <= events.len() implies after(run, #[trigger] events.take(i))
        == after(run, events.take(k)) by {
        let upto = events.take(i);
        lemma_after_split(run, upto, k);
        assert(upto.take(k) =~= events.take(k));
        law_ended_run_stays(after(run, events.take(k)), upto.skip(k));
    }
}

/// A root that is no folder ends the run with `AssetsFolderNotFound`, which
/// names the root, and nothing was or will be asked for that creates a
/// folder or writes a file.
pub proof fn law_missing_root(root: Seq<char>, events: Seq<EventView>)
    requires
        events.len() >= 1,
        events[0] == EventView::DirProbed(false),
    ensures
        after(ExtractionView::initial(root), events).phase == Phase::Failed,
        after(ExtractionView::initial(root), events).failure == Some(
            ErrorView::AssetsFolderNotFound(seq![root]),
        ),
        forall|i: int|
            0 <= i <= events.len() ==> !writes(
                #[trigger] asked(ExtractionView::initial(root), events)[i],
            ),
{
    let start = ExtractionView::initial(root);
    let stopped = start.next(events[0]);
    assert(after(start, events.take(0)) == start) by {
        assert(events.take(0) =~= Seq::<EventView>::empty());
    }
    assert(after(start, events.take(1)) == stopped) by {
        assert(events.take(1).drop_last() =~= events.take(0));
        assert(events.take(1).last() == events[0]);
    }
    lemma_over_from(start, events, 1);
    assert forall|i: int| 0 <= i <= events.len() implies !writes(
        #[trigger] asked(start, events)[i],
    ) by {
        if i >= 1 {
            assert(after(start, events.take(i)) == stopped);
        }
    }
    assert(events.take(events.len() as int) =~= events);
}

/// A root without a folder of manifests ends the run with
/// `IndexesFolderNotFound`, which names that folder, and nothing was or will
/// be asked for that creates a folder or writes a file.
pub proof fn law_missing_indexes(root: Seq<char>, events: Seq<EventView>)
    requires
        events.len() >= 2,
        events[0] == EventView::DirProbed(true),
        events[1] == EventView::DirProbed(false),
    ensures
        after(ExtractionView::initial(root), events).phase == Phase::Failed,
        after(ExtractionView::initial(root), events).failure == Some(
            ErrorView::IndexesFolderNotFound(seq![indexes_dir(root)]),
        ),
        forall|i: int|
            0 <= i <= events.len() ==> !writes(
                #[trigger] asked(ExtractionView::initial(root), events)[i],
            ),
{
    let start = ExtractionView::initial(root);
    let probing = start.next(events[0]);
    let stopped = probing.next(events[1]);
    assert(after(start, events.take(0)) == start) by {
        assert(events.take(0) =~= Seq::<EventView>::empty());
    }
    assert(after(start, events.take(1)) == probing) by {
        assert(events.take(1).drop_last() =~= events.take(0));
        assert(events.take(1).last() == events[0]);
    }
    assert(after(start, events.take(2)) == stopped) by {
        assert(events.take(2).drop_last() =~= events.take(1));
        assert(events.take(2).last() == events[1]);
    }
    lemma_over_from(start, events, 2);
    assert forall|i: int| 0 <= i <= events.len() implies !writes(
        #[trigger] asked(start, events)[i],
    ) by {
        if i >= 2 {
            assert(after(start, events.take(i)) == stopped);
        }
    }
    assert(events.take(events.len() as int) =~= events);
}

/// A run that turns to a manifest file whose name gives no stem fails with
/// `InvalidIndexFile`, which names that file; it asks for no folder and no
/// manifest of it, and the count of manifests done with stays where it was.
pub proof fn law_invalid_index_file_fails(run: ExtractionView)
    requires
        0 <= run.manifest < run.names.len(),
        stem_of(run.names[run.manifest]) is None,
    ensures
        run.enter_manifest().phase == Phase::Failed,
        run.enter_manifest().failure == Some(
            ErrorView::InvalidIndexFile(index_path(run.root, run.names[run.manifest])),
        ),
        run.enter_manifest().manifest == run.manifest,
{
}

/// No run gets past a manifest file whose name gives no stem: the manifests
/// after it are never turned to, and a run that has come to it has failed
/// with `InvalidIndexFile`, which names that file, and asks for nothing but
/// the abort.
pub proof fn law_invalid_index_file_stops(run: ExtractionView, k: int)
    requires
        run.wf(),
        0 <= k < run.names.len(),
        stem_of(run.names[k]) is None,
    ensures
        run.manifest <= k,
        run.phase != Phase::Finished,
        run.manifest == k ==> run.phase == Phase::Failed,
        run.manifest == k ==> run.action() == ActionView::Abort(
            ErrorView::InvalidIndexFile(index_path(run.root, run.names[k])),
        ),
{
    if run.manifest > k {
        assert(stem_of(run.names[k]) is Some);
    }
}

/// A run is finished only when every manifest that was found is done with,
/// and every copy of the last one loaded.
pub proof fn law_finished_means_all_done(run: ExtractionView)
    requires
        run.wf(),
        run.phase == Phase::Finished,
    ensures
        run.manifest == run.names.len(),
        run.step == run.steps.len(),
        run.action() == ActionView::Finish,
{
}

/// The counts of a run never go back: whatever is reported to it, no fewer
/// manifests are done with than before, and while the same manifest stays in
/// hand with its copies under way, no fewer of its copies.
pub proof fn law_progress_never_goes_back(run: ExtractionView, event: EventView)
    requires
        run.wf(),
    ensures
        run.next(event).manifest >= run.manifest,
        run.next(event).names.len() >= run.names.len(),
        run.phase == Phase::CreateParents || run.phase == Phase::CopyObject ==> run.next(
            event,
        ).steps == run.steps && run.next(event).step >= run.step,
{
}

/// `n` reports, each that the action asked for was completed.
pub open spec fn completions(n: int) -> Seq<EventView> {
    Seq::new(n as nat, |i: int| EventView::Completed)
}

/// A run that has loaded the manifest in hand and has heard `2 * done`
/// times that what it asked for was completed has `done` copies of the plan
/// behind it and turns to the next.
pub proof fn lemma_copies_done(run: ExtractionView, entries: Entries, done: int)
    requires
        run.wf(),
        run.phase == Phase::LoadManifest,
        0 <= done <= entries.len(),
    ensures
        after(run.next(EventView::ManifestLoaded(entries)), completions(2 * done)) == (
        ExtractionView {
            steps: plan_of(run.root, run.package, entries),
            step: done,
            ..run
        }).enter_step(),
    decreases done,
{
    let loaded = run.next(EventView::ManifestLoaded(entries));
    let plan = plan_of(run.root, run.package, entries);
    if done == 0 {
        assert(completions(0) =~= Seq::<EventView>::empty());
        assert(after(loaded, completions(0)) == loaded);
    } else {
        lemma_copies_done(run, entries, done - 1);
        let before = ExtractionView { steps: plan, step: done - 1, ..run }.enter_step();
        assert(before == ExtractionView {
            phase: Phase::CreateParents,
            steps: plan,
            step: done - 1,
            ..run
        });
        let two = completions(2 * done);
        let one = completions(2 * done - 1);
        assert(two.drop_last() =~= one);
        assert(one.drop_last() =~= completions(2 * (done - 1)));
        assert(two.last() == EventView::Completed);
        assert(one.last() == EventView::Completed);
        assert(after(loaded, one) == before.next(EventView::Completed));
        assert(after(loaded, two) == before.next(EventView::Completed).next(
            EventView::Completed,
        ));
        let copying = ExtractionView { phase: Phase::CopyObject, ..before };
        assert(before.next(EventView::Completed) == copying);
        assert(copying.next(EventView::Completed) == ExtractionView {
            step: done,
            ..copying
        }.enter_step());
    }
}

/// Once a manifest is loaded, and as long as every action is completed, the
/// run asks for the copies of the manifest's plan in their order, each right
/// after the folders above its target, with the manifest still in hand.
pub proof fn law_manifest_is_copied_in_order(run: ExtractionView, entries: Entries, i: int)
    requires
        run.wf(),
        run.phase == Phase::LoadManifest,
        0 <= i < entries.len(),
    ensures
        ({
            let loaded = run.next(EventView::ManifestLoaded(entries));
            let plan = plan_of(run.root, run.package, entries);
            &&& after(loaded, completions(2 * i)).action() == ActionView::CreateParentDirs(
                plan[i].to,
            )
            &&& after(loaded, completions(2 * i + 1)).action() == (ActionView::CopyFile {
                from: plan[i].from,
                to: plan[i].to,
            })
            &&& after(loaded, completions(2 * i)).manifest == run.manifest
            &&& after(loaded, completions(2 * i + 1)).manifest == run.manifest
        }),
{
    let loaded = run.next(EventView::ManifestLoaded(entries));
    let plan = plan_of(run.root, run.package, entries);
    lemma_copies_done(run, entries, i);
    let before = ExtractionView { steps: plan, step: i, ..run }.enter_step();
    assert(before == ExtractionView { phase: Phase::CreateParents, steps: plan, step: i, ..run });
    let one = completions(2 * i + 1);
    assert(one.drop_last() =~= completions(2 * i));
    assert(one.last() == EventView::Completed);
    assert(after(loaded, one) == before.next(EventView::Completed));
}

/// Once every copy of a loaded manifest is completed, the manifest is done
/// with and the run turns to the next one.
pub proof fn law_manifest_is_done_after_its_copies(run: ExtractionView, entries: Entries)
    requires
        run.wf(),
        run.phase == Phase::LoadManifest,
    ensures
        after(run.next(EventView::ManifestLoaded(entries)), completions(2 * (entries.len() as int))) == (
        ExtractionView {
            manifest: run.manifest + 1,
            steps: plan_of(run.root, run.package, entries),
            step: entries.len() as int,
            ..run
        }).enter_manifest(),
{
    lemma_copies_done(run, entries, entries.len() as int);
}

/// A manifest file that cannot be read is passed over: the run turns to the
/// next manifest with no copy made and no failure.
pub proof fn law_unreadable_manifest_is_skipped(run: ExtractionView, message: Seq<char>)
    requires
        run.wf(),
        run.phase == Phase::LoadManifest,
    ensures
        run.next(EventView::IoFailed(message)) == (ExtractionView {
            manifest: run.manifest + 1,
            steps: Seq::empty(),
            step: 0,
            ..run
        }).enter_manifest(),
        run.next(EventView::IoFailed(message)).steps.len() == 0,
{
}

/// A manifest file whose text is no manifest ends the run.
pub proof fn law_malformed_manifest_fails(run: ExtractionView, message: Seq<char>)
    requires
        run.wf(),
        run.phase == Phase::LoadManifest,
    ensures
        run.next(EventView::ManifestMalformed(message)).phase == Phase::Failed,
        run.next(EventView::ManifestMalformed(message)).failure == Some(
            ErrorView::MalformedIndex {
                path: index_path(run.root, run.names[run.manifest]),
                message,
            },
        ),
{
}

/// Whatever the file system refuses, but the reading of a manifest file,
/// ends the run with a failure that names the paths of the refused action.
pub proof fn law_refusal_fails(run: ExtractionView, message: Seq<char>)
    requires
        run.wf(),
        !ended(run),
        run.phase != Phase::LoadManifest,
    ensures
        run.next(EventView::IoFailed(message)).phase == Phase::Failed,
        run.next(EventView::IoFailed(message)).failure == Some(
            ErrorView::Filesystem { paths: paths_of(run.action()), message },
        ),
        run.next(EventView::IoFailed(message)).manifest == run.manifest,
        run.next(EventView::IoFailed(message)).step == run.step,
{
}

/// While a run has a manifest in hand, the package it works on is the stem
/// of that manifest file's name, and so one component of a path: its output
/// folder lies directly in the folder of reconstructed files.
pub proof fn law_package_is_the_stem(run: ExtractionView)
    requires
        run.wf(),
        run.phase == Phase::CreateOutputDir || run.phase == Phase::LoadManifest || run.phase
            == Phase::CreateParents || run.phase == Phase::CopyObject,
    ensures
        stem_of(run.names[run.manifest]) == Some(run.package),
        is_component(run.package),
{
    lemma_stem_is_component(run.names[run.manifest]);
}

/// The plan of a manifest holds one copy for each of its logical paths, from
/// the blob that the path's hash names to the file that the path names in
/// the folder of the package, and no other copy.
pub proof fn law_plan_covers_manifest(root: Seq<char>, package: Seq<char>, entries: Entries)
    requires
        distinct_paths(entries),
    ensures
        plan_of(root, package, entries).len() == entries.len(),
        forall|path: Seq<char>| #[trigger]
            mapping(entries).dom().contains(path) ==> exists|i: int|
                0 <= i < entries.len() && #[trigger] plan_of(root, package, entries)[i] == step_of(
                    root,
                    package,
                    (path, mapping(entries)[path]),
                ),
        forall|i: int|
            0 <= i < entries.len() ==> mapping(entries).dom().contains(entries[i].0)
                && #[trigger] plan_of(root, package, entries)[i] == step_of(
                root,
                package,
                (entries[i].0, mapping(entries)[entries[i].0]),
            ),
{
    let plan = plan_of(root, package, entries);
    assert forall|i: int| 0 <= i < entries.len() implies mapping(entries).dom().contains(
        entries[i].0,
    ) && #[trigger] plan[i] == step_of(
        root,
        package,
        (entries[i].0, mapping(entries)[entries[i].0]),
    ) by {
        lemma_mapping_at(entries, i);
    }
    assert forall|path: Seq<char>| #[trigger]
        mapping(entries).dom().contains(path) implies exists|i: int|
        0 <= i < entries.len() && #[trigger] plan[i] == step_of(
            root,
            package,
            (path, mapping(entries)[path]),
        ) by {
        let i = choose|i: int| 0 <= i < entries.len() && (#[trigger] entries[i]).0 == path;
        lemma_mapping_at(entries, i);
        assert(plan[i] == step_of(root, package, (path, mapping(entries)[path])));
    }
}

/// After a manifest was materialised, the file of every logical path holds
/// the very bytes of the blob that the path's hash names, and the blob holds
/// what it held: this where files are told apart by the text of their
/// paths, every blob exists, the package is one component of a path, and no
/// logical path is absolute.
pub proof fn law_materialized_files_match_blobs(
    files: Files,
    root: Seq<char>,
    package: Seq<char>,
    entries: Entries,
)
    requires
        is_component(package),
        distinct_paths(entries),
        all_relative(entries),
        forall|i: int|
            0 <= i < entries.len() ==> files.dom().contains(
                object_path(root, (#[trigger] entries[i]).1.hash),
            ),
    ensures
        forall|path: Seq<char>| #[trigger]
            mapping(entries).dom().contains(path) ==> {
                let after = materialized(files, plan_of(root, package, entries));
                let blob = object_path(root, mapping(entries)[path].hash);
                &&& after.dom().contains(output_path(root, package, path))
                &&& after[output_path(root, package, path)] == files[blob]
                &&& after[blob] == files[blob]
            },
{
    let plan = plan_of(root, package, entries);
    lemma_plan_keeps_sources(root, package, entries);
    lemma_plan_targets_distinct(root, package, entries);
    assert forall|i: int| 0 <= i < plan.len() implies files.dom().contains(
        (#[trigger] plan[i]).from,
    ) by {
        assert(files.dom().contains(object_path(root, entries[i].1.hash)));
    }
    law_copies_are_faithful(files, plan);
    assert forall|path: Seq<char>| #[trigger] mapping(entries).dom().contains(path) implies {
        let after = materialized(files, plan);
        let blob = object_path(root, mapping(entries)[path].hash);
        &&& after.dom().contains(output_path(root, package, path))
        &&& after[output_path(root, package, path)] == files[blob]
        &&& after[blob] == files[blob]
    } by {
        let i = choose|i: int| 0 <= i < entries.len() && (#[trigger] entries[i]).0 == path;
        lemma_mapping_at(entries, i);
        assert(plan[i] == step_of(root, package, entries[i]));
    }
}

/// Materialising a manifest a second time over the files that the first
/// time left changes nothing: this where files are told apart by the text
/// of their paths, the package is one component of a path, and no logical
/// path is absolute.
pub proof fn law_materializing_is_idempotent(
    files: Files,
    root: Seq<char>,
    package: Seq<char>,
    entries: Entries,
)
    requires
        is_component(package),
        all_relative(entries),
    ensures
        materialized(
            materialized(files, plan_of(root, package, entries)),
            plan_of(root, package, entries),
        ) == materialized(files, plan_of(root, package, entries)),
{
    lemma_plan_keeps_sources(root, package, entries);
    law_materializing_again_changes_nothing(files, plan_of(root, package, entries));
}

} // verus!
