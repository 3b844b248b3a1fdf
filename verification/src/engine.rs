//! The run, as a machine that decides and never acts.
//!
//! An [`Extraction`] asks for one [`Action`] at a time. Whoever drives it
//! performs the action on the file system and reports what came of it as an
//! [`Event`]; the extraction then asks for the next action. The first failure
//! ends the run: from then on it asks for [`Action::Abort`] only.

use crate::data::{Entries, Index};
use crate::error::{Error, ErrorView};
use crate::layout::{index_path, index_path_of, indexes_dir, indexes_dir_of, output_dir, output_dir_of};
use crate::path::{file_stem, stem_of};
use crate::plan::{materialize, plan_of, CopyStep, CopyStepView};
use vstd::prelude::*;

verus! {

/// Where a run stands. Each phase but the last two waits for the outcome of
/// the action that it asks for.
#[derive(Clone, Copy, Debug, PartialEq, Eq, Structural)]
pub enum Phase {
    /// Asking whether the root is a folder.
    ProbeRoot,
    /// Asking whether the root holds a folder of manifests.
    ProbeIndexes,
    /// Asking for the names of the manifest files.
    ListIndexes,
    /// Asking for the output folder of the package in hand.
    CreateOutputDir,
    /// Asking for the manifest of the package in hand.
    LoadManifest,
    /// Asking for the folders above the next file to write.
    CreateParents,
    /// Asking for the next copy.
    CopyObject,
    /// Every manifest was materialised.
    Finished,
    /// The run was ended by a failure.
    Failed,
}

/// What an [`Action`] is, as plain mathematical values.
pub enum ActionView {
    ProbeDir(Seq<char>),
    ListDir(Seq<char>),
    CreateDirAll(Seq<char>),
    CreateParentDirs(Seq<char>),
    LoadManifest(Seq<char>),
    CopyFile { from: Seq<char>, to: Seq<char> },
    Finish,
    Abort(ErrorView),
}

/// What a run asks its driver to do next.
#[derive(Debug, PartialEq, Eq)]
pub enum Action {
    /// Find out whether the path is an existing folder, and report
    /// [`Event::DirProbed`].
    ProbeDir(String),
    /// List the names of the entries directly in the folder, leaving out
    /// those that cannot be read, and report [`Event::Listed`].
    ListDir(String),
    /// Create the folder and every missing folder above it. A folder that
    /// exists is no failure.
    CreateDirAll(String),
    /// Create every missing folder above the path, not the path itself.
    CreateParentDirs(String),
    /// Read the file as text and parse it as a manifest, and report
    /// [`Event::ManifestLoaded`], or [`Event::ManifestMalformed`] where the
    /// text is no manifest, or [`Event::IoFailed`] where it cannot be read.
    LoadManifest(String),
    /// Copy the full contents of `from` to `to`, overwriting `to`.
    CopyFile { from: String, to: String },
    /// Nothing is left to do: the run succeeded.
    Finish,
    /// Nothing more will be done: the run failed.
    Abort(Error),
}

impl View for Action {
    type V = ActionView;

    open spec fn view(&self) -> ActionView {
        match self {
            Action::ProbeDir(path) => ActionView::ProbeDir(path@),
            Action::ListDir(path) => ActionView::ListDir(path@),
            Action::CreateDirAll(path) => ActionView::CreateDirAll(path@),
            Action::CreateParentDirs(path) => ActionView::CreateParentDirs(path@),
            Action::LoadManifest(path) => ActionView::LoadManifest(path@),
            Action::CopyFile { from, to } => ActionView::CopyFile { from: from@, to: to@ },
            Action::Finish => ActionView::Finish,
            Action::Abort(error) => ActionView::Abort(error@),
        }
    }
}

/// The paths that an action is about.
pub open spec fn paths_of(action: ActionView) -> Seq<Seq<char>> {
    match action {
        ActionView::ProbeDir(path) => seq![path],
        ActionView::ListDir(path) => seq![path],
        ActionView::CreateDirAll(path) => seq![path],
        ActionView::CreateParentDirs(path) => seq![path],
        ActionView::LoadManifest(path) => seq![path],
        ActionView::CopyFile { from, to } => seq![from, to],
        ActionView::Finish => Seq::empty(),
        ActionView::Abort(_) => Seq::empty(),
    }
}

/// What an [`Event`] is, as plain mathematical values.
pub enum EventView {
    DirProbed(bool),
    Listed(Seq<Seq<char>>),
    Completed,
    IoFailed(Seq<char>),
    ManifestLoaded(Entries),
    ManifestMalformed(Seq<char>),
}

/// What came of the action that a run asked for.
#[derive(Debug)]
pub enum Event {
    /// Whether the probed path is an existing folder.
    DirProbed(bool),
    /// The names of the entries found in the listed folder.
    Listed(Vec<String>),
    /// The folders were created, or the file was copied.
    Completed,
    /// The file system refused the action; holds what it said.
    IoFailed(String),
    /// The manifest that the file holds.
    ManifestLoaded(Index),
    /// The file was read, but its text is no manifest; holds why not.
    ManifestMalformed(String),
}

impl View for Event {
    type V = EventView;

    open spec fn view(&self) -> EventView {
        match self {
            Event::DirProbed(found) => EventView::DirProbed(*found),
            Event::Listed(names) => EventView::Listed(names.deep_view()),
            Event::Completed => EventView::Completed,
            Event::IoFailed(message) => EventView::IoFailed(message@),
            Event::ManifestLoaded(index) => EventView::ManifestLoaded(index.entries()),
            Event::ManifestMalformed(message) => EventView::ManifestMalformed(message@),
        }
    }
}

/// What an [`Extraction`] is, as plain mathematical values.
pub struct ExtractionView {
    /// The root folder.
    pub root: Seq<char>,
    /// Where the run stands.
    pub phase: Phase,
    /// The names of the manifest files that were found.
    pub names: Seq<Seq<char>>,
    /// How many manifests are done with; also the position in `names` of
    /// the manifest in hand.
    pub manifest: int,
    /// The package of the manifest in hand.
    pub package: Seq<char>,
    /// The copies that the manifest last loaded asks for; none where the
    /// manifest file could not be read.
    pub steps: Seq<CopyStepView>,
    /// How many of `steps` are done.
    pub step: int,
    /// The failure that ended the run, if one did.
    pub failure: Option<ErrorView>,
}

impl ExtractionView {
    /// A run that has not asked for anything yet.
    pub open spec fn initial(root: Seq<char>) -> ExtractionView {
        ExtractionView {
            root,
            phase: Phase::ProbeRoot,
            names: Seq::empty(),
            manifest: 0,
            package: Seq::empty(),
            steps: Seq::empty(),
            step: 0,
            failure: None,
        }
    }

    /// What the fields of a run owe each other.
    pub open spec fn wf(self) -> bool {
        &&& 0 <= self.manifest <= self.names.len()
        &&& 0 <= self.step <= self.steps.len()
        &&& (self.phase == Phase::Failed <==> self.failure is Some)
        &&& forall|k: int| 0 <= k < self.manifest ==> stem_of(#[trigger] self.names[k]) is Some
        &&& (self.manifest < self.names.len() && stem_of(self.names[self.manifest]) is None
            ==> self.failure == Some(
            ErrorView::InvalidIndexFile(index_path(self.root, self.names[self.manifest])),
        ))
        &&& match self.phase {
            Phase::ProbeRoot | Phase::ProbeIndexes | Phase::ListIndexes => {
                &&& self.names.len() == 0
                &&& self.steps.len() == 0
            },
            Phase::CreateOutputDir | Phase::LoadManifest => {
                &&& self.manifest < self.names.len()
                &&& stem_of(self.names[self.manifest]) == Some(self.package)
                &&& self.step == self.steps.len()
            },
            Phase::CreateParents | Phase::CopyObject => {
                &&& self.manifest < self.names.len()
                &&& stem_of(self.names[self.manifest]) == Some(self.package)
                &&& self.step < self.steps.len()
            },
            Phase::Finished => {
                &&& self.manifest == self.names.len()
                &&& self.step == self.steps.len()
            },
            Phase::Failed => true,
        }
    }

    /// The action that the run asks for.
    pub open spec fn action(self) -> ActionView {
        match self.phase {
            Phase::ProbeRoot => ActionView::ProbeDir(self.root),
            Phase::ProbeIndexes => ActionView::ProbeDir(indexes_dir(self.root)),
            Phase::ListIndexes => ActionView::ListDir(indexes_dir(self.root)),
            Phase::CreateOutputDir => ActionView::CreateDirAll(
                output_dir(self.root, self.package),
            ),
            Phase::LoadManifest => ActionView::LoadManifest(
                index_path(self.root, self.names[self.manifest]),
            ),
            Phase::CreateParents => ActionView::CreateParentDirs(self.steps[self.step].to),
            Phase::CopyObject => ActionView::CopyFile {
                from: self.steps[self.step].from,
                to: self.steps[self.step].to,
            },
            Phase::Finished => ActionView::Finish,
            Phase::Failed => ActionView::Abort(self.failure->0),
        }
    }

    /// The run ended by `error`.
    pub open spec fn failed(self, error: ErrorView) -> ExtractionView {
        ExtractionView { phase: Phase::Failed, failure: Some(error), ..self }
    }

    /// The run ended because the file system refused the action asked for.
    pub open spec fn refused(self, message: Seq<char>) -> ExtractionView {
        self.failed(ErrorView::Filesystem { paths: paths_of(self.action()), message })
    }

    /// The run as it turns to the manifest at position `self.manifest`: it
    /// is finished where there is none, it fails where the name of the
    /// manifest file gives no stem, and else it asks for the output folder
    /// of the package called by that stem. The copies of the manifest
    /// before stay on record until the next one is loaded.
    pub open spec fn enter_manifest(self) -> ExtractionView {
        if self.manifest >= self.names.len() {
            ExtractionView { phase: Phase::Finished, ..self }
        } else {
            match stem_of(self.names[self.manifest]) {
                None => self.failed(
                    ErrorView::InvalidIndexFile(index_path(self.root, self.names[self.manifest])),
                ),
                Some(package) => ExtractionView { phase: Phase::CreateOutputDir, package, ..self },
            }
        }
    }

    /// The run as it turns to the copy at position `self.step`: where there
    /// is none the manifest in hand is done with and the run turns to the
    /// next one.
    pub open spec fn enter_step(self) -> ExtractionView {
        if self.step >= self.steps.len() {
            ExtractionView { manifest: self.manifest + 1, ..self }.enter_manifest()
        } else {
            ExtractionView { phase: Phase::CreateParents, ..self }
        }
    }

    /// The run after `event` was reported to it.
    pub open spec fn next(self, event: EventView) -> ExtractionView {
        match self.phase {
            Phase::ProbeRoot => match event {
                EventView::DirProbed(true) => ExtractionView {
                    phase: Phase::ProbeIndexes,
                    ..self
                },
                EventView::DirProbed(false) => self.failed(
                    ErrorView::AssetsFolderNotFound(seq![self.root]),
                ),
                EventView::IoFailed(message) => self.refused(message),
                _ => self.failed(ErrorView::UnexpectedEvent),
            },
            Phase::ProbeIndexes => match event {
                EventView::DirProbed(true) => ExtractionView { phase: Phase::ListIndexes, ..self },
                EventView::DirProbed(false) => self.failed(
                    ErrorView::IndexesFolderNotFound(seq![indexes_dir(self.root)]),
                ),
                EventView::IoFailed(message) => self.refused(message),
                _ => self.failed(ErrorView::UnexpectedEvent),
            },
            Phase::ListIndexes => match event {
                EventView::Listed(names) => ExtractionView {
                    names,
                    manifest: 0,
                    ..self
                }.enter_manifest(),
                EventView::IoFailed(message) => self.refused(message),
                _ => self.failed(ErrorView::UnexpectedEvent),
            },
            Phase::CreateOutputDir => match event {
                EventView::Completed => ExtractionView { phase: Phase::LoadManifest, ..self },
                EventView::IoFailed(message) => self.refused(message),
                _ => self.failed(ErrorView::UnexpectedEvent),
            },
            Phase::LoadManifest => match event {
                EventView::ManifestLoaded(entries) => ExtractionView {
                    steps: plan_of(self.root, self.package, entries),
                    step: 0,
                    ..self
                }.enter_step(),
                EventView::IoFailed(_) => ExtractionView {
                    steps: Seq::empty(),
                    step: 0,
                    ..self
                }.enter_step(),
                EventView::ManifestMalformed(message) => self.failed(
                    ErrorView::MalformedIndex {
                        path: index_path(self.root, self.names[self.manifest]),
                        message,
                    },
                ),
                _ => self.failed(ErrorView::UnexpectedEvent),
            },
            Phase::CreateParents => match event {
                EventView::Completed => ExtractionView { phase: Phase::CopyObject, ..self },
                EventView::IoFailed(message) => self.refused(message),
                _ => self.failed(ErrorView::UnexpectedEvent),
            },
            Phase::CopyObject => match event {
                EventView::Completed => ExtractionView {
                    step: self.step + 1,
                    ..self
                }.enter_step(),
                EventView::IoFailed(message) => self.refused(message),
                _ => self.failed(ErrorView::UnexpectedEvent),
            },
            Phase::Finished => self,
            Phase::Failed => self,
        }
    }
}

/// How far a run has come.
#[derive(Clone, Copy, Debug, PartialEq, Eq, Structural)]
pub struct Progress {
    /// How many manifests are done with.
    pub manifests_done: usize,
    /// How many manifest files were found.
    pub manifests_total: usize,
    /// How many copies of the manifest last loaded are done.
    pub objects_done: usize,
    /// How many copies the manifest last loaded asks for.
    pub objects_total: usize,
}

/// One run over a root folder.
#[derive(Debug)]
pub struct Extraction {
    root: String,
    phase: Phase,
    names: Vec<String>,
    manifest: usize,
    package: String,
    steps: Vec<CopyStep>,
    step: usize,
    pending: Action,
}

impl View for Extraction {
    type V = ExtractionView;

    closed spec fn view(&self) -> ExtractionView {
        ExtractionView {
            root: self.root@,
            phase: self.phase,
            names: self.names.deep_view(),
            manifest: self.manifest as int,
            package: self.package@,
            steps: self.steps.deep_view(),
            step: self.step as int,
            failure: match self.pending {
                Action::Abort(error) => Some(error@),
                _ => None,
            },
        }
    }
}

impl Extraction {
    #[verifier::type_invariant]
    spec fn inv(&self) -> bool {
        &&& self@.wf()
        &&& self.pending@ == self@.action()
    }

    /// A run over `root` that has not asked for anything yet.
    pub fn new(root: String) -> (r: Extraction)
        ensures
            r@ == ExtractionView::initial(root@),
            r@.wf(),
    {
        let pending = Action::ProbeDir(root.clone());
        let names: Vec<String> = Vec::new();
        let steps: Vec<CopyStep> = Vec::new();
        assert(names.deep_view() =~= Seq::<Seq<char>>::empty());
        assert(steps.deep_view() =~= Seq::<CopyStepView>::empty());
        Extraction {
            root,
            phase: Phase::ProbeRoot,
            names,
            manifest: 0,
            package: String::new(),
            steps,
            step: 0,
            pending,
        }
    }

    /// The action that the run asks for.
    pub fn action(&self) -> (r: &Action)
        ensures
            r@ == self@.action(),
            self@.wf(),
    {
        proof {
            use_type_invariant(self);
        }
        &self.pending
    }

    /// Where the run stands.
    pub fn phase(&self) -> (r: Phase)
        ensures
            r == self@.phase,
    {
        self.phase
    }

    /// Whether every manifest was materialised.
    pub fn is_finished(&self) -> (r: bool)
        ensures
            r == (self@.phase == Phase::Finished),
            r ==> self@.manifest == self@.names.len(),
    {
        proof {
            use_type_invariant(self);
        }
        match self.phase {
            Phase::Finished => true,
            _ => false,
        }
    }

    /// Ends the use of the run and gives the failure that ended it, if one
    /// did.
    pub fn into_failure(self) -> (r: Option<Error>)
        ensures
            r.deep_view() == self@.failure,
            r is Some <==> self@.phase == Phase::Failed,
    {
        proof {
            use_type_invariant(&self);
        }
        match self.pending {
            Action::Abort(error) => Some(error),
            _ => None,
        }
    }

    /// How far the run has come.
    pub fn progress(&self) -> (r: Progress)
        ensures
            r.manifests_done == self@.manifest,
            r.manifests_total == self@.names.len(),
            r.objects_done == self@.step,
            r.objects_total == self@.steps.len(),
            r.manifests_done <= r.manifests_total,
            r.objects_done <= r.objects_total,
    {
        proof {
            use_type_invariant(self);
        }
        Progress {
            manifests_done: self.manifest,
            manifests_total: self.names.len(),
            objects_done: self.step,
            objects_total: self.steps.len(),
        }
    }

    /// Reports to the run what came of the action that it asked for, and
    /// gives the run as it goes on from there.
    pub fn handle(self, event: Event) -> (r: Extraction)
        ensures
            r@ == self@.next(event@),
            r@.wf(),
    {
        proof {
            use_type_invariant(&self);
        }
        assert(self.steps.deep_view().len() == self.steps.len());
        assert(self.names.deep_view().len() == self.names.len());
        match (self.phase, event) {
            (Phase::Finished, _) => self,
            (Phase::Failed, _) => self,
            (Phase::LoadManifest, Event::IoFailed(_)) => {
                let Extraction { root, names, manifest, package, .. } = self;
                let none: Vec<CopyStep> = Vec::new();
                assert(none.deep_view() =~= Seq::<CopyStepView>::empty());
                Self::enter_step(root, names, manifest, package, none, 0)
            },
            (_, Event::IoFailed(message)) => self.refused(message),
            (Phase::ProbeRoot, Event::DirProbed(found)) => {
                if found {
                    let pending = Action::ProbeDir(indexes_dir_of(self.root.as_str()));
                    let Extraction { root, names, manifest, package, steps, step, .. } = self;
                    Extraction {
                        root,
                        phase: Phase::ProbeIndexes,
                        names,
                        manifest,
                        package,
                        steps,
                        step,
                        pending,
                    }
                } else {
                    let mut tried: Vec<String> = Vec::new();
                    tried.push(self.root.clone());
                    assert(tried.deep_view() =~= seq![self.root@]);
                    self.failed(Error::AssetsFolderNotFound(tried))
                }
            },
            (Phase::ProbeIndexes, Event::DirProbed(found)) => {
                if found {
                    let pending = Action::ListDir(indexes_dir_of(self.root.as_str()));
                    let Extraction { root, names, manifest, package, steps, step, .. } = self;
                    Extraction {
                        root,
                        phase: Phase::ListIndexes,
                        names,
                        manifest,
                        package,
                        steps,
                        step,
                        pending,
                    }
                } else {
                    let mut tried: Vec<String> = Vec::new();
                    tried.push(indexes_dir_of(self.root.as_str()));
                    assert(tried.deep_view() =~= seq![indexes_dir(self.root@)]);
                    self.failed(Error::IndexesFolderNotFound(tried))
                }
            },
            (Phase::ListIndexes, Event::Listed(found)) => {
                let Extraction { root, package, steps, step, .. } = self;
                Self::enter_manifest(root, found, 0, package, steps, step)
            },
            (Phase::CreateOutputDir, Event::Completed) => {
                let pending = Action::LoadManifest(
                    index_path_of(self.root.as_str(), self.names[self.manifest].as_str()),
                );
                let Extraction { root, names, manifest, package, steps, step, .. } = self;
                Extraction {
                    root,
                    phase: Phase::LoadManifest,
                    names,
                    manifest,
                    package,
                    steps,
                    step,
                    pending,
                }
            },
            (Phase::LoadManifest, Event::ManifestLoaded(index)) => {
                let Extraction { root, names, manifest, package, .. } = self;
                let planned = materialize(root.as_str(), &index, package.as_str());
                Self::enter_step(root, names, manifest, package, planned, 0)
            },
            (Phase::LoadManifest, Event::ManifestMalformed(message)) => {
                let path = index_path_of(self.root.as_str(), self.names[self.manifest].as_str());
                self.failed(Error::MalformedIndex { path, message })
            },
            (Phase::CreateParents, Event::Completed) => {
                let pending = Action::CopyFile {
                    from: self.steps[self.step].from.clone(),
                    to: self.steps[self.step].to.clone(),
                };
                let Extraction { root, names, manifest, package, steps, step, .. } = self;
                Extraction {
                    root,
                    phase: Phase::CopyObject,
                    names,
                    manifest,
                    package,
                    steps,
                    step,
                    pending,
                }
            },
            (Phase::CopyObject, Event::Completed) => {
                let Extraction { root, names, manifest, package, steps, step, .. } = self;
                Self::enter_step(root, names, manifest, package, steps, step + 1)
            },
            _ => self.failed(Error::UnexpectedEvent),
        }
    }

    /// The run ended by `error`.
    fn failed(self, error: Error) -> (r: Extraction)
        requires
            self@.phase != Phase::Failed,
        ensures
            r@ == self@.failed(error@),
            r@.wf(),
    {
        proof {
            use_type_invariant(&self);
        }
        let Extraction { root, names, manifest, package, steps, step, .. } = self;
        Extraction {
            root,
            phase: Phase::Failed,
            names,
            manifest,
            package,
            steps,
            step,
            pending: Action::Abort(error),
        }
    }

    /// The run ended because the file system refused the action asked for.
    fn refused(self, message: String) -> (r: Extraction)
        requires
            self@.phase != Phase::Failed,
        ensures
            r@ == self@.refused(message@),
            r@.wf(),
    {
        proof {
            use_type_invariant(&self);
        }
        let Extraction { root, names, manifest, package, steps, step, pending, .. } = self;
        let ghost asked = pending@;
        let mut paths: Vec<String> = Vec::new();
        match pending {
            Action::ProbeDir(path) => {
                paths.push(path);
            },
            Action::ListDir(path) => {
                paths.push(path);
            },
            Action::CreateDirAll(path) => {
                paths.push(path);
            },
            Action::CreateParentDirs(path) => {
                paths.push(path);
            },
            Action::LoadManifest(path) => {
                paths.push(path);
            },
            Action::CopyFile { from, to } => {
                paths.push(from);
                paths.push(to);
            },
            Action::Finish => {},
            Action::Abort(_) => {},
        }
        assert(paths.deep_view() =~= paths_of(asked));
        Extraction {
            root,
            phase: Phase::Failed,
            names,
            manifest,
            package,
            steps,
            step,
            pending: Action::Abort(Error::Filesystem { paths, message }),
        }
    }

    /// A run as it turns to the manifest at position `manifest`.
    fn enter_manifest(
        root: String,
        names: Vec<String>,
        manifest: usize,
        package: String,
        steps: Vec<CopyStep>,
        step: usize,
    ) -> (r: Extraction)
        requires
            manifest <= names.len(),
            step == steps.len(),
            forall|k: int| 0 <= k < manifest ==> stem_of(#[trigger] names.deep_view()[k]) is Some,
        ensures
            r@ == (ExtractionView {
                root: root@,
                phase: Phase::Finished,
                names: names.deep_view(),
                manifest: manifest as int,
                package: package@,
                steps: steps.deep_view(),
                step: step as int,
                failure: None,
            }).enter_manifest(),
            r@.wf(),
    {
        if manifest >= names.len() {
            return Extraction {
                root,
                phase: Phase::Finished,
                names,
                manifest,
                package,
                steps,
                step,
                pending: Action::Finish,
            };
        }
        assert(names.deep_view()[manifest as int] == names[manifest as int]@);
        match file_stem(names[manifest].as_str()) {
            None => {
                let path = index_path_of(root.as_str(), names[manifest].as_str());
                Extraction {
                    root,
                    phase: Phase::Failed,
                    names,
                    manifest,
                    package,
                    steps,
                    step,
                    pending: Action::Abort(Error::InvalidIndexFile(path)),
                }
            },
            Some(stem) => {
                let pending = Action::CreateDirAll(output_dir_of(root.as_str(), stem.as_str()));
                Extraction {
                    root,
                    phase: Phase::CreateOutputDir,
                    names,
                    manifest,
                    package: stem,
                    steps,
                    step,
                    pending,
                }
            },
        }
    }

    /// A run as it turns to the copy at position `step` of the manifest in
    /// hand.
    fn enter_step(
        root: String,
        names: Vec<String>,
        manifest: usize,
        package: String,
        steps: Vec<CopyStep>,
        step: usize,
    ) -> (r: Extraction)
        requires
            manifest < names.len(),
            stem_of(names[manifest as int]@) == Some(package@),
            step <= steps.len(),
            forall|k: int| 0 <= k < manifest ==> stem_of(#[trigger] names.deep_view()[k]) is Some,
        ensures
            r@ == (ExtractionView {
                root: root@,
                phase: Phase::LoadManifest,
                names: names.deep_view(),
                manifest: manifest as int,
                package: package@,
                steps: steps.deep_view(),
                step: step as int,
                failure: None,
            }).enter_step(),
            r@.wf(),
    {
        if step >= steps.len() {
            Self::enter_manifest(root, names, manifest + 1, package, steps, step)
        } else {
            assert(steps.deep_view()[step as int] == steps[step as int]@);
            assert(names.deep_view()[manifest as int] == names[manifest as int]@);
            let pending = Action::CreateParentDirs(steps[step].to.clone());
            Extraction {
                root,
                phase: Phase::CreateParents,
                names,
                manifest,
                package,
                steps,
                step,
                pending,
            }
        }
    }
}

} // verus!
