//! The manifest model: one package's logical paths and the blobs behind them.

use vstd::prelude::*;

verus! {

/// What an [`Object`] is, as plain mathematical values.
pub struct ObjectView {
    pub hash: Seq<char>,
    pub size: u32,
}

/// One manifest record: the hash that names a blob in the content store, and
/// the size the manifest declares for it. The size is carried along and never
/// held against the blob.
#[derive(Debug)]
pub struct Object {
    hash: String,
    size: u32,
}

impl View for Object {
    type V = ObjectView;

    closed spec fn view(&self) -> ObjectView {
        ObjectView { hash: self.hash@, size: self.size }
    }
}

impl DeepView for Object {
    type V = ObjectView;

    open spec fn deep_view(&self) -> ObjectView {
        self@
    }
}

impl Object {
    /// A record for the blob named `hash`, declared to hold `size` bytes.
    pub fn new(hash: String, size: u32) -> (r: Object)
        ensures
            r@ == (ObjectView { hash: hash@, size }),
    {
        Object { hash, size }
    }

    /// Get a reference to the object's hash.
    pub fn hash(&self) -> (r: &str)
        ensures
            r@ == self@.hash,
    {
        self.hash.as_str()
    }

    /// Get the object's size.
    pub fn size(&self) -> (r: u32)
        ensures
            r == self@.size,
    {
        self.size
    }
}

/// The entries of a manifest in the order in which they are kept: logical
/// path, then record.
pub type Entries = Seq<(Seq<char>, ObjectView)>;

/// Whether `path` is the logical path of one of `entries`.
pub open spec fn has_path(entries: Entries, path: Seq<char>) -> bool {
    exists|i: int| 0 <= i < entries.len() && (#[trigger] entries[i]).0 == path
}

/// Whether no two of `entries` share a logical path.
pub open spec fn distinct_paths(entries: Entries) -> bool {
    forall|i: int, j: int|
        0 <= i < j < entries.len() ==> (#[trigger] entries[i]).0 != (#[trigger] entries[j]).0
}

/// The mapping that `entries` stand for: each logical path to the record
/// listed with it.
pub open spec fn mapping(entries: Entries) -> Map<Seq<char>, ObjectView> {
    Map::new(
        |path: Seq<char>| has_path(entries, path),
        |path: Seq<char>|
            entries[choose|i: int| 0 <= i < entries.len() && (#[trigger] entries[i]).0 == path].1,
    )
}

/// Among entries with distinct paths, a path is mapped to the record listed
/// with it.
pub proof fn lemma_mapping_at(entries: Entries, i: int)
    requires
        distinct_paths(entries),
        0 <= i < entries.len(),
    ensures
        mapping(entries).dom().contains(entries[i].0),
        mapping(entries)[entries[i].0] == entries[i].1,
{
    let path = entries[i].0;
    assert(has_path(entries, path));
    let k = choose|k: int| 0 <= k < entries.len() && (#[trigger] entries[k]).0 == path;
    assert(k == i) by {
        if k < i {
            assert(entries[k].0 != entries[i].0);
        } else if i < k {
            assert(entries[i].0 != entries[k].0);
        }
    }
}

/// One package's manifest: a mapping from logical relative paths to records.
/// Its view is that mapping. The entries are kept in the order in which their
/// paths were first inserted.
#[derive(Debug)]
pub struct Index {
    objects: Vec<(String, Object)>,
}

impl View for Index {
    type V = Map<Seq<char>, ObjectView>;

    closed spec fn view(&self) -> Map<Seq<char>, ObjectView> {
        mapping(self.objects.deep_view())
    }
}

impl Index {
    #[verifier::type_invariant]
    spec fn no_path_twice(&self) -> bool {
        distinct_paths(self.objects.deep_view())
    }

    /// The entries in the order in which they are kept.
    pub closed spec fn entries(&self) -> Entries {
        self.objects.deep_view()
    }

    /// A manifest without entries.
    pub fn new() -> (r: Index)
        ensures
            r@ == Map::<Seq<char>, ObjectView>::empty(),
            r.entries() == Seq::<(Seq<char>, ObjectView)>::empty(),
    {
        let r = Index { objects: Vec::new() };
        assert(r.entries() =~= Seq::<(Seq<char>, ObjectView)>::empty());
        assert(r@ =~= Map::<Seq<char>, ObjectView>::empty());
        r
    }

    /// Get a reference to the index's objects.
    pub fn objects(&self) -> (r: &Vec<(String, Object)>)
        ensures
            r.deep_view() == self.entries(),
            distinct_paths(self.entries()),
            mapping(self.entries()) == self@,
    {
        proof {
            use_type_invariant(self);
        }
        &self.objects
    }

    /// The number of entries.
    pub fn len(&self) -> (r: usize)
        ensures
            r == self.entries().len(),
            r == self@.dom().len(),
    {
        proof {
            use_type_invariant(self);
            lemma_mapping_len(self.objects.deep_view());
        }
        self.objects.len()
    }

    /// Gives `path` the record `object`, and returns the record that `path`
    /// had before, if it had one.
    pub fn insert(&mut self, path: String, object: Object) -> (r: Option<Object>)
        ensures
            final(self)@ == old(self)@.insert(path@, object@),
            final(self).entries() == inserted(old(self).entries(), path@, object@),
            r.deep_view() == if old(self)@.dom().contains(path@) {
                Some(old(self)@[path@])
            } else {
                None
            },
    {
        let mut taken = Index::new();
        core::mem::swap(self, &mut taken);
        proof {
            use_type_invariant(&taken);
        }
        let mut objects = taken.objects;
        let ghost before = objects.deep_view();
        let ghost path_view = path@;
        let ghost object_view = object@;
        proof {
            lemma_inserted(before, path_view, object_view);
        }
        let mut i: usize = 0;
        while i < objects.len()
            invariant
                i <= objects.len(),
                objects.deep_view() == before,
                distinct_paths(before),
                path@ == path_view,
                object@ == object_view,
                old(self).entries() == before,
                old(self)@ == mapping(before),
                forall|k: int| 0 <= k < i ==> (#[trigger] before[k]).0 != path_view,
            decreases objects.len() - i,
        {
            assert(objects.deep_view()[i as int].0 == objects[i as int].0@);
            if objects[i].0 == path {
                assert(before[i as int].0 == path_view);
                proof {
                    lemma_inserted(before, path_view, object_view);
                    lemma_mapping_at(before, i as int);
                    let at = position(before, path_view);
                    if at < i {
                        assert(before[at].0 != before[i as int].0);
                    } else if i < at {
                        assert(before[i as int].0 != before[at].0);
                    }
                }
                let ghost raw = objects@;
                objects.push((path, object));
                let old_entry = objects.swap_remove(i);
                assert(objects.deep_view() =~= before.update(i as int, (path_view, object_view)))
                    by {
                    assert forall|k: int| 0 <= k < raw.len() implies #[trigger] before[k]
                        == raw[k].deep_view() by {}
                }
                assert(before[i as int] == raw[i as int].deep_view());
                *self = Index { objects };
                return Some(old_entry.1);
            }
            i = i + 1;
        }
        assert(!has_path(before, path_view));
        objects.push((path, object));
        assert(objects.deep_view() =~= before.push((path_view, object_view)));
        *self = Index { objects };
        None
    }

    /// The record of `path`, if it has one.
    pub fn get(&self, path: &str) -> (r: Option<&Object>)
        ensures
            r.deep_view() == if self@.dom().contains(path@) {
                Some(self@[path@])
            } else {
                None
            },
    {
        proof {
            use_type_invariant(self);
        }
        let ghost entries = self.objects.deep_view();
        let wanted = String::from_str(path);
        let mut i: usize = 0;
        while i < self.objects.len()
            invariant
                i <= self.objects.len(),
                entries == self.objects.deep_view(),
                distinct_paths(entries),
                wanted@ == path@,
                forall|k: int| 0 <= k < i ==> (#[trigger] entries[k]).0 != path@,
            decreases self.objects.len() - i,
        {
            assert(entries[i as int].0 == self.objects[i as int].0@);
            if self.objects[i].0 == wanted {
                proof {
                    lemma_mapping_at(entries, i as int);
                }
                return Some(&self.objects[i].1);
            }
            i = i + 1;
        }
        assert(!has_path(entries, path@));
        None
    }
}

/// Where `path` stands among `entries`; meaningful when [`has_path`] holds.
pub open spec fn position(entries: Entries, path: Seq<char>) -> int {
    choose|i: int| 0 <= i < entries.len() && (#[trigger] entries[i]).0 == path
}

/// `entries` after `path` was given `object`: the record of a path that is
/// present is replaced where it stands, a new path goes to the end.
pub open spec fn inserted(entries: Entries, path: Seq<char>, object: ObjectView) -> Entries {
    if has_path(entries, path) {
        entries.update(position(entries, path), (path, object))
    } else {
        entries.push((path, object))
    }
}

/// Inserting keeps the paths distinct and stands for the insertion into the
/// mapping.
pub proof fn lemma_inserted(entries: Entries, path: Seq<char>, object: ObjectView)
    requires
        distinct_paths(entries),
    ensures
        distinct_paths(inserted(entries, path, object)),
        mapping(inserted(entries, path, object)) == mapping(entries).insert(path, object),
{
    let after = inserted(entries, path, object);
    if has_path(entries, path) {
        let at = position(entries, path);
        assert forall|i: int, j: int| 0 <= i < j < after.len() implies (#[trigger] after[i]).0 != (
        #[trigger] after[j]).0 by {
            assert(entries[i].0 != entries[j].0);
        }
        assert forall|p: Seq<char>| has_path(after, p) <==> has_path(entries, p) || p == path by {
            if has_path(after, p) {
                let k = choose|k: int| 0 <= k < after.len() && (#[trigger] after[k]).0 == p;
                assert(entries[k].0 == p);
            }
            if has_path(entries, p) {
                let k = choose|k: int| 0 <= k < entries.len() && (#[trigger] entries[k]).0 == p;
                assert(after[k].0 == p);
            }
        }
    } else {
        assert forall|i: int, j: int| 0 <= i < j < after.len() implies (#[trigger] after[i]).0 != (
        #[trigger] after[j]).0 by {
            if j < entries.len() {
                assert(entries[i].0 != entries[j].0);
            } else {
                assert(entries[i].0 != path);
            }
        }
        assert forall|p: Seq<char>| has_path(after, p) <==> has_path(entries, p) || p == path by {
            if has_path(after, p) {
                let k = choose|k: int| 0 <= k < after.len() && (#[trigger] after[k]).0 == p;
                if k < entries.len() {
                    assert(entries[k].0 == p);
                }
            }
            if has_path(entries, p) {
                let k = choose|k: int| 0 <= k < entries.len() && (#[trigger] entries[k]).0 == p;
                assert(after[k].0 == p);
            }
            if p == path {
                assert(after[after.len() - 1].0 == p);
            }
        }
    }
    assert forall|p: Seq<char>| has_path(after, p) implies #[trigger] mapping(after)[p] == mapping(
        entries,
    ).insert(path, object)[p] by {
        let k = choose|k: int| 0 <= k < after.len() && (#[trigger] after[k]).0 == p;
        lemma_mapping_at(after, k);
        if p != path {
            assert(entries[k].0 == p);
            lemma_mapping_at(entries, k);
        }
    }
    assert(mapping(after) =~= mapping(entries).insert(path, object));
}

/// Entries with distinct paths stand for a mapping of as many paths.
pub proof fn lemma_mapping_len(entries: Entries)
    requires
        distinct_paths(entries),
    ensures
        mapping(entries).dom().finite(),
        mapping(entries).dom().len() == entries.len(),
    decreases entries.len(),
{
    if entries.len() == 0 {
        assert(mapping(entries).dom() =~= Set::<Seq<char>>::empty());
    } else {
        let front = entries.drop_last();
        let last = entries.last();
        assert(distinct_paths(front)) by {
            assert forall|i: int, j: int| 0 <= i < j < front.len() implies (#[trigger] front[i]).0
                != (#[trigger] front[j]).0 by {
                assert(entries[i].0 != entries[j].0);
            }
        }
        lemma_mapping_len(front);
        assert(!mapping(front).dom().contains(last.0)) by {
            if has_path(front, last.0) {
                let k = choose|k: int| 0 <= k < front.len() && (#[trigger] front[k]).0 == last.0;
                assert(entries[k].0 != entries[entries.len() - 1].0);
            }
        }
        assert(mapping(entries).dom() =~= mapping(front).dom().insert(last.0)) by {
            assert forall|p: Seq<char>| mapping(entries).dom().contains(p) implies mapping(
                front,
            ).dom().insert(last.0).contains(p) by {
                let k = choose|k: int| 0 <= k < entries.len() && (#[trigger] entries[k]).0 == p;
                if k < front.len() {
                    assert(front[k].0 == p);
                }
            }
            assert forall|p: Seq<char>| mapping(front).dom().insert(last.0).contains(
                p,
            ) implies mapping(entries).dom().contains(p) by {
                if p == last.0 {
                    assert(entries[entries.len() - 1].0 == p);
                } else {
                    let k = choose|k: int| 0 <= k < front.len() && (#[trigger] front[k]).0 == p;
                    assert(entries[k].0 == p);
                }
            }
        }
    }
}

} // verus!
