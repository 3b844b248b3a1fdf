//! Where things are under a root folder.
//!
//! ```text
//! <root>/indexes/<package>.<ext>        one manifest per package
//! <root>/objects/<h0><h1>/<hash>        blobs, named by their hash
//! <root>/files/<package>/<logical path> reconstructed output
//! ```

use crate::path::{is_absolute, is_component, join, joined};
use vstd::prelude::*;

verus! {

/// The text `indexes`.
pub open spec fn indexes_name() -> Seq<char> {
    seq!['i', 'n', 'd', 'e', 'x', 'e', 's']
}

/// The text `files`.
pub open spec fn files_name() -> Seq<char> {
    seq!['f', 'i', 'l', 'e', 's']
}

/// The text `objects/`.
pub open spec fn objects_prefix() -> Seq<char> {
    seq!['o', 'b', 'j', 'e', 'c', 't', 's', '/']
}

/// The folder that holds the manifests: `<root>/indexes`.
pub open spec fn indexes_dir(root: Seq<char>) -> Seq<char> {
    joined(root, indexes_name())
}

/// The manifest file called `name`: `<root>/indexes/<name>`.
pub open spec fn index_path(root: Seq<char>, name: Seq<char>) -> Seq<char> {
    joined(indexes_dir(root), name)
}

/// The folder that a package is reconstructed in: `<root>/files/<package>`.
pub open spec fn output_dir(root: Seq<char>, package: Seq<char>) -> Seq<char> {
    joined(joined(root, files_name()), package)
}

/// The file that a logical path of a package is reconstructed as:
/// `<root>/files/<package>/<logical>`. The logical path is used as it is
/// written; nothing in it is rejected or cleaned.
pub open spec fn output_path(root: Seq<char>, package: Seq<char>, logical: Seq<char>) -> Seq<
    char,
> {
    joined(output_dir(root, package), logical)
}

/// The shard of a hash: its first two characters, or all of it where it has
/// fewer.
pub open spec fn shard(hash: Seq<char>) -> Seq<char> {
    if hash.len() < 2 {
        hash
    } else {
        hash.take(2)
    }
}

/// The file that holds the blob named `hash`:
/// `<root>/objects/<shard of hash>/<hash>`.
pub open spec fn object_path(root: Seq<char>, hash: Seq<char>) -> Seq<char> {
    joined(root, objects_prefix() + shard(hash) + seq!['/'] + hash)
}

/// The folder that holds the manifests of `root`.
pub fn indexes_dir_of(root: &str) -> (r: String)
    ensures
        r@ == indexes_dir(root@),
{
    proof {
        reveal_strlit("indexes");
    }
    assert("indexes"@ =~= indexes_name());
    join(root, "indexes")
}

/// The manifest file called `name` under `root`.
pub fn index_path_of(root: &str, name: &str) -> (r: String)
    ensures
        r@ == index_path(root@, name@),
{
    let dir = indexes_dir_of(root);
    join(dir.as_str(), name)
}

/// The folder that `package` is reconstructed in under `root`.
pub fn output_dir_of(root: &str, package: &str) -> (r: String)
    ensures
        r@ == output_dir(root@, package@),
{
    proof {
        reveal_strlit("files");
    }
    assert("files"@ =~= files_name());
    let files = join(root, "files");
    join(files.as_str(), package)
}

/// The file that the logical path `logical` of `package` is reconstructed as
/// under `root`.
pub fn output_path_of(root: &str, package: &str, logical: &str) -> (r: String)
    ensures
        r@ == output_path(root@, package@, logical@),
{
    let dir = output_dir_of(root, package);
    join(dir.as_str(), logical)
}

/// Resolves a hash to the file that holds its blob under `root`. Nothing is
/// asked of the hash: one that is too short or malformed gives a path all the
/// same, and no file is looked for.
pub fn resolve(root: &str, hash: &str) -> (r: String)
    ensures
        r@ == object_path(root@, hash@),
{
    let len: usize = hash.unicode_len();
    let cut: usize = if len < 2 {
        len
    } else {
        2
    };
    let first = hash.substring_char(0, cut);
    assert(first@ =~= shard(hash@));
    proof {
        reveal_strlit("objects/");
        reveal_strlit("/");
    }
    assert("objects/"@ =~= objects_prefix());
    assert("/"@ =~= seq!['/']);
    let mut rel = String::from_str("objects/");
    rel.append(first);
    rel.append("/");
    rel.append(hash);
    join(root, rel.as_str())
}

/// `root` as the front of every path under it: it ends in a separator,
/// unless it is empty.
pub open spec fn under(root: Seq<char>) -> Seq<char> {
    if root.len() == 0 || root.last() == '/' {
        root
    } else {
        root + seq!['/']
    }
}

/// The path of a blob is never absolute by itself, so it lies under the root
/// it was resolved against: it is the root, then `objects/`, the shard, a
/// separator and the hash.
pub proof fn lemma_object_path_shape(root: Seq<char>, hash: Seq<char>)
    ensures
        object_path(root, hash) == under(root) + objects_prefix() + shard(hash) + seq!['/']
            + hash,
{
    let rel = objects_prefix() + shard(hash) + seq!['/'] + hash;
    assert(rel[0] == 'o');
    assert(object_path(root, hash) =~= under(root) + objects_prefix() + shard(hash) + seq!['/']
        + hash);
}

/// Where the package is one component and the logical path is not absolute,
/// the reconstructed file lies in the folder of its package: its path is the
/// root, then `files`, the package and the logical path, with a separator
/// after each but the last.
pub proof fn lemma_output_path_shape(root: Seq<char>, package: Seq<char>, logical: Seq<char>)
    requires
        is_component(package),
        !is_absolute(logical),
    ensures
        output_path(root, package, logical) == under(root) + files_name() + seq!['/'] + package
            + seq!['/'] + logical,
{
    let files = joined(root, files_name());
    assert(files_name()[0] == 'f');
    assert(files =~= under(root) + files_name());
    assert(files.last() == 's');
    assert(package[0] != '/');
    let dir = output_dir(root, package);
    assert(dir =~= files + seq!['/'] + package);
    assert(dir.last() == package.last());
    assert(package.last() != '/');
    assert(output_path(root, package, logical) =~= under(root) + files_name() + seq!['/']
        + package + seq!['/'] + logical);
}

} // verus!
