//! Paths as text: joining two paths, and the stem of a file name.
//!
//! A path is a string whose components are separated by `/`.

use vstd::prelude::*;

verus! {

/// A path is absolute when it begins with the separator.
pub open spec fn is_absolute(p: Seq<char>) -> bool {
    p.len() > 0 && p[0] == '/'
}

/// `base / rel`. An absolute `rel` stands alone. Otherwise `rel` is appended
/// to `base`, with one separator between the two unless `base` is empty or
/// ends in a separator already.
pub open spec fn joined(base: Seq<char>, rel: Seq<char>) -> Seq<char> {
    if is_absolute(rel) {
        rel
    } else if base.len() == 0 || base.last() == '/' {
        base + rel
    } else {
        base + seq!['/'] + rel
    }
}

/// Joins `rel` onto `base`.
pub fn join(base: &str, rel: &str) -> (r: String)
    ensures
        r@ == joined(base@, rel@),
{
    let rel_len: usize = rel.unicode_len();
    if rel_len > 0 && rel.get_char(0) == '/' {
        return String::from_str(rel);
    }
    let base_len: usize = base.unicode_len();
    let mut out = String::from_str(base);
    if base_len > 0 && base.get_char(base_len - 1) != '/' {
        proof {
            reveal_strlit("/");
        }
        out.append("/");
        assert("/"@ =~= seq!['/']);
    }
    out.append(rel);
    out
}

/// The position of the last `.` in `name`, or -1 where `name` holds none.
pub open spec fn last_dot(name: Seq<char>) -> int
    decreases name.len(),
{
    if name.len() == 0 {
        -1
    } else if name.last() == '.' {
        name.len() - 1
    } else {
        last_dot(name.drop_last())
    }
}

/// [`last_dot`] is where it says: a `.` stands there and none after it, and
/// it is -1 exactly where `name` holds no `.` at all.
pub proof fn lemma_last_dot(name: Seq<char>)
    ensures
        -1 <= last_dot(name) < name.len(),
        last_dot(name) >= 0 ==> name[last_dot(name)] == '.',
        forall|k: int| last_dot(name) < k < name.len() ==> name[k] != '.',
        last_dot(name) == -1 <==> !name.contains('.'),
    decreases name.len(),
{
    if name.len() > 0 && name.last() != '.' {
        let front = name.drop_last();
        lemma_last_dot(front);
        assert forall|k: int| last_dot(name) < k < name.len() implies name[k] != '.' by {
            if k < front.len() {
                assert(front[k] == name[k]);
            }
        }
        if last_dot(front) >= 0 {
            assert(name[last_dot(front)] == front[last_dot(front)]);
        }
    }
}

/// The stem of the file name `name`: the name without its final extension,
/// that is the text before its last `.`, or all of it where it holds no `.`.
///
/// There is no stem where that text is empty (an empty name, or a name whose
/// only `.` is its first character), nor where `name` is no file name at
/// all: the parent marker `..`, or text that holds a separator.
pub open spec fn stem_of(name: Seq<char>) -> Option<Seq<char>> {
    let dot = last_dot(name);
    let stem = if dot < 0 {
        name
    } else {
        name.take(dot)
    };
    if name.contains('/') || name == seq!['.', '.'] || stem.len() == 0 {
        None
    } else {
        Some(stem)
    }
}

/// Whether `text` can stand as one component of a path: it is not empty and
/// holds no separator.
pub open spec fn is_component(text: Seq<char>) -> bool {
    text.len() > 0 && !text.contains('/')
}

/// A stem is one component of a path, and the file name begins with it.
pub proof fn lemma_stem_is_component(name: Seq<char>)
    requires
        stem_of(name) is Some,
    ensures
        is_component(stem_of(name)->0),
        stem_of(name)->0.is_prefix_of(name),
{
    lemma_last_dot(name);
    let stem = stem_of(name)->0;
    if stem.contains('/') {
        let k = choose|k: int| 0 <= k < stem.len() && stem[k] == '/';
        assert(name[k] == '/');
    }
}

/// The stem of the file name `name`, if it has one.
pub fn file_stem(name: &str) -> (r: Option<String>)
    ensures
        r.deep_view() == stem_of(name@),
{
    let total: usize = name.unicode_len();
    let mut seen: usize = 0;
    let mut slash = false;
    let mut only_dots = true;
    // One more than the position of the last `.` seen, 0 where none was.
    let mut after_dot: usize = 0;
    for c in it: name.chars()
        invariant
            it.seq() == name@,
            total == name@.len(),
            seen == it.index(),
            slash == name@.take(seen as int).contains('/'),
            only_dots == (forall|k: int| 0 <= k < seen ==> name@[k] == '.'),
            after_dot as int == last_dot(name@.take(seen as int)) + 1,
    {
        proof {
            let before = name@.take(seen as int);
            let after = name@.take(seen + 1);
            assert(after.drop_last() =~= before);
            assert(after.last() == c);
            if before.contains('/') {
                let k = choose|k: int| 0 <= k < before.len() && before[k] == '/';
                assert(after[k] == '/');
            }
            if after.contains('/') && c != '/' {
                let k = choose|k: int| 0 <= k < after.len() && after[k] == '/';
                assert(before[k] == '/');
            }
        }
        seen = seen + 1;
        if c == '/' {
            slash = true;
        }
        if c == '.' {
            after_dot = seen;
        } else {
            only_dots = false;
        }
    }
    assert(name@.take(seen as int) =~= name@);
    proof {
        lemma_last_dot(name@);
        if total == 2 && only_dots {
            assert(name@ =~= seq!['.', '.']);
        }
    }
    let stem_len: usize = if after_dot == 0 {
        total
    } else {
        after_dot - 1
    };
    if slash || (total == 2 && only_dots) || stem_len == 0 {
        None
    } else {
        let stem = String::from_str(name.substring_char(0, stem_len));
        assert(name@.subrange(0, stem_len as int) =~= name@.take(stem_len as int));
        assert(name@.take(total as int) =~= name@);
        Some(stem)
    }
}

} // verus!
