//! What can end a run, and how each failure reads.

use vstd::prelude::*;

verus! {

/// What an [`Error`] is, as plain mathematical values.
pub enum ErrorView {
    AssetsFolderNotFound(Seq<Seq<char>>),
    IndexesFolderNotFound(Seq<Seq<char>>),
    InvalidIndexFile(Seq<char>),
    MalformedIndex { path: Seq<char>, message: Seq<char> },
    Filesystem { paths: Seq<Seq<char>>, message: Seq<char> },
    UnexpectedEvent,
}

/// A failure that ends a run. None is recovered from, and none is retried.
#[derive(Debug, Hash, PartialEq, Eq, PartialOrd, Ord)]
#[non_exhaustive]
pub enum Error {
    /// The root is not an existing folder. Holds the paths that were tried.
    AssetsFolderNotFound(Vec<String>),
    /// The root has no folder of manifests. Holds the paths that were tried.
    IndexesFolderNotFound(Vec<String>),
    /// The name of a manifest file gives no stem to call its package by.
    /// Holds the path of that file.
    InvalidIndexFile(String),
    /// A manifest file was read but its contents are no manifest.
    MalformedIndex { path: String, message: String },
    /// The file system refused an action. Holds the paths that the action
    /// was about and what the system said.
    Filesystem { paths: Vec<String>, message: String },
    /// The run was told of something that does not answer what it had asked
    /// for.
    UnexpectedEvent,
}

impl View for Error {
    type V = ErrorView;

    open spec fn view(&self) -> ErrorView {
        match self {
            Error::AssetsFolderNotFound(paths) => ErrorView::AssetsFolderNotFound(
                paths.deep_view(),
            ),
            Error::IndexesFolderNotFound(paths) => ErrorView::IndexesFolderNotFound(
                paths.deep_view(),
            ),
            Error::InvalidIndexFile(path) => ErrorView::InvalidIndexFile(path@),
            Error::MalformedIndex { path, message } => ErrorView::MalformedIndex {
                path: path@,
                message: message@,
            },
            Error::Filesystem { paths, message } => ErrorView::Filesystem {
                paths: paths.deep_view(),
                message: message@,
            },
            Error::UnexpectedEvent => ErrorView::UnexpectedEvent,
        }
    }
}

impl DeepView for Error {
    type V = ErrorView;

    open spec fn deep_view(&self) -> ErrorView {
        self@
    }
}

/// The paths one after another, each followed by a comma and a space.
pub open spec fn listed(paths: Seq<Seq<char>>) -> Seq<char>
    decreases paths.len(),
{
    if paths.len() == 0 {
        Seq::empty()
    } else {
        listed(paths.drop_last()) + paths.last() + seq![',', ' ']
    }
}

/// Whether `text` ends in a comma and a space.
pub open spec fn ends_in_comma_space(text: Seq<char>) -> bool {
    text.len() >= 2 && text[text.len() - 2] == ',' && text[text.len() - 1] == ' '
}

/// `text` without any comma and space at its end: they are taken off as
/// long as there are any, also those that a path ended in.
pub open spec fn trimmed(text: Seq<char>) -> Seq<char>
    decreases text.len(),
{
    if ends_in_comma_space(text) {
        trimmed(text.take(text.len() - 2))
    } else {
        text
    }
}

/// How a failure reads.
pub open spec fn message_of(error: ErrorView) -> Seq<char> {
    match error {
        ErrorView::AssetsFolderNotFound(paths) => "Could not find assets folder. Tried "@
            + trimmed(listed(paths)),
        ErrorView::IndexesFolderNotFound(paths) => "Could not find indexes folder. Tried "@
            + trimmed(listed(paths)),
        ErrorView::InvalidIndexFile(path) => "Invalid index file "@ + path,
        ErrorView::MalformedIndex { path, message } => "Could not parse index file "@ + path
            + ": "@ + message,
        ErrorView::Filesystem { paths, message } => "File system error at "@ + trimmed(
            listed(paths),
        ) + ": "@ + message,
        ErrorView::UnexpectedEvent => "Unexpected event"@,
    }
}

/// Writes the paths one after another, each followed by a comma and a space.
fn list_paths(paths: &Vec<String>) -> (r: String)
    ensures
        r@ == listed(paths.deep_view()),
{
    proof {
        reveal_strlit(", ");
    }
    assert(", "@ =~= seq![',', ' ']);
    let mut out = String::new();
    let mut i: usize = 0;
    while i < paths.len()
        invariant
            i <= paths.len(),
            ", "@ == seq![',', ' '],
            out@ == listed(paths.deep_view().take(i as int)),
        decreases paths.len() - i,
    {
        proof {
            let upto = paths.deep_view().take(i + 1);
            assert(upto.drop_last() =~= paths.deep_view().take(i as int));
            assert(upto.last() == paths[i as int]@);
        }
        out.append(paths[i].as_str());
        out.append(", ");
        i = i + 1;
    }
    assert(paths.deep_view().take(i as int) =~= paths.deep_view());
    out
}

/// Takes every comma and space off the end of `text`.
fn trim_list(text: &str) -> (r: &str)
    ensures
        r@ == trimmed(text@),
{
    let mut end: usize = text.unicode_len();
    assert(text@.take(end as int) =~= text@);
    while end >= 2 && text.get_char(end - 2) == ',' && text.get_char(end - 1) == ' '
        invariant
            end <= text@.len(),
            trimmed(text@) == trimmed(text@.take(end as int)),
        decreases end,
    {
        proof {
            let now = text@.take(end as int);
            assert(ends_in_comma_space(now));
            assert(now.take(now.len() - 2) =~= text@.take(end - 2));
        }
        end = end - 2;
    }
    proof {
        let now = text@.take(end as int);
        assert(!ends_in_comma_space(now));
        assert(text@.subrange(0, end as int) =~= now);
    }
    text.substring_char(0, end)
}

impl Error {
    /// How the failure reads, with the paths that it is about.
    pub fn message(&self) -> (r: String)
        ensures
            r@ == message_of(self@),
    {
        match self {
            Error::AssetsFolderNotFound(paths) => {
                let list = list_paths(paths);
                let mut out = String::from_str("Could not find assets folder. Tried ");
                out.append(trim_list(list.as_str()));
                out
            },
            Error::IndexesFolderNotFound(paths) => {
                let list = list_paths(paths);
                let mut out = String::from_str("Could not find indexes folder. Tried ");
                out.append(trim_list(list.as_str()));
                out
            },
            Error::InvalidIndexFile(path) => {
                let mut out = String::from_str("Invalid index file ");
                out.append(path.as_str());
                out
            },
            Error::MalformedIndex { path, message } => {
                let mut out = String::from_str("Could not parse index file ");
                out.append(path.as_str());
                out.append(": ");
                out.append(message.as_str());
                out
            },
            Error::Filesystem { paths, message } => {
                let list = list_paths(paths);
                let mut out = String::from_str("File system error at ");
                out.append(trim_list(list.as_str()));
                out.append(": ");
                out.append(message.as_str());
                out
            },
            Error::UnexpectedEvent => String::from_str("Unexpected event"),
        }
    }
}

} // verus!
