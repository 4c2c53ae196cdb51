//! What a walk of a directory tree yields, and which of it is work: the
//! regular files.

use vstd::prelude::*;

use crate::text::texts;

verus! {

/// One step of a walk of a directory tree.
#[derive(Clone, Debug, PartialEq, Eq)]
pub enum WalkEntry {
    /// Something that the walk could not read: a directory that may not be
    /// listed, a link that leads nowhere.
    Unreadable,
    /// Something that the walk found.
    Found {
        /// Its path, starting with the root of the walk.
        path: String,
        /// Whether it is a regular file, and so neither a directory nor a
        /// link.
        is_file: bool,
    },
}

/// A walk entry as plain text.
pub enum EntryView {
    Unreadable,
    Found { path: Seq<char>, is_file: bool },
}

impl View for WalkEntry {
    type V = EntryView;

    open spec fn view(&self) -> EntryView {
        match self {
            WalkEntry::Unreadable => EntryView::Unreadable,
            WalkEntry::Found { path, is_file } => EntryView::Found { path: path@, is_file: *is_file },
        }
    }
}

/// The views of `entries`, in order.
pub open spec fn entry_views(entries: Seq<WalkEntry>) -> Seq<EntryView> {
    entries.map_values(|e: WalkEntry| e@)
}

/// Whether `entry` is a regular file that the walk could read.
pub open spec fn is_regular_file(entry: EntryView) -> bool {
    entry matches EntryView::Found { is_file, .. } && is_file
}

/// The paths of the regular files among `entries`, in the order of the
/// walk. What could not be read, and what is no regular file, is left out.
pub open spec fn spec_regular_files(entries: Seq<EntryView>) -> Seq<Seq<char>>
    decreases entries.len(),
{
    if entries.len() == 0 {
        Seq::empty()
    } else if is_regular_file(entries.last()) {
        spec_regular_files(entries.drop_last()).push(entries.last()->path)
    } else {
        spec_regular_files(entries.drop_last())
    }
}

/// How many of `entries` are regular files.
pub open spec fn regular_file_count(entries: Seq<EntryView>) -> nat
    decreases entries.len(),
{
    if entries.len() == 0 {
        0
    } else if is_regular_file(entries.last()) {
        regular_file_count(entries.drop_last()) + 1
    } else {
        regular_file_count(entries.drop_last())
    }
}

/// The regular files of a walk are as many as the walk has entries that
/// are regular files, and they are the same paths, each as often as the
/// walk yields it.
pub proof fn lemma_regular_files_exact(entries: Seq<EntryView>)
    ensures
        spec_regular_files(entries).len() == regular_file_count(entries),
        forall|path: Seq<char>| #[trigger]
            spec_regular_files(entries).to_multiset().count(path) == entries.to_multiset().count(
                EntryView::Found { path, is_file: true },
            ),
    decreases entries.len(),
{
    broadcast use vstd::seq_lib::group_to_multiset_ensures;

    if entries.len() > 0 {
        let rest = entries.drop_last();
        let last = entries.last();
        lemma_regular_files_exact(rest);
        assert(entries == rest.push(last));
        assert forall|path: Seq<char>| #[trigger]
            spec_regular_files(entries).to_multiset().count(path) == entries.to_multiset().count(
                EntryView::Found { path, is_file: true },
            ) by {
            let wanted = EntryView::Found { path, is_file: true };
            assert(spec_regular_files(rest).to_multiset().count(path) == rest.to_multiset().count(
                wanted,
            ));
            assert(entries.to_multiset() == rest.to_multiset().insert(last));
            if is_regular_file(last) {
                assert(spec_regular_files(entries).to_multiset() == spec_regular_files(
                    rest,
                ).to_multiset().insert(last->path));
                assert(last == EntryView::Found { path: last->path, is_file: true });
            }
        }
    }
}

/// The regular files among the entries of a walk, in the order of the
/// walk.
///
/// Entries that could not be read are passed over in silence, and so are
/// directories and links.
pub fn regular_files(entries: &Vec<WalkEntry>) -> (files: Vec<String>)
    ensures
        texts(files@) == spec_regular_files(entry_views(entries@)),
        files.len() == regular_file_count(entry_views(entries@)),
{
    let mut files: Vec<String> = Vec::new();
    let ghost views = entry_views(entries@);
    for i in 0..entries.len()
        invariant
            views == entry_views(entries@),
            texts(files@) == spec_regular_files(views.take(i as int)),
    {
        proof {
            assert(views.take(i + 1).drop_last() == views.take(i as int));
            assert(views.take(i + 1).last() == entries@[i as int]@);
        }
        match &entries[i] {
            WalkEntry::Found { path, is_file } => {
                if *is_file {
                    let ghost before = files@;
                    files.push(path.clone());
                    assert(texts(files@) == texts(before).push(path@));
                }
            },
            WalkEntry::Unreadable => {},
        }
    }
    proof {
        assert(views.take(entries.len() as int) == views);
        lemma_regular_files_exact(views);
    }
    files
}

} // verus!
