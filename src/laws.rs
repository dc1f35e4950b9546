//! Properties that hold across several operations of the editor.

use vstd::prelude::*;
use crate::editor::{new_file_name, EditorModel, PromptModel};
use crate::names::{is_hidden, renamed_file_name};
use crate::path::{is_within, parent_or_self, EntryModel, PathModel};
use crate::scanner::{
    entry_node, is_listed, lemma_scan_same_entries, lemma_sorted_listing, names_unique, scan,
    sorted_listing,
};

verus! {

/// Re-reading the workspace a second time, with no change on disk between the
/// two reads, leaves the state as the first read left it, whatever order the
/// entries are listed in.
pub proof fn lemma_rescan_twice(m: EditorModel, first: Seq<EntryModel>, second: Seq<EntryModel>)
    requires
        names_unique(first),
        names_unique(second),
        forall|x: EntryModel| first.contains(x) <==> second.contains(x),
    ensures
        m.rescanned(first).rescanned(second) == m.rescanned(first),
{
    if let Some(root) = m.folder {
        lemma_scan_same_entries(root, first, second, true);
    }
}

/// After a file is selected and edited, the buffer holds unsaved edits; the
/// next autosave writes exactly the edited text to that file, and once the
/// write succeeded the buffer is clean and nothing more is owed.
pub proof fn lemma_edit_then_autosave(
    m: EditorModel,
    path: PathModel,
    read: Option<Seq<char>>,
    text: Seq<char>,
)
    ensures
        m.file_selected(path, read).edited(text).modified,
        m.file_selected(path, read).edited(text).autosave_request() == Some((path, text)),
        !m.file_selected(path, read).edited(text).saved(true).modified,
        m.file_selected(path, read).edited(text).saved(true).autosave_request() is None,
        m.file_selected(path, read).edited(text).saved(true).contents == text,
{
}

/// Trashing the selected item drops it from the selection and leaves the
/// buffer empty; trashing a path that neither is the selected item nor holds
/// it leaves the selection and the buffer as they were.
pub proof fn lemma_delete_and_selection(
    m: EditorModel,
    path: PathModel,
    listing: Seq<EntryModel>,
)
    requires
        m.wf(),
    ensures
        (m.selected_item matches Some(n) && n.0 == path) ==> {
            let d = m.deleted(path, true, listing);
            &&& d.selected_file is None
            &&& d.selected_item is None
            &&& d.contents == Seq::<char>::empty()
            &&& !d.modified
        },
        (forall|n: (PathModel, bool)| m.selected_item == Some(n) ==> !is_within(n.0, path)) ==> {
            let d = m.deleted(path, true, listing);
            &&& d.selected_item == m.selected_item
            &&& d.selected_file == m.selected_file
            &&& d.contents == m.contents
            &&& d.modified == m.modified
        },
{
    assert(path.subrange(0, path.len() as int) =~= path);
    if let Some(n) = m.selected_item {
        if n.0 == path && m.selected_file is None {
            assert(m.contents =~= Seq::<char>::empty());
        }
    }
}

/// Making `new_file.txt` and then trashing it leaves the top level as it was,
/// where the root afterwards holds the same entries as before.
pub proof fn lemma_create_then_delete(
    m: EditorModel,
    parent: PathModel,
    before: Seq<EntryModel>,
    with_file: Seq<EntryModel>,
    after: Seq<EntryModel>,
)
    requires
        m.folder is Some,
        m.files == scan(m.folder->Some_0, before, true),
        names_unique(before),
        names_unique(after),
        forall|x: EntryModel| before.contains(x) <==> after.contains(x),
    ensures
        m.text_file_added(parent, with_file).deleted(parent.push(new_file_name()), true, after).files
            == m.files,
{
    lemma_scan_same_entries(m.folder->Some_0, before, after, true);
}

/// A rename of a file in the root, once done, leaves the new path in the top
/// level and the old one gone from it, where the root's listing afterwards
/// holds the new name and not the old.
pub proof fn lemma_rename_updates_files(
    m: EditorModel,
    root: PathModel,
    old_name: Seq<char>,
    new_name: Seq<char>,
    listing: Seq<EntryModel>,
)
    requires
        m.folder == Some(root),
        root.len() > 0,
        m.prompt == (PromptModel::Rename { target: (root.push(old_name), false), name: new_name }),
        new_name.len() > 0,
        !is_hidden(new_name),
        names_unique(listing),
        listing.contains((renamed_file_name(new_name, false), false)),
        forall|i: int| 0 <= i < listing.len() ==> (#[trigger] listing[i]).0 != old_name,
    ensures
        m.rename_request() == Some(
            (root.push(old_name), root.push(renamed_file_name(new_name, false))),
        ),
        m.renamed(true, listing).files.contains(
            (root.push(renamed_file_name(new_name, false)), false),
        ),
        forall|is_dir: bool| !m.renamed(true, listing).files.contains((root.push(old_name), is_dir)),
{
    let to_name = renamed_file_name(new_name, false);
    assert(parent_or_self(root.push(old_name)) =~= root);
    assert(to_name[0] == new_name[0]);
    assert(is_listed((to_name, false), true));
    lemma_sorted_listing(listing, true);
    let s = sorted_listing(listing, true);
    let f = |x: EntryModel| entry_node(root, x);
    let files = m.renamed(true, listing).files;
    assert(files == s.map_values(f));
    assert(s.contains((to_name, false)));
    let k = choose|k: int| 0 <= k < s.len() && s[k] == (to_name, false);
    assert(files[k] == (root.push(to_name), false));
    assert forall|is_dir: bool| !files.contains((root.push(old_name), is_dir)) by {
        if files.contains((root.push(old_name), is_dir)) {
            let j = choose|j: int| 0 <= j < files.len() && files[j] == (root.push(old_name), is_dir);
            let e = s[j];
            assert(root.push(e.0).last() == e.0);
            assert(s.contains(e));
            let i = choose|i: int| 0 <= i < listing.len() && listing[i] == e;
        }
    }
}

} // verus!
