//! The editor's state: the open workspace, the selection, the edit buffer
//! with its dirty flag, the side viewer and the pending prompt.
//!
//! Every operation is stated as a transition of [`EditorModel`]. Those that
//! follow work on disk take that work's outcome (what a read returned,
//! whether a write or a trash succeeded, the folder's listing afterwards).

use vstd::prelude::*;
use crate::names::{
    rename_stem, renamed_file_name, renamed_name, stem_for_rename,
};
use crate::path::{
    clone_opt_path, is_within, last_name, opt_is_within, opt_node, opt_path, opt_rebased,
    opt_rebased_path, opt_within, parent_or_self, rebased,
    DirEntry, Node, NodeModel, NodePath, PathModel,
};
use crate::scanner::{entries_view, nodes_view, scan, scan_directory};

verus! {

/// A prompt that waits for the user.
pub enum Prompt {
    Idle,
    /// Renaming `target`; `name` is the name as typed, without `.txt`.
    Rename { target: Node, name: String },
    /// Creating a folder named `name` in `parent`.
    NewFolder { parent: NodePath, name: String },
}

pub enum PromptModel {
    Idle,
    Rename { target: NodeModel, name: Seq<char> },
    NewFolder { parent: PathModel, name: Seq<char> },
}

impl View for Prompt {
    type V = PromptModel;

    open spec fn view(&self) -> PromptModel {
        match self {
            Prompt::Idle => PromptModel::Idle,
            Prompt::Rename { target, name } => PromptModel::Rename { target: target@, name: name@ },
            Prompt::NewFolder { parent, name } => PromptModel::NewFolder {
                parent: parent@,
                name: name@,
            },
        }
    }
}

/// The editor's state as values.
pub struct EditorModel {
    pub folder: Option<PathModel>,
    pub files: Seq<NodeModel>,
    pub selected_item: Option<NodeModel>,
    pub selected_file: Option<PathModel>,
    pub contents: Seq<char>,
    pub modified: bool,
    pub right_file: Option<PathModel>,
    pub right_contents: Seq<char>,
    pub prompt: PromptModel,
}

pub struct TxtEditorApp {
    /// The workspace root.
    pub folder_path: Option<NodePath>,
    /// The top-level entries under the root, as last read from disk.
    pub file_list: Vec<Node>,
    pub selected_item: Option<Node>,
    /// Set only while the selection is a file.
    pub selected_file: Option<NodePath>,
    /// The edit buffer.
    pub file_contents: String,
    /// The buffer holds edits not yet written.
    pub file_modified: bool,
    /// The file shown in the side viewer.
    pub right_panel_file: Option<NodePath>,
    pub right_panel_contents: String,
    pub prompt: Prompt,
}

impl View for TxtEditorApp {
    type V = EditorModel;

    open spec fn view(&self) -> EditorModel {
        EditorModel {
            folder: opt_path(self.folder_path),
            files: nodes_view(self.file_list@),
            selected_item: opt_node(self.selected_item),
            selected_file: opt_path(self.selected_file),
            contents: self.file_contents@,
            modified: self.file_modified,
            right_file: opt_path(self.right_panel_file),
            right_contents: self.right_panel_contents@,
            prompt: self.prompt@,
        }
    }
}

/// The text that stands in the buffer for a file that could not be read.
pub open spec fn read_failure_text() -> Seq<char> {
    "Failed to read file"@
}

/// What a viewer shows for a read: the text, or the failure notice.
pub open spec fn shown_text(read: Option<Seq<char>>) -> Seq<char> {
    match read {
        Some(t) => t,
        None => read_failure_text(),
    }
}

pub open spec fn opt_text(o: Option<String>) -> Option<Seq<char>> {
    match o {
        Some(s) => Some(s@),
        None => None,
    }
}

/// The name of a file made by the new-file action, before it is renamed.
pub open spec fn new_file_stem() -> Seq<char> {
    "new_file"@
}

pub open spec fn new_file_name() -> Seq<char> {
    "new_file.txt"@
}

impl EditorModel {
    /// The selected file and a selected file item name the same path; only a
    /// selected file can hold unsaved edits, and without one the buffer is
    /// empty.
    pub open spec fn wf(self) -> bool {
        &&& (self.selected_file matches Some(p) ==> self.selected_item == Some((p, false)))
        &&& (self.selected_item matches Some(n) ==> (!n.1 ==> self.selected_file == Some(n.0)))
        &&& (self.modified ==> self.selected_file is Some)
        &&& (self.selected_file is None ==> self.contents.len() == 0)
    }

    pub open spec fn empty() -> EditorModel {
        EditorModel {
            folder: None,
            files: Seq::empty(),
            selected_item: None,
            selected_file: None,
            contents: Seq::empty(),
            modified: false,
            right_file: None,
            right_contents: Seq::empty(),
            prompt: PromptModel::Idle,
        }
    }

    /// The top level re-read from the listing of the root.
    pub open spec fn rescanned(self, listing: Seq<(Seq<char>, bool)>) -> EditorModel {
        match self.folder {
            Some(root) => EditorModel { files: scan(root, listing, true), ..self },
            None => self,
        }
    }

    /// A new workspace at `root`, which is selected.
    pub open spec fn opened(root: PathModel, listing: Seq<(Seq<char>, bool)>) -> EditorModel {
        EditorModel {
            folder: Some(root),
            files: scan(root, listing, true),
            selected_item: Some((root, true)),
            ..EditorModel::empty()
        }
    }

    /// The file `path` selected, with what reading it gave in the buffer.
    pub open spec fn file_selected(self, path: PathModel, read: Option<Seq<char>>) -> EditorModel {
        EditorModel {
            selected_item: Some((path, false)),
            selected_file: Some(path),
            contents: shown_text(read),
            modified: false,
            ..self
        }
    }

    /// The folder `path` selected: no file, an empty buffer.
    pub open spec fn dir_selected(self, path: PathModel) -> EditorModel {
        EditorModel {
            selected_item: Some((path, true)),
            selected_file: None,
            contents: Seq::empty(),
            modified: false,
            ..self
        }
    }

    /// The buffer replaced by `text` and marked as modified, where a file is
    /// open.
    pub open spec fn edited(self, text: Seq<char>) -> EditorModel {
        if self.selected_file is Some {
            EditorModel { contents: text, modified: true, ..self }
        } else {
            self
        }
    }

    /// What the autosave writes: the buffer, to the selected file, while it
    /// holds unsaved edits.
    pub open spec fn autosave_request(self) -> Option<(PathModel, Seq<char>)> {
        match self.selected_file {
            Some(p) => if self.modified {
                Some((p, self.contents))
            } else {
                None
            },
            None => None,
        }
    }

    /// After the autosave's write: a write that succeeded clears the dirty
    /// flag; one that failed leaves it for the next round.
    pub open spec fn saved(self, written: bool) -> EditorModel {
        if written {
            EditorModel { modified: false, ..self }
        } else {
            self
        }
    }

    pub open spec fn right_opened(self, path: PathModel, read: Option<Seq<char>>) -> EditorModel {
        EditorModel { right_file: Some(path), right_contents: shown_text(read), ..self }
    }

    pub open spec fn right_edited(self, text: Seq<char>) -> EditorModel {
        if self.right_file is Some {
            EditorModel { right_contents: text, ..self }
        } else {
            self
        }
    }

    /// Where new files and folders go: the selected folder, the folder of
    /// the selected file, or else the workspace root.
    pub open spec fn target_directory(self) -> Option<PathModel> {
        match self.selected_item {
            Some(n) => if n.1 {
                Some(n.0)
            } else {
                Some(parent_or_self(n.0))
            },
            None => self.folder,
        }
    }

    /// After `new_file.txt` was made in `parent`: the rename prompt for it is
    /// open, and the top level is re-read.
    pub open spec fn text_file_added(
        self,
        parent: PathModel,
        listing: Seq<(Seq<char>, bool)>,
    ) -> EditorModel {
        EditorModel {
            prompt: PromptModel::Rename {
                target: (parent.push(new_file_name()), false),
                name: new_file_stem(),
            },
            ..self
        }.rescanned(listing)
    }

    pub open spec fn rename_begun(self, target: NodeModel) -> EditorModel {
        EditorModel {
            prompt: PromptModel::Rename {
                target,
                name: if target.1 {
                    last_name(target.0)
                } else {
                    stem_for_rename(last_name(target.0))
                },
            },
            ..self
        }
    }

    pub open spec fn folder_prompt_begun(self) -> EditorModel {
        match self.target_directory() {
            Some(d) => EditorModel {
                prompt: PromptModel::NewFolder { parent: d, name: Seq::empty() },
                ..self
            },
            None => self,
        }
    }

    pub open spec fn prompt_named(self, name: Seq<char>) -> EditorModel {
        match self.prompt {
            PromptModel::Idle => self,
            PromptModel::Rename { target, name: _ } => EditorModel {
                prompt: PromptModel::Rename { target, name },
                ..self
            },
            PromptModel::NewFolder { parent, name: _ } => EditorModel {
                prompt: PromptModel::NewFolder { parent, name },
                ..self
            },
        }
    }

    pub open spec fn prompt_closed(self) -> EditorModel {
        EditorModel { prompt: PromptModel::Idle, ..self }
    }

    /// The move that the pending rename asks for: from the target to the
    /// typed name (with `.txt` put back on a file) in the same folder.
    pub open spec fn rename_request(self) -> Option<(PathModel, PathModel)> {
        match self.prompt {
            PromptModel::Rename { target, name } => Some(
                (target.0, parent_or_self(target.0).push(renamed_file_name(name, target.1))),
            ),
            _ => None,
        }
    }

    /// After the rename was tried: the prompt is closed; where it succeeded,
    /// whatever pointed at the old path or under it points at the new one,
    /// and the top level is re-read.
    pub open spec fn renamed(self, done: bool, listing: Seq<(Seq<char>, bool)>) -> EditorModel {
        match self.rename_request() {
            Some((from, to)) => if done {
                EditorModel {
                    selected_item: match self.selected_item {
                        Some(n) => Some((rebased(n.0, from, to), n.1)),
                        None => None,
                    },
                    selected_file: opt_rebased(self.selected_file, from, to),
                    right_file: opt_rebased(self.right_file, from, to),
                    prompt: PromptModel::Idle,
                    ..self
                }.rescanned(listing)
            } else {
                self.prompt_closed()
            },
            None => self.prompt_closed(),
        }
    }

    /// The folder that the pending new-folder prompt asks for.
    pub open spec fn new_folder_request(self) -> Option<PathModel> {
        match self.prompt {
            PromptModel::NewFolder { parent, name } => Some(parent.push(name)),
            _ => None,
        }
    }

    pub open spec fn folder_created(
        self,
        done: bool,
        listing: Seq<(Seq<char>, bool)>,
    ) -> EditorModel {
        if done {
            self.prompt_closed().rescanned(listing)
        } else {
            self.prompt_closed()
        }
    }

    /// After `path` was moved to the trash: the top level is re-read, and
    /// the selection, the buffer and the side viewer let go of `path` and of
    /// anything under it. A failed trash changes nothing.
    pub open spec fn deleted(
        self,
        path: PathModel,
        trashed: bool,
        listing: Seq<(Seq<char>, bool)>,
    ) -> EditorModel {
        if !trashed {
            self
        } else {
            let file_gone = opt_within(self.selected_file, path);
            let right_gone = opt_within(self.right_file, path);
            EditorModel {
                selected_item: match self.selected_item {
                    Some(n) => if is_within(n.0, path) {
                        None
                    } else {
                        Some(n)
                    },
                    None => None,
                },
                selected_file: if file_gone {
                    None
                } else {
                    self.selected_file
                },
                contents: if file_gone {
                    Seq::empty()
                } else {
                    self.contents
                },
                modified: if file_gone {
                    false
                } else {
                    self.modified
                },
                right_file: if right_gone {
                    None
                } else {
                    self.right_file
                },
                right_contents: if right_gone {
                    Seq::empty()
                } else {
                    self.right_contents
                },
                ..self
            }.rescanned(listing)
        }
    }
}

pub open spec fn opt_pair_view(o: Option<(NodePath, String)>) -> Option<(PathModel, Seq<char>)> {
    match o {
        Some((p, t)) => Some((p@, t@)),
        None => None,
    }
}

pub open spec fn opt_move_view(o: Option<(NodePath, NodePath)>) -> Option<(PathModel, PathModel)> {
    match o {
        Some((a, b)) => Some((a@, b@)),
        None => None,
    }
}

/// The buffer text for a read: what it returned, or the failure notice.
fn text_or_failure(read: Option<String>) -> (r: String)
    ensures
        r@ == shown_text(opt_text(read)),
{
    match read {
        Some(t) => t,
        None => "Failed to read file".to_owned(),
    }
}

/// The path of the file that the new-file action makes in `parent`.
pub fn new_text_file_path(parent: &NodePath) -> (r: NodePath)
    ensures
        r@ == parent@.push(new_file_name()),
{
    parent.join(&"new_file.txt".to_owned())
}

/// Records that `new_file.txt` was made in `parent_dir`: the prompt to
/// rename it opens, and the top level is re-read from `listing`.
pub fn add_text_file(app: &mut TxtEditorApp, parent_dir: &NodePath, listing: &Vec<DirEntry>)
    ensures
        final(app)@ == old(app)@.text_file_added(parent_dir@, entries_view(listing@)),
{
    let target = Node::file(new_text_file_path(parent_dir));
    app.prompt = Prompt::Rename { target, name: "new_file".to_owned() };
    app.rescan(listing);
}

impl TxtEditorApp {
    pub fn new() -> (r: TxtEditorApp)
        ensures
            r@ == EditorModel::empty(),
            r@.wf(),
    {
        let r = TxtEditorApp {
            folder_path: None,
            file_list: Vec::new(),
            selected_item: None,
            selected_file: None,
            file_contents: String::new(),
            file_modified: false,
            right_panel_file: None,
            right_panel_contents: String::new(),
            prompt: Prompt::Idle,
        };
        assert(r@.files =~= Seq::<NodeModel>::empty());
        r
    }

    /// Re-reads the top level of the workspace from the root's listing.
    pub fn rescan(&mut self, listing: &Vec<DirEntry>)
        ensures
            old(self)@.wf() ==> final(self)@.wf(),
            final(self)@ == old(self)@.rescanned(entries_view(listing@)),
    {
        match &self.folder_path {
            Some(root) => {
                self.file_list = scan_directory(root, listing, true);
            },
            None => {},
        }
    }

    /// Opens the workspace at `root`, given its listing; it replaces the
    /// previous one whole.
    pub fn open_folder(&mut self, root: NodePath, listing: &Vec<DirEntry>)
        ensures
            old(self)@.wf() ==> final(self)@.wf(),
            final(self)@ == EditorModel::opened(root@, entries_view(listing@)),
    {
        let mut fresh = TxtEditorApp::new();
        let item = Node::directory(root.clone_path());
        fresh.folder_path = Some(root);
        fresh.selected_item = Some(item);
        fresh.rescan(listing);
        *self = fresh;
    }

    /// Selects the file `path`; `read` is what reading it returned.
    pub fn select_file(&mut self, path: &NodePath, read: Option<String>)
        ensures
            old(self)@.wf() ==> final(self)@.wf(),
            final(self)@ == old(self)@.file_selected(path@, opt_text(read)),
    {
        self.selected_item = Some(Node::file(path.clone_path()));
        self.selected_file = Some(path.clone_path());
        self.file_contents = text_or_failure(read);
        self.file_modified = false;
    }

    /// Selects the folder `path`.
    pub fn select_dir(&mut self, path: &NodePath)
        ensures
            old(self)@.wf() ==> final(self)@.wf(),
            final(self)@ == old(self)@.dir_selected(path@),
    {
        self.selected_item = Some(Node::directory(path.clone_path()));
        self.selected_file = None;
        self.file_contents = String::new();
        self.file_modified = false;
    }

    /// The user changed the buffer to `text`.
    pub fn edit(&mut self, text: String)
        ensures
            old(self)@.wf() ==> final(self)@.wf(),
            final(self)@ == old(self)@.edited(text@),
    {
        if self.selected_file.is_some() {
            self.file_contents = text;
            self.file_modified = true;
        }
    }

    /// The write that the autosave owes: the selected file and the buffer,
    /// while the buffer holds unsaved edits.
    pub fn autosave_request(&self) -> (r: Option<(NodePath, String)>)
        ensures
            opt_pair_view(r) == self@.autosave_request(),
    {
        match &self.selected_file {
            Some(p) => if self.file_modified {
                Some((p.clone_path(), self.file_contents.clone()))
            } else {
                None
            },
            None => None,
        }
    }

    /// Records the outcome of the autosave's write.
    pub fn finish_save(&mut self, written: bool)
        ensures
            old(self)@.wf() ==> final(self)@.wf(),
            final(self)@ == old(self)@.saved(written),
    {
        if written {
            self.file_modified = false;
        }
    }

    /// Shows the file `path` in the side viewer; `read` is what reading it
    /// returned.
    pub fn open_in_right_panel(&mut self, path: &NodePath, read: Option<String>)
        ensures
            old(self)@.wf() ==> final(self)@.wf(),
            final(self)@ == old(self)@.right_opened(path@, opt_text(read)),
    {
        self.right_panel_file = Some(path.clone_path());
        self.right_panel_contents = text_or_failure(read);
    }

    /// The user changed the side viewer's text.
    pub fn edit_right_panel(&mut self, text: String)
        ensures
            old(self)@.wf() ==> final(self)@.wf(),
            final(self)@ == old(self)@.right_edited(text@),
    {
        if self.right_panel_file.is_some() {
            self.right_panel_contents = text;
        }
    }

    /// Where a new file or folder goes.
    pub fn target_directory(&self) -> (r: Option<NodePath>)
        ensures
            opt_path(r) == self@.target_directory(),
    {
        match &self.selected_item {
            Some(n) => if n.is_dir {
                Some(n.path.clone_path())
            } else {
                Some(n.path.parent_or_self())
            },
            None => clone_opt_path(&self.folder_path),
        }
    }

    /// Opens the rename prompt for `target`, with its name as it stands (a
    /// file without its `.txt`).
    pub fn begin_rename(&mut self, target: &Node)
        ensures
            old(self)@.wf() ==> final(self)@.wf(),
            final(self)@ == old(self)@.rename_begun(target@),
    {
        let full = target.path.file_name();
        let name = if target.is_dir {
            full
        } else {
            rename_stem(&full)
        };
        self.prompt = Prompt::Rename { target: target.clone_node(), name };
    }

    /// Opens the new-folder prompt for the target folder, if there is one.
    pub fn add_folder_to_selected_directory(&mut self)
        ensures
            old(self)@.wf() ==> final(self)@.wf(),
            final(self)@ == old(self)@.folder_prompt_begun(),
    {
        match self.target_directory() {
            Some(d) => {
                self.prompt = Prompt::NewFolder { parent: d, name: String::new() };
            },
            None => {},
        }
    }

    /// The user typed `name` into the open prompt.
    pub fn set_prompt_name(&mut self, name: String)
        ensures
            old(self)@.wf() ==> final(self)@.wf(),
            final(self)@ == old(self)@.prompt_named(name@),
    {
        match &mut self.prompt {
            Prompt::Idle => {},
            Prompt::Rename { target: _, name: typed } => {
                *typed = name;
            },
            Prompt::NewFolder { parent: _, name: typed } => {
                *typed = name;
            },
        }
    }

    /// Closes the open prompt. A file that the new-file action made stays.
    pub fn close_prompt(&mut self)
        ensures
            old(self)@.wf() ==> final(self)@.wf(),
            final(self)@ == old(self)@.prompt_closed(),
    {
        self.prompt = Prompt::Idle;
    }

    /// The move that the pending rename asks for, as (from, to).
    pub fn rename_request(&self) -> (r: Option<(NodePath, NodePath)>)
        ensures
            opt_move_view(r) == self@.rename_request(),
    {
        match &self.prompt {
            Prompt::Rename { target, name } => {
                let file = renamed_name(name, target.is_dir);
                let to = target.path.parent_or_self().join(&file);
                Some((target.path.clone_path(), to))
            },
            _ => None,
        }
    }

    /// Records the outcome of the pending rename; `listing` is the root's
    /// listing afterwards.
    pub fn finish_rename(&mut self, done: bool, listing: &Vec<DirEntry>)
        ensures
            old(self)@.wf() ==> final(self)@.wf(),
            final(self)@ == old(self)@.renamed(done, entries_view(listing@)),
    {
        match self.rename_request() {
            Some((from, to)) => {
                if done {
                    let item = match &self.selected_item {
                        Some(n) => Some(Node { path: n.path.rebased(&from, &to), is_dir: n.is_dir }),
                        None => None,
                    };
                    self.selected_item = item;
                    self.selected_file = opt_rebased_path(&self.selected_file, &from, &to);
                    self.right_panel_file = opt_rebased_path(&self.right_panel_file, &from, &to);
                    self.prompt = Prompt::Idle;
                    self.rescan(listing);
                } else {
                    self.prompt = Prompt::Idle;
                }
            },
            None => {
                self.prompt = Prompt::Idle;
            },
        }
    }

    /// The folder that the pending new-folder prompt asks for.
    pub fn new_folder_request(&self) -> (r: Option<NodePath>)
        ensures
            opt_path(r) == self@.new_folder_request(),
    {
        match &self.prompt {
            Prompt::NewFolder { parent, name } => Some(parent.join(name)),
            _ => None,
        }
    }

    /// Records the outcome of the pending new folder; `listing` is the
    /// root's listing afterwards.
    pub fn finish_new_folder(&mut self, done: bool, listing: &Vec<DirEntry>)
        ensures
            old(self)@.wf() ==> final(self)@.wf(),
            final(self)@ == old(self)@.folder_created(done, entries_view(listing@)),
    {
        self.prompt = Prompt::Idle;
        if done {
            self.rescan(listing);
        }
    }

    /// Records that `path` was moved to the trash (`trashed`) or not, letting
    /// go of it and of anything under it;
    /// `listing` is the root's listing afterwards.
    pub fn delete_file(&mut self, path: &NodePath, trashed: bool, listing: &Vec<DirEntry>)
        ensures
            old(self)@.wf() ==> final(self)@.wf(),
            final(self)@ == old(self)@.deleted(path@, trashed, entries_view(listing@)),
    {
        if !trashed {
            return;
        }
        let item_gone = match &self.selected_item {
            Some(n) => n.path.is_within(path),
            None => false,
        };
        if item_gone {
            self.selected_item = None;
        }
        if opt_is_within(&self.selected_file, path) {
            self.selected_file = None;
            self.file_contents = String::new();
            self.file_modified = false;
        }
        if opt_is_within(&self.right_panel_file, path) {
            self.right_panel_file = None;
            self.right_panel_contents = String::new();
        }
        self.rescan(listing);
    }

    /// The number of characters in the buffer.
    pub fn char_count(&self) -> (r: usize)
        ensures
            r == self@.contents.len(),
    {
        self.file_contents.as_str().unicode_len()
    }
}

} // verus!
