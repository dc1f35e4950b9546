use txt_editor::editor::{add_text_file, new_text_file_path, Prompt, TxtEditorApp};
use txt_editor::names::{name_has_txt_extension, name_is_hidden, name_less, rename_stem, renamed_name};
use txt_editor::path::{DirEntry, Node, NodePath};
use txt_editor::scanner::{get_txt_files_and_dirs_in_directory, get_txt_files_in_directory, scan_directory};

fn path(parts: &[&str]) -> NodePath {
    NodePath::new(parts.iter().map(|s| s.to_string()).collect())
}

fn file(name: &str) -> DirEntry {
    DirEntry::new(name.to_string(), false)
}

fn dir(name: &str) -> DirEntry {
    DirEntry::new(name.to_string(), true)
}

fn names(list: &[Node]) -> Vec<String> {
    list.iter().map(|n| n.path.parts.last().unwrap().clone()).collect()
}

fn has_path(list: &[Node], p: &NodePath) -> bool {
    list.iter().any(|n| n.path.parts == p.parts)
}

fn opened(listing: &[DirEntry]) -> TxtEditorApp {
    let mut app = TxtEditorApp::new();
    app.open_folder(path(&["/", "ws"]), &listing.to_vec());
    app
}

#[test]
fn select_edit_autosave_delete_scenario() {
    let mut app = opened(&[file("a.txt")]);
    let a = path(&["/", "ws", "a.txt"]);
    assert!(has_path(&app.file_list, &a));

    app.select_file(&a, Some("hello".to_string()));
    assert_eq!(app.file_contents, "hello");
    assert!(!app.file_modified);

    app.edit("hello world".to_string());
    assert!(app.file_modified);

    let (target, text) = app.autosave_request().unwrap();
    assert_eq!(target.parts, a.parts);
    assert_eq!(text, "hello world");
    app.finish_save(true);
    assert!(!app.file_modified);
    assert!(app.autosave_request().is_none());

    app.delete_file(&a, true, &vec![]);
    assert!(!has_path(&app.file_list, &a));
    assert!(app.selected_file.is_none());
    assert_eq!(app.file_contents, "");
}

#[test]
fn create_then_rename_scenario() {
    let mut app = opened(&[]);
    let ws = app.target_directory().unwrap();
    assert_eq!(ws.parts, path(&["/", "ws"]).parts);
    let created = new_text_file_path(&ws);
    assert_eq!(created.parts, path(&["/", "ws", "new_file.txt"]).parts);

    add_text_file(&mut app, &ws, &vec![file("new_file.txt")]);
    assert!(has_path(&app.file_list, &created));
    match &app.prompt {
        Prompt::Rename { target, name } => {
            assert_eq!(target.path.parts, created.parts);
            assert!(!target.is_dir);
            assert_eq!(name, "new_file");
        }
        _ => panic!("the rename prompt is not open"),
    }

    app.set_prompt_name("notes".to_string());
    let (from, to) = app.rename_request().unwrap();
    assert_eq!(from.parts, created.parts);
    assert_eq!(to.parts, path(&["/", "ws", "notes.txt"]).parts);

    app.finish_rename(true, &vec![file("notes.txt")]);
    assert!(matches!(app.prompt, Prompt::Idle));
    assert!(has_path(&app.file_list, &to));
    assert!(!has_path(&app.file_list, &from));
}

#[test]
fn scan_ignores_listing_order() {
    let root = path(&["/", "ws"]);
    let a = vec![file("b.txt"), dir("docs"), file("a.txt"), file(".hidden.txt")];
    let b = vec![file("a.txt"), file(".hidden.txt"), file("b.txt"), dir("docs")];
    let first = get_txt_files_and_dirs_in_directory(&root, &a);
    let second = get_txt_files_and_dirs_in_directory(&root, &b);
    assert_eq!(names(&first), vec!["a.txt", "b.txt", "docs"]);
    assert_eq!(names(&first), names(&second));
    assert!(first[2].is_dir);
    assert_eq!(first[0].path.parts, vec!["/", "ws", "a.txt"]);
}

#[test]
fn scan_filters_hidden_and_non_txt() {
    let root = path(&["/", "ws"]);
    let listing = vec![file("notes.md"), dir(".git"), dir("src"), file("x.txt"), file(".txt")];
    assert_eq!(names(&scan_directory(&root, &listing, true)), vec!["src", "x.txt"]);
    assert_eq!(names(&scan_directory(&root, &listing, false)), vec!["notes.md", "src", "x.txt"]);
    assert!(scan_directory(&root, &vec![], true).is_empty());
}

#[test]
fn scan_keeps_one_entry_per_name() {
    let root = path(&["/"]);
    let listing = vec![file("a.txt"), file("a.txt")];
    assert_eq!(names(&scan_directory(&root, &listing, true)), vec!["a.txt"]);
}

#[test]
fn txt_files_and_folders_sorted_without_hidden() {
    let root = path(&["/", "ws"]);
    let listing = vec![file("b.txt"), dir("d"), file("a.txt"), file(".a.txt"), file("c.md"), dir(".git")];
    let got: Vec<Vec<String>> =
        get_txt_files_in_directory(&root, &listing).into_iter().map(|p| p.parts).collect();
    assert_eq!(got, vec![vec!["/", "ws", "a.txt"], vec!["/", "ws", "b.txt"], vec!["/", "ws", "d"]]);
    let only_dir = get_txt_files_in_directory(&root, &vec![dir("d")]);
    assert_eq!(only_dir.len(), 1);
    assert!(get_txt_files_in_directory(&root, &vec![file(".a.txt")]).is_empty());
}

#[test]
fn trashing_folder_clears_selection_inside() {
    let mut app = opened(&[dir("d")]);
    let d = path(&["/", "ws", "d"]);
    let f = path(&["/", "ws", "d", "x.txt"]);
    app.select_file(&f, Some("x".to_string()));
    app.open_in_right_panel(&f, Some("x".to_string()));
    app.delete_file(&d, true, &vec![]);
    assert!(app.selected_item.is_none());
    assert!(app.selected_file.is_none());
    assert_eq!(app.file_contents, "");
    assert!(app.right_panel_file.is_none());
    assert_eq!(app.right_panel_contents, "");
}

#[test]
fn trashing_selected_item_empties_buffer() {
    let mut app = opened(&[file("a.txt")]);
    let a = path(&["/", "ws", "a.txt"]);
    app.select_file(&a, Some("hello".to_string()));
    app.edit("changed".to_string());
    let item = app.selected_item.as_ref().unwrap().path.clone_path();
    app.delete_file(&item, true, &vec![]);
    assert!(app.selected_item.is_none());
    assert!(app.selected_file.is_none());
    assert_eq!(app.file_contents, "");
    assert!(!app.file_modified);
}

#[test]
fn renaming_folder_moves_selection_inside() {
    let mut app = opened(&[dir("d")]);
    let f = path(&["/", "ws", "d", "x.txt"]);
    app.select_file(&f, Some("x".to_string()));
    app.begin_rename(&Node::directory(path(&["/", "ws", "d"])));
    app.set_prompt_name("e".to_string());
    app.finish_rename(true, &vec![dir("e")]);
    assert_eq!(app.selected_file.as_ref().unwrap().parts, vec!["/", "ws", "e", "x.txt"]);
    assert_eq!(app.selected_item.as_ref().unwrap().path.parts, vec!["/", "ws", "e", "x.txt"]);
    assert_eq!(names(&app.file_list), vec!["e"]);
}

#[test]
fn within_and_rebased() {
    let d = path(&["/", "ws", "d"]);
    let f = path(&["/", "ws", "d", "x.txt"]);
    assert!(f.is_within(&d));
    assert!(d.is_within(&d));
    assert!(!d.is_within(&f));
    assert!(!path(&["/", "ws", "dd"]).is_within(&d));
    let e = path(&["/", "ws", "e"]);
    assert_eq!(f.rebased(&d, &e).parts, vec!["/", "ws", "e", "x.txt"]);
    assert_eq!(path(&["/", "ws", "z"]).rebased(&d, &e).parts, vec!["/", "ws", "z"]);
}

#[test]
fn name_order() {
    let s = |x: &str| x.to_string();
    assert!(name_less(&s("a"), &s("b")));
    assert!(!name_less(&s("b"), &s("a")));
    assert!(name_less(&s("ab"), &s("abc")));
    assert!(!name_less(&s("abc"), &s("abc")));
    assert!(name_less(&s("B"), &s("a")));
    assert!(name_less(&s(""), &s("a")));
}

#[test]
fn name_rules() {
    let s = |x: &str| x.to_string();
    assert!(name_is_hidden(&s(".git")));
    assert!(!name_is_hidden(&s("git")));
    assert!(!name_is_hidden(&s("")));
    assert!(name_has_txt_extension(&s("a.txt")));
    assert!(!name_has_txt_extension(&s(".txt")));
    assert!(!name_has_txt_extension(&s("a.md")));
    assert_eq!(rename_stem(&s("notes.txt")), "notes");
    assert_eq!(rename_stem(&s("notes.md")), "notes.md");
    assert_eq!(rename_stem(&s("a.txt.txt")), "a.txt");
    assert_eq!(renamed_name(&s("notes"), false), "notes.txt");
    assert_eq!(renamed_name(&s("docs"), true), "docs");
}

#[test]
fn unreadable_file_shows_notice() {
    let mut app = opened(&[file("a.txt")]);
    let a = path(&["/", "ws", "a.txt"]);
    app.select_file(&a, None);
    assert_eq!(app.file_contents, "Failed to read file");
    assert!(!app.file_modified);
    assert_eq!(app.char_count(), 19);
}

#[test]
fn failed_save_keeps_dirty_flag() {
    let mut app = opened(&[file("a.txt")]);
    let a = path(&["/", "ws", "a.txt"]);
    app.select_file(&a, Some(String::new()));
    app.edit("x".to_string());
    app.finish_save(false);
    assert!(app.file_modified);
    assert!(app.autosave_request().is_some());
}

#[test]
fn edit_without_file_changes_nothing() {
    let mut app = opened(&[]);
    app.edit("text".to_string());
    assert_eq!(app.file_contents, "");
    assert!(!app.file_modified);
    assert!(app.autosave_request().is_none());
}

#[test]
fn deleting_other_file_keeps_selection() {
    let mut app = opened(&[file("a.txt"), file("b.txt")]);
    let a = path(&["/", "ws", "a.txt"]);
    let b = path(&["/", "ws", "b.txt"]);
    app.select_file(&a, Some("hello".to_string()));
    app.edit("hello!".to_string());
    app.delete_file(&b, true, &vec![file("a.txt")]);
    assert_eq!(app.selected_file.as_ref().unwrap().parts, a.parts);
    assert_eq!(app.file_contents, "hello!");
    assert!(app.file_modified);
    assert_eq!(names(&app.file_list), vec!["a.txt"]);
}

#[test]
fn failed_trash_changes_nothing() {
    let mut app = opened(&[file("a.txt")]);
    let a = path(&["/", "ws", "a.txt"]);
    app.select_file(&a, Some("hello".to_string()));
    app.delete_file(&a, false, &vec![]);
    assert_eq!(app.selected_file.as_ref().unwrap().parts, a.parts);
    assert_eq!(app.file_contents, "hello");
    assert_eq!(names(&app.file_list), vec!["a.txt"]);
}

#[test]
fn create_then_delete_restores_file_list() {
    let before = vec![file("a.txt"), dir("d")];
    let mut app = opened(&before);
    let old = names(&app.file_list);
    let ws = app.target_directory().unwrap();
    add_text_file(&mut app, &ws, &vec![file("new_file.txt"), file("a.txt"), dir("d")]);
    assert_eq!(names(&app.file_list), vec!["a.txt", "d", "new_file.txt"]);
    app.close_prompt();
    let created = new_text_file_path(&ws);
    app.delete_file(&created, true, &vec![dir("d"), file("a.txt")]);
    assert_eq!(names(&app.file_list), old);
}

#[test]
fn renaming_selected_file_moves_selection() {
    let mut app = opened(&[file("a.txt")]);
    let a = path(&["/", "ws", "a.txt"]);
    app.select_file(&a, Some("hi".to_string()));
    app.open_in_right_panel(&a, Some("hi".to_string()));
    app.begin_rename(&Node::file(a.clone_path()));
    match &app.prompt {
        Prompt::Rename { name, .. } => assert_eq!(name, "a"),
        _ => panic!("the rename prompt is not open"),
    }
    app.set_prompt_name("b".to_string());
    app.finish_rename(true, &vec![file("b.txt")]);
    let b = path(&["/", "ws", "b.txt"]);
    assert_eq!(app.selected_file.as_ref().unwrap().parts, b.parts);
    assert_eq!(app.right_panel_file.as_ref().unwrap().parts, b.parts);
    assert_eq!(names(&app.file_list), vec!["b.txt"]);
}

#[test]
fn failed_rename_closes_prompt_only() {
    let mut app = opened(&[file("a.txt")]);
    let a = path(&["/", "ws", "a.txt"]);
    app.begin_rename(&Node::file(a.clone_path()));
    app.finish_rename(false, &vec![]);
    assert!(matches!(app.prompt, Prompt::Idle));
    assert_eq!(names(&app.file_list), vec!["a.txt"]);
}

#[test]
fn folder_rename_keeps_typed_name() {
    let mut app = opened(&[dir("docs")]);
    let d = path(&["/", "ws", "docs"]);
    app.begin_rename(&Node::directory(d));
    app.set_prompt_name("papers".to_string());
    let (_, to) = app.rename_request().unwrap();
    assert_eq!(to.parts, vec!["/", "ws", "papers"]);
}

#[test]
fn new_folder_in_folder_of_selected_file() {
    let mut app = opened(&[dir("d")]);
    let f = path(&["/", "ws", "d", "x.txt"]);
    app.select_file(&f, Some(String::new()));
    app.add_folder_to_selected_directory();
    app.set_prompt_name("sub".to_string());
    let p = app.new_folder_request().unwrap();
    assert_eq!(p.parts, vec!["/", "ws", "d", "sub"]);
    app.finish_new_folder(true, &vec![dir("d")]);
    assert!(matches!(app.prompt, Prompt::Idle));
}

#[test]
fn selecting_folder_clears_file() {
    let mut app = opened(&[dir("d"), file("a.txt")]);
    app.select_file(&path(&["/", "ws", "a.txt"]), Some("x".to_string()));
    app.select_dir(&path(&["/", "ws", "d"]));
    assert!(app.selected_file.is_none());
    assert!(app.selected_item.as_ref().unwrap().is_dir);
    assert_eq!(app.file_contents, "");
    assert_eq!(app.target_directory().unwrap().parts, vec!["/", "ws", "d"]);
}

#[test]
fn no_workspace_no_target() {
    let app = TxtEditorApp::new();
    assert!(app.target_directory().is_none());
    assert!(app.file_list.is_empty());
}

#[test]
fn char_count_counts_characters() {
    let mut app = opened(&[file("a.txt")]);
    app.select_file(&path(&["/", "ws", "a.txt"]), Some("héllo".to_string()));
    assert_eq!(app.char_count(), 5);
}

#[test]
fn parent_and_join() {
    let p = path(&["/", "ws", "a.txt"]);
    assert_eq!(p.parent_or_self().parts, vec!["/", "ws"]);
    assert_eq!(p.file_name(), "a.txt");
    assert_eq!(path(&["/"]).parent_or_self().parts, vec!["/"]);
    assert!(p.same_as(&path(&["/", "ws", "a.txt"])));
    assert!(!p.same_as(&path(&["/", "ws"])));
}
