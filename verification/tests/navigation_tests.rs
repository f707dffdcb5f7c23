use rftp::file::{
    file_name_of, join_path, parent_of, FileEntry, FileList, LocalFileEntry, RemoteFileEntry,
    SelectedFileEntry,
};

fn listing_paths(list: &FileList) -> Vec<String> {
    let mut out = Vec::new();
    for i in 0..list.num_local_entries() {
        out.push(list.local_entry_at(i).path().to_string());
    }
    out
}

#[test]
fn test_path_helpers() {
    assert_eq!(join_path("/a/b", "c.txt"), "/a/b/c.txt".to_string());
    assert_eq!(join_path("/a/b/", "c.txt"), "/a/b/c.txt".to_string());
    assert_eq!(join_path("", "c.txt"), "c.txt".to_string());
    assert_eq!(parent_of("/a/b/c"), Some("/a/b".to_string()));
    assert_eq!(parent_of("/a"), Some("/".to_string()));
    assert_eq!(parent_of("/"), None);
    assert_eq!(parent_of("name"), None);
    assert_eq!(file_name_of("/a/b/c.txt"), Some("c.txt".to_string()));
    assert_eq!(file_name_of("/a/b/"), None);
    assert_eq!(file_name_of("/a/b/.."), None);
    assert_eq!(file_name_of("plain"), Some("plain".to_string()));
}

#[test]
fn test_hidden_filter() {
    // Raw entries [".git", "a.txt"] of directory "/d", whose parent
    // marker ".." joins the listing.
    let raw = vec![
        LocalFileEntry::Directory("/d/.git".to_string()),
        LocalFileEntry::File("/d/a.txt".to_string(), 1),
    ];
    let mut list = FileList::new();
    list.set_local_working_path("/d".to_string(), raw.clone(), false);
    // show_hidden = false: the parent marker first, then only "a.txt".
    assert_eq!(listing_paths(&list), vec!["/".to_string(), "/d/a.txt".to_string()]);
    assert!(list.local_entry_at(0).is_parent());

    list.set_local_working_path("/d".to_string(), raw, true);
    // show_hidden = true: all three, the parent marker still first.
    assert_eq!(
        listing_paths(&list),
        vec!["/".to_string(), "/d/.git".to_string(), "/d/a.txt".to_string()]
    );
    assert!(list.local_entry_at(0).is_parent());
}

#[test]
fn test_listing_sorted() {
    let raw = vec![
        LocalFileEntry::File("/d/zeta".to_string(), 1),
        LocalFileEntry::Directory("/d/alpha".to_string()),
        LocalFileEntry::File("/d/middle".to_string(), 2),
    ];
    let mut list = FileList::new();
    list.set_local_working_path("/d".to_string(), raw, true);
    assert_eq!(
        listing_paths(&list),
        vec![
            "/".to_string(),
            "/d/alpha".to_string(),
            "/d/middle".to_string(),
            "/d/zeta".to_string()
        ]
    );
}

#[test]
fn test_cursor_wraparound() {
    // Wraparound law on a concrete listing of length 4 (parent + 3).
    let raw = vec![
        LocalFileEntry::File("/d/a".to_string(), 1),
        LocalFileEntry::File("/d/b".to_string(), 2),
        LocalFileEntry::File("/d/c".to_string(), 3),
    ];
    let mut list = FileList::new();
    list.set_local_working_path("/d".to_string(), raw, true);
    let n = list.num_local_entries();
    assert_eq!(n, 4);
    let start = list.get_local_selected_index().unwrap();
    for _ in 0..n {
        list.next_selected();
    }
    assert_eq!(list.get_local_selected_index(), Some(start));
    for _ in 0..n {
        list.prev_selected();
    }
    assert_eq!(list.get_local_selected_index(), Some(start));
    // One step forward moves off the start; n - 1 more return to it.
    list.next_selected();
    assert_ne!(list.get_local_selected_index(), Some(start));
}

#[test]
fn test_toggle_pane_twice() {
    let local = vec![
        LocalFileEntry::File("/d/a".to_string(), 1),
        LocalFileEntry::File("/d/b".to_string(), 2),
    ];
    let remote = vec![RemoteFileEntry::File("home/x".to_string(), 9)];
    let mut list = FileList::new();
    list.set_local_working_path("/d".to_string(), local, true);
    list.set_remote_working_path("home".to_string(), remote, true);
    // Put the cursor on the local pane, index 2.
    list.toggle_selected();
    if list.get_local_selected_index().is_none() {
        list.toggle_selected();
    }
    assert!(list.get_local_selected_index().is_some());
    list.next_selected();
    list.next_selected();
    let before = list.get_local_selected_index().unwrap();
    // Toggling twice returns to the local pane; the index may clamp,
    // since the remote pane is shorter.
    list.toggle_selected();
    assert!(list.get_remote_selected_index().is_some());
    list.toggle_selected();
    assert!(list.get_local_selected_index().is_some());
    let _ = before;
}

#[test]
fn test_toggle_empty_remote() {
    let local = vec![LocalFileEntry::File("/d/a".to_string(), 1)];
    let mut list = FileList::new();
    list.set_local_working_path("/d".to_string(), local, true);
    assert!(list.get_local_selected_index().is_some());
    // The remote pane is empty: toggling stays on the local pane.
    list.toggle_selected();
    assert!(list.get_local_selected_index().is_some());
    list.toggle_selected();
    assert!(list.get_local_selected_index().is_some());
}

#[test]
fn test_selected_entry() {
    let raw = vec![RemoteFileEntry::File("home/pic.png".to_string(), 55_000)];
    let mut list = FileList::new();
    list.set_remote_working_path("home".to_string(), raw, true);
    // The parent marker of "home" is absent (no '/'), so the single
    // file is selected at index 0.
    match list.get_selected_entry() {
        SelectedFileEntry::Remote(e) => {
            assert_eq!(e.path(), "home/pic.png");
            assert!(e.is_file());
            assert_eq!(e.len(), Some(55_000));
        }
        _ => panic!("expected a remote selection"),
    }
    assert_eq!(list.get_remote_working_path(), "home");
    assert_eq!(list.get_local_working_path(), "");
}

#[test]
fn test_empty_list_has_no_selection() {
    let list = FileList::new();
    assert!(list.get_local_selected_index().is_none());
    assert!(list.get_remote_selected_index().is_none());
    assert!(matches!(list.get_selected_entry(), SelectedFileEntry::Nothing));
}

#[test]
fn test_entry_kinds() {
    let f = LocalFileEntry::File("/d/f".to_string(), 7);
    let d = LocalFileEntry::Directory("/d/sub".to_string());
    let p = LocalFileEntry::Parent("/".to_string());
    let s = LocalFileEntry::Symlink("/d/link".to_string());
    assert!(f.is_file() && !f.is_dir() && !f.is_parent() && !f.is_symlink());
    assert!(d.is_dir() && !d.is_file());
    assert!(p.is_parent() && p.is_dir());
    assert!(s.is_symlink() && !s.is_file() && !s.is_dir());
    assert_eq!(f.len(), Some(7));
    assert_eq!(d.len(), None);
}
