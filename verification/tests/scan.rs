use glm::app::{App, Request};
use glm::cli::{parse, Cli};
use glm::components::file_list::Position;
use glm::components::line_numbers::{number_text, LineNumbersComponent};
use glm::key::Key;
use glm::layout::{shift, Bounds};
use glm::paths::{resolve, starts_at_root};
use glm::text::name_at_or_before;
use glm::{Error, FileManager, FileType, FsOps, Probe};

fn child(dir: &str, name: &str, is_symlink: bool, is_dir: bool) -> Option<Probe> {
    Some(Probe {
        file_name: name.to_string(),
        file_path: format!("{dir}/{name}"),
        is_symlink: Some(is_symlink),
        is_dir: Some(is_dir),
    })
}

fn regular(dir: &str, name: &str) -> Option<Probe> {
    child(dir, name, false, false)
}

fn tempdir_listing(dir: &str) -> Vec<Option<Probe>> {
    let mut listing = vec![];
    for i in 0..10 {
        listing.push(regular(dir, &(i.to_string() + "tempfile.txt")));
    }
    for i in 10..20 {
        listing.push(regular(dir, &(".tempfile".to_owned() + &i.to_string() + ".txt")));
    }
    listing
}

fn make_sut() -> (String, FileManager) {
    let dir = "/tmp/.tmpAbCdEf".to_string();
    let sut = FileManager::new(&dir, Ok(tempdir_listing(&dir))).expect("failed to create file manager");
    (dir, sut)
}

fn area() -> Bounds {
    Bounds { x: 4, y: 2, width: 76, height: 20 }
}

fn names(sut: &FileManager) -> Vec<String> {
    sut.get_state().items.iter().map(|item| item.file_name.clone()).collect()
}

#[test]
fn test_new_file_manager() {
    let (dir, sut) = make_sut();

    let state = sut.get_state();

    assert_eq!(state.current_dir, dir);
    assert_eq!(state.items.len(), 10);
}

#[test]
fn test_is_hidden() {
    let (_, sut) = make_sut();
    let state = sut.get_state();
    let not_hidden = &state.items[0].file_path;
    let hidden = "/fake/hidden/.path";

    let expect_true = sut.is_hidden(hidden);
    let expect_false = sut.is_hidden(not_hidden);

    assert!(expect_true);
    assert!(!expect_false);
}

#[test]
fn test_initalization() {
    let dir = "/tmp/.tmpXyZ";
    let listing = vec![child(dir, "nested", false, true), regular(dir, "root_file.txt")];
    let sut = FileManager::new(dir, Ok(listing)).unwrap();
    let items = &sut.get_state().items;

    assert_eq!(items.len(), 2);
    assert_eq!(items[0].file_name, "nested");
    assert_eq!(items[1].file_name, "root_file.txt");
    assert_eq!(items[1].file_ext, Some("txt".into()));
}

#[test]
fn test_empty_dir() {
    let sut = FileManager::new("/tmp/.tmpEmpty", Ok(vec![])).unwrap();

    assert!(sut.get_state().items.is_empty());
}

#[test]
fn test_hidden_file() {
    let dir = "/tmp/.tmpHidden";
    let mut sut = FileManager::new(dir, Ok(vec![regular(dir, ".hidden_file")])).unwrap();
    assert!(sut.get_state().items.is_empty());

    sut.toggle_hidden(Ok(vec![regular(dir, ".hidden_file")])).unwrap();

    assert!(sut.get_state().items[0].is_hidden);
}

#[test]
fn a_symlink_to_a_directory_is_a_symlink() {
    let (_, sut) = make_sut();

    assert_eq!(sut.get_file_type(true, true), FileType::Symlink);
    assert_eq!(sut.get_file_type(true, false), FileType::Symlink);
    assert_eq!(sut.get_file_type(false, true), FileType::Directory);
    assert_eq!(sut.get_file_type(false, false), FileType::File);

    let dir = "/d";
    let sut = FileManager::new(dir, Ok(vec![child(dir, "link", true, true)])).unwrap();
    assert_eq!(sut.get_state().items[0].file_type, FileType::Symlink);
}

#[test]
fn only_files_have_an_extension() {
    let dir = "/d";
    let listing = vec![
        child(dir, "dir.d", false, true),
        child(dir, "link.txt", true, false),
        child(dir, "link.dir", true, true),
        regular(dir, "archive.tar.gz"),
        regular(dir, "README"),
        regular(dir, "trailing."),
    ];

    let sut = FileManager::new(dir, Ok(listing)).unwrap();

    let items = &sut.get_state().items;
    assert_eq!(items[0].file_ext, None);
    assert_eq!(items[1].file_ext, None);
    assert_eq!(items[2].file_ext, None);
    assert_eq!(items[3].file_ext, Some("gz".to_string()));
    assert_eq!(items[4].file_ext, None);
    assert_eq!(items[5].file_ext, Some(String::new()));
    for item in items {
        assert!(item.file_type == FileType::File || item.file_ext.is_none());
        assert_eq!(item.file_path, format!("/d/{}", item.file_name));
    }
}

#[test]
fn the_extension_is_what_follows_the_last_dot_of_the_final_component() {
    let (_, sut) = make_sut();

    assert_eq!(sut.get_file_extension("/a/b.c/file.tar.gz"), Some("gz".to_string()));
    assert_eq!(sut.get_file_extension("/a/b.c/file"), None);
    assert_eq!(sut.get_file_extension("/a/.bashrc"), None);
    assert_eq!(sut.get_file_extension("/a/.config.toml"), Some("toml".to_string()));
    assert_eq!(sut.get_file_extension("/a/name."), Some(String::new()));
    assert_eq!(sut.get_file_extension("/a/.."), None);
    assert_eq!(sut.get_file_extension("/"), None);
    assert_eq!(sut.get_file_extension("é.ü"), Some("ü".to_string()));
}

#[test]
fn hidden_goes_by_the_final_component_alone() {
    let (_, sut) = make_sut();

    assert!(sut.is_hidden(".git"));
    assert!(sut.is_hidden("/home/.config/"));
    assert!(!sut.is_hidden("/home/.config/visible"));
    assert!(!sut.is_hidden("/"));
    assert!(!sut.is_hidden(""));
    assert!(!sut.is_hidden("/a/.."));
}

#[test]
fn showing_hidden_entries_adds_them_to_the_others() {
    let (dir, mut sut) = make_sut();
    let without = names(&sut);
    assert!(without.iter().all(|name| !name.starts_with('.')));
    assert!(!sut.shows_hidden());

    sut.toggle_hidden(Ok(tempdir_listing(&dir))).unwrap();

    let with = names(&sut);
    assert!(sut.shows_hidden());
    assert_eq!(with.len(), 20);
    assert!(without.iter().all(|name| with.contains(name)));
    let visible: Vec<String> = with.iter().filter(|name| !name.starts_with('.')).cloned().collect();
    assert_eq!(visible, without);
    assert_eq!(sut.get_state().current_dir, dir);

    sut.toggle_hidden(Ok(tempdir_listing(&dir))).unwrap();
    assert_eq!(names(&sut), without);
}

#[test]
fn children_that_could_not_be_read_are_left_out() {
    let dir = "/d";
    let listing = vec![
        regular(dir, "a"),
        None,
        Some(Probe {
            file_name: "dangling".to_string(),
            file_path: "/d/dangling".to_string(),
            is_symlink: Some(true),
            is_dir: None,
        }),
        Some(Probe {
            file_name: "vanished".to_string(),
            file_path: "/d/vanished".to_string(),
            is_symlink: None,
            is_dir: Some(false),
        }),
        regular(dir, "b"),
    ];

    let sut = FileManager::new(dir, Ok(listing)).unwrap();

    assert_eq!(names(&sut), vec!["a", "b"]);
}

#[test]
fn a_failed_scan_leaves_the_manager_where_it_was() {
    let (dir, mut sut) = make_sut();
    let before = names(&sut);

    let outcome = sut.change_dir("/missing", Err("No such file or directory".to_string()));

    match outcome {
        Err(Error::ScanFailed(reason)) => assert_eq!(reason, "No such file or directory"),
        Ok(_) => panic!("the scan did not fail"),
    }
    assert_eq!(sut.get_state().current_dir, dir);
    assert_eq!(names(&sut), before);

    let outcome = sut.toggle_hidden(Err("Permission denied".to_string()));
    assert!(outcome.is_err());
    assert!(sut.shows_hidden());
    assert_eq!(names(&sut), before);

    let failed = FileManager::new("/missing", Err("Not a directory".to_string()));
    assert_eq!(failed.unwrap_err().message(), "scan failed: Not a directory");
}

#[test]
fn a_scan_of_n_visible_entries_shows_n_lines() {
    let (dir, sut) = make_sut();
    let mut app = App::new(sut, area());
    assert_eq!(app.file_list().items().len(), 10);
    assert_eq!(app.file_list().position(), Position { x: 0, y: 0 });
    app.handle_key_event(Key::Char('j'));
    app.handle_key_event(Key::Char('l'));
    assert_eq!(app.file_list().position(), Position { x: 1, y: 1 });

    let cell = app.toggle_hidden(Ok(tempdir_listing(&dir))).unwrap();

    assert_eq!(cell, (4, 2));
    assert_eq!(app.file_list().items().len(), 20);
    assert_eq!(app.file_manager().get_state().items.len(), 20);
    assert_eq!(app.file_list().position(), Position { x: 0, y: 0 });
    assert_eq!(app.line_numbers().compose_list().iter().filter(|row| row.is_number).count(), 20);
}

fn browser(dir: &str) -> App {
    let listing = vec![
        regular(dir, "notes.txt"),
        child(dir, "src", false, true),
        child(dir, "link", true, true),
    ];
    App::new(FileManager::new(dir, Ok(listing)).unwrap(), area())
}

#[test]
fn enter_on_a_directory_asks_for_its_scan() {
    let mut app = browser("/home/user");
    assert_eq!(app.file_list().get_line_under_cursor().unwrap().display_name, "src/");

    let request = app.handle_key_event(Key::Enter);

    assert!(matches!(request, Request::Scan(ref path) if path == "/home/user/src"));
    assert_eq!(app.file_manager().get_state().current_dir, "/home/user");

    let inner = vec![regular("/home/user/src", "main.rs"), regular("/home/user/src", "lib.rs")];
    let cell = app.change_dir("/home/user/src", Ok(inner)).unwrap();
    assert_eq!(cell, (4, 2));
    assert_eq!(app.file_manager().get_state().current_dir, "/home/user/src");
    let labels: Vec<&str> =
        app.file_list().items().iter().map(|line| line.display_name.as_str()).collect();
    assert_eq!(labels, vec!["lib.rs", "main.rs"]);
}

#[test]
fn enter_on_anything_else_asks_for_nothing() {
    let mut app = browser("/home/user");
    app.handle_key_event(Key::Char('j'));
    assert_eq!(app.file_list().get_line_under_cursor().unwrap().display_name, "link");
    assert!(matches!(app.handle_key_event(Key::Enter), Request::Nothing));
    assert_eq!(app.select_current_item(), None);

    let mut empty = App::new(FileManager::new("/e", Ok(vec![])).unwrap(), area());
    assert!(matches!(empty.handle_key_event(Key::Enter), Request::Nothing));
}

#[test]
fn minus_asks_for_the_scan_of_the_parent() {
    let mut app = browser("/home/user");

    let request = app.handle_key_event(Key::Char('-'));

    assert!(matches!(request, Request::Scan(ref path) if path == "/home"));
    assert_eq!(app.change_to_parent(), Some("/home".to_string()));
}

#[test]
fn ascending_from_the_root_does_nothing() {
    let mut app = browser("/");
    app.handle_key_event(Key::Char('j'));
    app.handle_key_event(Key::Char('l'));

    let request = app.handle_key_event(Key::Char('-'));

    assert!(matches!(request, Request::Nothing));
    assert_eq!(app.change_to_parent(), None);
    assert_eq!(app.file_manager().get_state().current_dir, "/");
    assert_eq!(app.file_manager().get_state().items.len(), 3);
    assert_eq!(app.file_list().position(), Position { x: 1, y: 1 });
    assert!(app.is_running);
}

#[test]
fn a_failed_descent_leaves_the_screen_as_it_was() {
    let mut app = browser("/home/user");
    app.handle_key_event(Key::Char('l'));

    let outcome = app.change_dir("/home/user/src", Err("Permission denied".to_string()));

    assert_eq!(outcome.unwrap_err().message(), "scan failed: Permission denied");
    assert_eq!(app.file_manager().get_state().current_dir, "/home/user");
    assert_eq!(app.file_list().items().len(), 3);
    assert_eq!(app.file_list().position(), Position { x: 1, y: 0 });
}

#[test]
fn the_other_keys() {
    let mut app = browser("/home/user");

    assert!(matches!(app.handle_key_event(Key::Char('?')), Request::Nothing));
    assert!(app.should_open_bottom_pane());
    assert!(matches!(app.handle_key_event(Key::Char('?')), Request::Nothing));
    assert!(!app.should_open_bottom_pane());
    assert!(matches!(app.handle_key_event(Key::Char('H')), Request::Rescan(ref path) if path == "/home/user"));
    assert!(matches!(app.handle_key_event(Key::Char('j')), Request::Draw((4, 3))));
    assert!(matches!(app.handle_key_event(Key::Other), Request::Draw((4, 3))));
    assert_eq!(app.tick(), None);
    assert!(app.is_running);
    assert!(matches!(app.handle_key_event(Key::Char('q')), Request::Nothing));
    assert!(!app.is_running);
}

#[test]
fn resize_moves_the_list_and_the_gutter() {
    let mut app = browser("/home/user");

    app.resize(
        Bounds { x: 4, y: 2, width: 76, height: 5 },
        Bounds { x: 0, y: 2, width: 4, height: 5 },
    );

    assert_eq!(app.tick(), Some((4, 2)));
    let rows: Vec<String> =
        app.line_numbers().compose_list().into_iter().map(|row| row.text).collect();
    assert_eq!(rows, vec!["  1", "  2", "  3", "~", "~"]);
}

#[test]
fn paths_are_made_absolute_from_the_working_directory() {
    assert_eq!(resolve("a/b", "/home/user").unwrap(), "/home/user/a/b");
    assert_eq!(resolve(".", "/home/user").unwrap(), "/home/user");
    assert_eq!(resolve("..", "/home/user").unwrap(), "/home");
    assert_eq!(resolve("../../../x", "/home/user").unwrap(), "/x");
    assert_eq!(resolve("/etc/../var/./log", "/home/user").unwrap(), "/var/log");
    assert_eq!(resolve("", "/home/user").unwrap(), "/home/user");
    assert_eq!(resolve("..", "/").unwrap(), "/");
}

#[test]
fn a_working_directory_that_is_not_absolute_resolves_nothing() {
    assert_eq!(
        resolve("..", "user").unwrap_err().message(),
        "scan failed: the working directory is not absolute"
    );
    assert!(resolve("a", "").is_err());
    assert!(starts_at_root("/"));
    assert!(!starts_at_root("a/"));
}

#[test]
fn the_path_defaults_to_the_current_directory() {
    assert_eq!(parse(Cli { path: None }), ".");
    assert_eq!(parse(Cli { path: Some("/var/log".to_string()) }), "/var/log");
    assert_eq!(parse(Cli { path: Some(String::new()) }), "");
}

#[test]
fn line_numbers_are_padded_to_three_columns() {
    assert_eq!(number_text(0), "  0");
    assert_eq!(number_text(7), "  7");
    assert_eq!(number_text(42), " 42");
    assert_eq!(number_text(999), "999");
    assert_eq!(number_text(1000), "1000");
    assert_eq!(number_text(65536), "65536");
}

#[test]
fn the_gutter_numbers_the_lines_and_marks_the_rows_below() {
    let mut gutter = LineNumbersComponent::new(2, Bounds { x: 0, y: 0, width: 4, height: 4 }, 9);
    let rows: Vec<(String, bool)> =
        gutter.compose_list().into_iter().map(|row| (row.text, row.is_number)).collect();
    assert_eq!(
        rows,
        vec![
            (" 10".to_string(), true),
            (" 11".to_string(), true),
            ("~".to_string(), false),
            ("~".to_string(), false),
        ]
    );

    gutter.update(3, 65535);
    gutter.resize(Bounds { x: 0, y: 0, width: 4, height: 2 });
    let rows: Vec<String> = gutter.compose_list().into_iter().map(|row| row.text).collect();
    assert_eq!(rows, vec!["65536", "65537"]);
}

#[test]
fn names_compare_by_code_point() {
    assert!(name_at_or_before("", ""));
    assert!(name_at_or_before("", "a"));
    assert!(!name_at_or_before("a", ""));
    assert!(name_at_or_before("a", "a"));
    assert!(name_at_or_before("a", "ab"));
    assert!(!name_at_or_before("ab", "a"));
    assert!(name_at_or_before("B", "a"));
    assert!(!name_at_or_before("a", "B"));
    assert!(name_at_or_before("z", "é"));
    assert!(name_at_or_before("10", "9"));
}

#[test]
fn offsets_saturate() {
    assert_eq!(shift(10, 5), 15);
    assert_eq!(shift(65535, 0), 65535);
    assert_eq!(shift(65530, 5), 65535);
    assert_eq!(shift(65530, 6), 65535);
    assert_eq!(shift(0, usize::MAX), 65535);
}

#[test]
fn the_help_explains_five_keys() {
    let app = browser("/home/user");
    let help = app.help_pane();

    assert_eq!(help.keys(), &vec!["-", "Enter", "q", "?", "H"]);
    assert_eq!(
        help.lines(),
        &vec![
            "Move up to parent directory",
            "Open the entry under the cursor",
            "Quit glm",
            "Toggle this help pane",
            "Toggle hidden files",
        ]
    );
}
