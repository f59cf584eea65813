use glm::components::file_list::{FileListComponent, Position};
use glm::cursor::Motion;
use glm::key::Key;
use glm::layout::Bounds;
use glm::{FileType, Item};

fn file(name: &str) -> Item {
    Item {
        is_hidden: false,
        file_type: FileType::File,
        file_ext: Some(".txt".into()),
        file_name: name.to_string(),
        file_path: String::new(),
    }
}

fn directory(name: &str) -> Item {
    Item {
        is_hidden: false,
        file_type: FileType::Directory,
        file_ext: Some(".txt".into()),
        file_name: name.to_string(),
        file_path: String::new(),
    }
}

fn area() -> Bounds {
    // start not in 0,0 to test bounds
    Bounds { x: 10, y: 10, width: 10, height: 10 }
}

fn make_sut(lines_number: u8) -> FileListComponent {
    let mut lines = vec![];
    for i in 0..lines_number {
        lines.push(file(&(i.to_string() + "hello_world")));
    }
    FileListComponent::new(lines, area())
}

#[test]
fn test_get_line_under_cursor() {
    let sut = make_sut(1);

    let line = &sut.get_line_under_cursor().unwrap().display_name;

    assert_eq!(line, "0hello_world");
}

#[test]
fn test_move_cursor_down() {
    let mut sut = make_sut(10);

    // should never be bigger than total lines
    for _ in 0..30 {
        _ = sut.move_cursor_down();
    }

    assert_eq!(sut.position().y, 9);
}

#[test]
fn test_move_cursor_up() {
    let mut sut = make_sut(10);
    for _ in 0..3 {
        sut.move_cursor_down();
    }
    assert_eq!(sut.position().y, 3);

    // should never go below 0
    for _ in 0..6 {
        _ = sut.move_cursor_up();
    }

    assert_eq!(sut.position().y, 0);
}

#[test]
fn test_move_cursor_right() {
    let mut sut = make_sut(1);

    // should not go over end of line
    for _ in 0..30 {
        _ = sut.move_cursor_right();
    }

    assert_eq!(sut.position().x, 11);
}

#[test]
fn test_move_cursor_left() {
    let mut sut = make_sut(1);
    for _ in 0..10 {
        sut.move_cursor_right();
    }
    assert_eq!(sut.position().x, 10);

    // should not go below 0
    for _ in 0..30 {
        _ = sut.move_cursor_left();
    }

    assert_eq!(sut.position().x, 0);
}

#[test]
fn test_move_cursor_to_next_word() {
    let mut sut = make_sut(2);

    // should go to the first character of second line.
    // 0hello_world
    //       ^^   ^
    // These are the separators it should stop. the 4th move to next line
    for _ in 0..4 {
        _ = sut.move_cursor_to_next_word();
    }

    assert_eq!(sut.position().x, 0);
    assert_eq!(sut.position().y, 1);
}

#[test]
fn test_move_to_line_start() {
    let mut sut = make_sut(1);
    for _ in 0..10 {
        sut.move_cursor_right();
    }
    assert_eq!(sut.position().x, 10);

    _ = sut.move_cursor_to_line_start();

    assert_eq!(sut.position().x, 0);
}

#[test]
fn test_move_to_line_end() {
    let mut sut = make_sut(1);

    _ = sut.move_cursor_to_line_end();

    assert_eq!(sut.position().x, 11);
}

#[test]
fn test_sort_correctly() {
    let mut lines = vec![];
    lines.push(file("6hello_world"));
    for i in 0..3 {
        lines.push(file(&(i.to_string() + "hello_world")));
    }
    for i in 3..6 {
        lines.push(directory(&(i.to_string() + "hello_world")));
    }
    let sut = FileListComponent::new(lines, area());

    let items = sut.items();

    assert_eq!(items.len(), 7);
    assert_eq!(items[0].item.file_type, FileType::Directory);
    assert_eq!(items[1].item.file_type, FileType::Directory);
    assert_eq!(items[2].item.file_type, FileType::Directory);
    assert_eq!(items[0].display_name, "3hello_world/");
    assert_eq!(items[3].display_name, "0hello_world");
    assert_eq!(items[4].item.file_type, FileType::File);
    assert_eq!(items[5].item.file_type, FileType::File);
    assert_eq!(items[5].display_name, "2hello_world");
    assert_eq!(items[6].item.file_type, FileType::File);
    assert_eq!(items[6].display_name, "6hello_world");
}

#[test]
fn next_word_stops_at_each_change_of_class() {
    let mut sut = make_sut(2);

    sut.move_cursor_to_next_word();
    assert_eq!(sut.position(), Position { x: 6, y: 0 });
    sut.move_cursor_to_next_word();
    assert_eq!(sut.position(), Position { x: 7, y: 0 });
    sut.move_cursor_to_next_word();
    assert_eq!(sut.position(), Position { x: 11, y: 0 });
    sut.move_cursor_to_next_word();
    assert_eq!(sut.position(), Position { x: 0, y: 1 });
}

#[test]
fn next_word_skips_a_run_of_separators() {
    let mut sut = FileListComponent::new(vec![file("a-_. b")], area());

    sut.move_cursor_to_next_word();
    assert_eq!(sut.position(), Position { x: 1, y: 0 });
    sut.move_cursor_to_next_word();
    assert_eq!(sut.position(), Position { x: 5, y: 0 });
}

#[test]
fn next_word_on_the_last_column_of_the_last_line_stays() {
    let mut sut = make_sut(2);
    sut.move_cursor_down();
    sut.move_cursor_to_line_end();
    assert_eq!(sut.position(), Position { x: 11, y: 1 });

    sut.move_cursor_to_next_word();

    assert_eq!(sut.position(), Position { x: 11, y: 1 });
}

#[test]
fn is_separator_knows_the_four_separators() {
    for c in ['-', '_', '.', ' '] {
        assert!(FileListComponent::is_separator(c));
    }
    for c in ['a', '0', '/', 'é', '~'] {
        assert!(!FileListComponent::is_separator(c));
    }
}

#[test]
fn moving_to_a_shorter_line_pulls_the_column_back() {
    let mut sut = FileListComponent::new(vec![file("ab"), file("abcdefgh")], area());
    sut.move_cursor_down();
    sut.move_cursor_to_line_end();
    assert_eq!(sut.position(), Position { x: 7, y: 1 });

    sut.move_cursor_up();

    assert_eq!(sut.position(), Position { x: 1, y: 0 });
}

#[test]
fn motions_on_an_empty_list_do_nothing() {
    let mut sut = FileListComponent::new(vec![], area());
    for motion in [
        Motion::Left,
        Motion::Down,
        Motion::Up,
        Motion::Right,
        Motion::LineStart,
        Motion::LineEnd,
        Motion::NextWord,
    ] {
        sut.move_cursor(motion);
        assert_eq!(sut.position(), Position { x: 0, y: 0 });
    }
    assert!(sut.get_line_under_cursor().is_none());
}

#[test]
fn an_empty_label_parks_the_cursor_in_its_first_column() {
    let mut sut = FileListComponent::new(vec![file(""), file("abc")], area());
    assert_eq!(sut.items()[0].display_name, "");

    sut.move_cursor_right();
    assert_eq!(sut.position(), Position { x: 0, y: 0 });
    sut.move_cursor_to_line_end();
    assert_eq!(sut.position(), Position { x: 0, y: 0 });
    sut.move_cursor_to_next_word();
    assert_eq!(sut.position(), Position { x: 0, y: 1 });
}

#[test]
fn columns_count_characters() {
    let mut sut = FileListComponent::new(vec![file("été_là")], area());

    sut.move_cursor_to_line_end();
    assert_eq!(sut.position(), Position { x: 5, y: 0 });
    sut.move_cursor_to_line_start();
    sut.move_cursor_to_next_word();
    assert_eq!(sut.position(), Position { x: 3, y: 0 });
}

#[test]
fn keys_map_to_motions() {
    assert_eq!(FileListComponent::motion_for_key(Key::Char('h')), Some(Motion::Left));
    assert_eq!(FileListComponent::motion_for_key(Key::Char('j')), Some(Motion::Down));
    assert_eq!(FileListComponent::motion_for_key(Key::Char('k')), Some(Motion::Up));
    assert_eq!(FileListComponent::motion_for_key(Key::Char('l')), Some(Motion::Right));
    assert_eq!(FileListComponent::motion_for_key(Key::Char('0')), Some(Motion::LineStart));
    assert_eq!(FileListComponent::motion_for_key(Key::Char('$')), Some(Motion::LineEnd));
    assert_eq!(FileListComponent::motion_for_key(Key::Char('w')), Some(Motion::NextWord));
    assert_eq!(FileListComponent::motion_for_key(Key::Char('x')), None);
    assert_eq!(FileListComponent::motion_for_key(Key::Enter), None);
    assert_eq!(FileListComponent::motion_for_key(Key::Other), None);
}

#[test]
fn a_key_moves_the_cursor_and_says_where_to_draw_it() {
    let mut sut = make_sut(3);

    assert_eq!(sut.handle_key_event(Key::Char('j')), (10, 11));
    assert_eq!(sut.handle_key_event(Key::Char('$')), (21, 11));
    assert_eq!(sut.handle_key_event(Key::Char('h')), (20, 11));
    assert_eq!(sut.handle_key_event(Key::Char('x')), (20, 11));
    assert_eq!(sut.position(), Position { x: 10, y: 1 });
}

#[test]
fn tick_draws_the_cursor_only_where_it_is_not_drawn() {
    let mut sut = make_sut(3);

    assert_eq!(sut.tick(), Some((10, 10)));
    assert_eq!(sut.tick(), None);
    sut.move_cursor_down();
    assert_eq!(sut.tick(), Some((10, 11)));
    assert_eq!(sut.tick(), None);
    assert_eq!(sut.draw_cursor(), (10, 11));
}

#[test]
fn the_screen_cell_stops_at_the_largest_coordinate() {
    let mut sut = make_sut(3);
    sut.resize(Bounds { x: 65530, y: 65534, width: 5, height: 1 });
    sut.move_cursor_down();
    sut.move_cursor_down();
    sut.move_cursor_to_line_end();

    assert_eq!(sut.draw_cursor(), (65535, 65535));
}

#[test]
fn update_replaces_the_lines_and_resets_the_cursor() {
    let mut sut = make_sut(5);
    sut.move_cursor_down();
    sut.move_cursor_right();

    let cell = sut.update(vec![file("b"), directory("a"), file("a")]);

    assert_eq!(cell, (10, 10));
    assert_eq!(sut.position(), Position { x: 0, y: 0 });
    let labels: Vec<&str> = sut.items().iter().map(|line| line.display_name.as_str()).collect();
    assert_eq!(labels, vec!["a/", "a", "b"]);
    assert_eq!(sut.tick(), None);
}

#[test]
fn entries_that_compare_equal_keep_their_order() {
    let mut first = file("same");
    first.file_path = "first".to_string();
    let mut second = file("same");
    second.file_path = "second".to_string();
    let mut third = file("same");
    third.file_path = "third".to_string();

    let sut = FileListComponent::new(vec![first, file("zz"), second, file("aa"), third], area());

    let paths: Vec<&str> = sut.items().iter().map(|line| line.item.file_path.as_str()).collect();
    assert_eq!(paths, vec!["", "first", "second", "third", ""]);
}

#[test]
fn symlinks_sort_with_files_and_names_sort_by_code_point() {
    let mut link = file("Link");
    link.file_type = FileType::Symlink;

    let sut = FileListComponent::new(
        vec![file("b"), link, directory("z"), file("B"), directory("Z"), file("a.b"), file("a")],
        area(),
    );

    let labels: Vec<&str> = sut.items().iter().map(|line| line.display_name.as_str()).collect();
    assert_eq!(labels, vec!["Z/", "z/", "B", "Link", "a", "a.b", "b"]);
}

#[test]
fn a_large_directory_is_ordered() {
    let mut lines = vec![];
    for i in (0..20000).rev() {
        let mut entry = if i % 3 == 0 { directory(&format!("{:05}", i / 2)) } else { file(&format!("{:05}", i / 2)) };
        entry.file_path = i.to_string();
        lines.push(entry);
    }

    let sut = FileListComponent::new(lines, area());

    let items = sut.items();
    assert_eq!(items.len(), 20000);
    for pair in items.windows(2) {
        let (a, b) = (&pair[0].item, &pair[1].item);
        let a_dir = a.file_type == FileType::Directory;
        let b_dir = b.file_type == FileType::Directory;
        assert!(a_dir || !b_dir);
        if a_dir == b_dir {
            assert!(a.file_name <= b.file_name);
            if a.file_name == b.file_name {
                let first: usize = a.file_path.parse().unwrap();
                let second: usize = b.file_path.parse().unwrap();
                assert!(first > second);
            }
        }
    }
}

#[test]
fn sorting_keeps_every_entry() {
    let names = ["d", "b", "a", "c", "b", "e", "a"];
    let lines: Vec<Item> = names.iter().map(|name| file(name)).collect();

    let sorted = glm::sort::sort_items(lines);

    let sorted: Vec<&str> = sorted.iter().map(|item| item.file_name.as_str()).collect();
    assert_eq!(sorted, vec!["a", "a", "b", "b", "c", "d", "e"]);
    assert!(glm::sort::sort_items(vec![]).is_empty());
    assert_eq!(glm::sort::sort_items(vec![file("only")])[0].file_name, "only");
}
