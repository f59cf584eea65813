//! The browser as a state machine: what each key does to it, what it asks
//! of its driver, and what it makes of the directories that the driver reads.

use vstd::prelude::*;

use crate::components::file_list::{
    cell_of, consistent, displays, labels_of, moved_by_key, FileListComponent, FileListView,
};
use crate::components::help::{bindings, HelpComponent, HelpView};
use crate::components::line_numbers::{LineNumbersComponent, LineNumbersView};
use crate::cursor::Cursor;
use crate::file_manager::{entries_well_formed, state_after, FileManager, FileManagerView};
use crate::fs_ops::{reading_views, Error, FsOps, Listing};
use crate::item::{item_views, FileType};
use crate::key::Key;
use crate::layout::{Bounds, Cell};
use crate::ordering::is_directory;
use crate::paths::{parent_of, path_parent};
use crate::text::text_of;

verus! {

/// What the browser asks of its driver after a key.
#[derive(Debug)]
pub enum Request {
    /// Nothing.
    Nothing,
    /// To put the terminal's cursor on a cell.
    Draw(Cell),
    /// To read the directory at a path and hand its reading to
    /// [`App::change_dir`].
    Scan(String),
    /// To read the directory at a path, which is the current one, and hand
    /// its reading to [`App::toggle_hidden`].
    Rescan(String),
}

/// The mathematical content of a [`Request`].
pub enum RequestView {
    Nothing,
    Draw(Cell),
    Scan(Seq<char>),
    Rescan(Seq<char>),
}

impl View for Request {
    type V = RequestView;

    open spec fn view(&self) -> RequestView {
        match self {
            Request::Nothing => RequestView::Nothing,
            Request::Draw(cell) => RequestView::Draw(*cell),
            Request::Scan(path) => RequestView::Scan(path@),
            Request::Rescan(path) => RequestView::Rescan(path@),
        }
    }
}

/// What an [`App`] holds.
pub struct AppView {
    pub file_list: FileListView,
    pub file_manager: FileManagerView,
    pub line_numbers: LineNumbersView,
    pub help_pane: HelpView,
    pub is_help_open: bool,
    pub is_running: bool,
}

/// The screen shows the directory that the manager is in: the list
/// displays the manager's entries, and the gutter counts them.
pub open spec fn in_step(app: AppView) -> bool {
    &&& displays(app.file_manager.state.items, app.file_list.lines)
    &&& consistent(app.file_list)
    &&& app.line_numbers.total_lines == app.file_manager.state.items.len()
}

/// The path to descend into: that of the entry under the cursor, where
/// that entry is a directory.
pub open spec fn descend_target(list: FileListView) -> Option<Seq<char>> {
    if 0 <= list.cursor.y < list.lines.len() && is_directory(list.lines[list.cursor.y].item) {
        Some(list.lines[list.cursor.y].item.file_path)
    } else {
        None
    }
}

/// The request to read the directory at `target`, where there is one.
pub open spec fn scan_request(target: Option<Seq<char>>) -> RequestView {
    match target {
        Some(path) => RequestView::Scan(path),
        None => RequestView::Nothing,
    }
}

/// The list after a key that moves the cursor or does nothing: the
/// cursor is where the key took it, and is drawn there.
pub open spec fn list_after_key(list: FileListView, key: Key) -> FileListView {
    let cursor = moved_by_key(labels_of(list.lines), list.cursor, key);
    FileListView { cursor, drawn: Some(cursor), ..list }
}

/// The browser after a key.
pub open spec fn after_key(app: AppView, key: Key) -> AppView {
    match key {
        Key::Enter | Key::Char('-') | Key::Char('H') => app,
        Key::Char('q') => AppView { is_running: false, ..app },
        Key::Char('?') => AppView { is_help_open: !app.is_help_open, ..app },
        _ => AppView { file_list: list_after_key(app.file_list, key), ..app },
    }
}

/// What the browser asks for after a key.
pub open spec fn request_for(app: AppView, key: Key) -> RequestView {
    match key {
        Key::Enter => scan_request(descend_target(app.file_list)),
        Key::Char('-') => scan_request(parent_of(app.file_manager.state.current_dir)),
        Key::Char('H') => RequestView::Rescan(app.file_manager.state.current_dir),
        Key::Char('q') | Key::Char('?') => RequestView::Nothing,
        _ => {
            let list = list_after_key(app.file_list, key);
            RequestView::Draw(cell_of(list.bounds, list.cursor))
        },
    }
}

/// At a filesystem root, where the current directory has no parent, the
/// key that ascends changes nothing and asks for nothing.
pub proof fn lemma_ascend_from_root(app: AppView)
    requires
        parent_of(app.file_manager.state.current_dir) is None,
    ensures
        after_key(app, Key::Char('-')) == app,
        request_for(app, Key::Char('-')) == RequestView::Nothing,
{
}

/// The browser.
#[derive(Debug)]
pub struct App {
    file_list: FileListComponent,
    file_manager: FileManager,
    line_numbers: LineNumbersComponent,
    help_pane: HelpComponent,
    is_help_open: bool,
    pub is_running: bool,
}

impl View for App {
    type V = AppView;

    closed spec fn view(&self) -> AppView {
        AppView {
            file_list: self.file_list@,
            file_manager: self.file_manager@,
            line_numbers: self.line_numbers@,
            help_pane: self.help_pane@,
            is_help_open: self.is_help_open,
            is_running: self.is_running,
        }
    }
}

impl App {
    /// A running browser that shows what `file_manager` lists, on a screen
    /// of `size`, with the help closed.
    pub fn new(file_manager: FileManager, size: Bounds) -> (app: Self)
        ensures
            app@.file_manager == file_manager@,
            app@.is_running,
            !app@.is_help_open,
            app@.file_list.cursor == (Cursor { x: 0, y: 0 }),
            app@.file_list.drawn is None,
            app@.file_list.bounds == size,
            app@.line_numbers == (LineNumbersView {
                total_lines: file_manager@.state.items.len() as int,
                bounds: size,
                scroll: 0,
            }),
            app@.help_pane == bindings(),
            in_step(app@),
    {
        let list = file_manager.get_state().items.clone();
        assert(item_views(list@) =~= file_manager@.state.items);
        Self {
            is_running: true,
            is_help_open: false,
            line_numbers: LineNumbersComponent::new(list.len(), size, 0),
            file_list: FileListComponent::new(list, size),
            help_pane: HelpComponent::new(),
            file_manager,
        }
    }

    /// The list of entries on screen.
    pub fn file_list(&self) -> (list: &FileListComponent)
        ensures
            list@ == self@.file_list,
    {
        &self.file_list
    }

    /// The file manager.
    pub fn file_manager(&self) -> (manager: &FileManager)
        ensures
            manager@ == self@.file_manager,
    {
        &self.file_manager
    }

    /// The gutter of line numbers.
    pub fn line_numbers(&self) -> (gutter: &LineNumbersComponent)
        ensures
            gutter@ == self@.line_numbers,
    {
        &self.line_numbers
    }

    /// The help pane.
    pub fn help_pane(&self) -> (help: &HelpComponent)
        ensures
            help@ == self@.help_pane,
    {
        &self.help_pane
    }

    /// Whether the pane at the bottom of the screen is open: whether the
    /// help is.
    pub fn should_open_bottom_pane(&self) -> (open: bool)
        ensures
            open == self@.is_help_open,
    {
        self.is_help_open
    }

    /// Opens the help if it is closed, closes it if it is open.
    pub fn toggle_help(&mut self)
        ensures
            final(self)@ == (AppView { is_help_open: !old(self)@.is_help_open, ..old(self)@ }),
    {
        self.is_help_open = !self.is_help_open;
    }

    /// Hands the list and the gutter the parts of the screen that they
    /// are drawn in.
    pub fn resize(&mut self, list: Bounds, line_numbers: Bounds)
        ensures
            final(self)@ == (AppView {
                file_list: FileListView { bounds: list, ..old(self)@.file_list },
                line_numbers: LineNumbersView { bounds: line_numbers, ..old(self)@.line_numbers },
                ..old(self)@
            }),
    {
        self.file_list.resize(list);
        self.line_numbers.resize(line_numbers);
    }

    /// The path to descend into: that of the entry under the cursor, where
    /// that entry is a directory. Any other entry is not for this browser
    /// to open.
    pub fn select_current_item(&self) -> (target: Option<String>)
        ensures
            text_of(target) == descend_target(self@.file_list),
    {
        match self.file_list.get_line_under_cursor() {
            Some(list_item) => match list_item.item.file_type {
                FileType::Directory => Some(list_item.item.file_path.clone()),
                _ => None,
            },
            None => None,
        }
    }

    /// The path to ascend to: the parent of the current directory. There
    /// is none at a filesystem root.
    pub fn change_to_parent(&self) -> (target: Option<String>)
        ensures
            text_of(target) == parent_of(self@.file_manager.state.current_dir),
    {
        path_parent(self.file_manager.get_state().current_dir.as_str())
    }

    /// The request to read the directory at `target`, where there is one.
    pub fn to_scan(target: Option<String>) -> (request: Request)
        ensures
            request@ == scan_request(text_of(target)),
    {
        match target {
            Some(path) => Request::Scan(path),
            None => Request::Nothing,
        }
    }

    /// Does what `key` asks, as far as the browser can by itself, and
    /// says what is left for the driver to do.
    pub fn handle_key_event(&mut self, key: Key) -> (request: Request)
        ensures
            final(self)@ == after_key(old(self)@, key),
            request@ == request_for(old(self)@, key),
            in_step(old(self)@) ==> in_step(final(self)@),
    {
        match key {
            Key::Enter => Self::to_scan(self.select_current_item()),
            Key::Char(c) => {
                if c == 'q' {
                    self.is_running = false;
                    Request::Nothing
                } else if c == '-' {
                    Self::to_scan(self.change_to_parent())
                } else if c == '?' {
                    self.toggle_help();
                    Request::Nothing
                } else if c == 'H' {
                    Request::Rescan(self.file_manager.get_state().current_dir.clone())
                } else {
                    Request::Draw(self.file_list.handle_key_event(key))
                }
            },
            Key::Other => Request::Draw(self.file_list.handle_key_event(key)),
        }
    }

    /// Marks the cursor as drawn where it is, and says at which screen
    /// cell that is.
    pub fn draw_cursor(&mut self) -> (cell: Cell)
        ensures
            final(self)@ == (AppView {
                file_list: FileListView {
                    drawn: Some(old(self)@.file_list.cursor),
                    ..old(self)@.file_list
                },
                ..old(self)@
            }),
            cell == cell_of(old(self)@.file_list.bounds, old(self)@.file_list.cursor),
            in_step(old(self)@) ==> in_step(final(self)@),
    {
        self.file_list.draw_cursor()
    }

    /// Draws the cursor if it is not drawn where it is.
    pub fn tick(&mut self) -> (cell: Option<Cell>)
        ensures
            final(self)@ == (AppView {
                file_list: FileListView {
                    drawn: Some(old(self)@.file_list.cursor),
                    ..old(self)@.file_list
                },
                ..old(self)@
            }),
            cell == if old(self)@.file_list.drawn == Some(old(self)@.file_list.cursor) {
                None
            } else {
                Some(cell_of(old(self)@.file_list.bounds, old(self)@.file_list.cursor))
            },
            in_step(old(self)@) ==> in_step(final(self)@),
    {
        self.file_list.tick()
    }

    /// Shows the entries that the manager now lists: the gutter counts
    /// them, and the list displays them with the cursor at its origin.
    fn show_entries(&mut self) -> (cell: Cell)
        ensures
            final(self)@.file_manager == old(self)@.file_manager,
            final(self)@.help_pane == old(self)@.help_pane,
            final(self)@.is_help_open == old(self)@.is_help_open,
            final(self)@.is_running == old(self)@.is_running,
            final(self)@.file_list.cursor == (Cursor { x: 0, y: 0 }),
            final(self)@.file_list.drawn == Some(final(self)@.file_list.cursor),
            final(self)@.file_list.bounds == old(self)@.file_list.bounds,
            final(self)@.file_list.lines.len() == old(self)@.file_manager.state.items.len(),
            final(self)@.line_numbers == (LineNumbersView {
                total_lines: old(self)@.file_manager.state.items.len() as int,
                scroll: 0,
                ..old(self)@.line_numbers
            }),
            in_step(final(self)@),
            cell == cell_of(final(self)@.file_list.bounds, final(self)@.file_list.cursor),
    {
        let items = self.file_manager.get_state().items.clone();
        assert(item_views(items@) =~= self@.file_manager.state.items);
        self.line_numbers.update(items.len(), 0);
        self.file_list.update(items)
    }

    /// Moves into the directory at `path`, whose reading is `listing`: the
    /// manager lists it, the list displays it, and the cursor is back at
    /// its origin. Says where to draw the cursor. Where the directory could
    /// not be read, nothing changes.
    pub fn change_dir(&mut self, path: &str, listing: Result<Listing, String>) -> (cell:
        Result<Cell, Error>)
        ensures
            match listing {
                Ok(readings) => {
                    &&& cell matches Ok(cell)
                    &&& cell == cell_of(final(self)@.file_list.bounds, final(self)@.file_list.cursor)
                    &&& final(self)@.file_manager == (FileManagerView {
                        state: state_after(
                            path@,
                            reading_views(readings@),
                            old(self)@.file_manager.show_hidden,
                        ),
                        ..old(self)@.file_manager
                    })
                    &&& entries_well_formed(final(self)@.file_manager.state)
                    &&& in_step(final(self)@)
                    &&& final(self)@.file_list.lines.len()
                        == final(self)@.file_manager.state.items.len()
                    &&& final(self)@.file_list.cursor == (Cursor { x: 0, y: 0 })
                    &&& final(self)@.file_list.drawn == Some(final(self)@.file_list.cursor)
                    &&& final(self)@.file_list.bounds == old(self)@.file_list.bounds
                    &&& final(self)@.line_numbers.bounds == old(self)@.line_numbers.bounds
                    &&& final(self)@.help_pane == old(self)@.help_pane
                    &&& final(self)@.is_help_open == old(self)@.is_help_open
                    &&& final(self)@.is_running == old(self)@.is_running
                },
                Err(reason) => {
                    &&& cell matches Err(error)
                    &&& error.reason() == reason@
                    &&& final(self)@ == old(self)@
                },
            },
    {
        match self.file_manager.change_dir(path, listing) {
            Ok(_) => Ok(self.show_entries()),
            Err(error) => Err(error),
        }
    }

    /// Shows hidden entries if they were left out, leaves them out if
    /// they were shown, and lists the current directory anew from `listing`.
    /// Where the directory could not be read, the screen stays as it was.
    pub fn toggle_hidden(&mut self, listing: Result<Listing, String>) -> (cell: Result<
        Cell,
        Error,
    >)
        ensures
            final(self)@.file_manager.show_hidden == !old(self)@.file_manager.show_hidden,
            in_step(old(self)@) ==> in_step(final(self)@),
            final(self)@.help_pane == old(self)@.help_pane,
            final(self)@.is_help_open == old(self)@.is_help_open,
            final(self)@.is_running == old(self)@.is_running,
            match listing {
                Ok(readings) => {
                    &&& cell matches Ok(cell)
                    &&& cell == cell_of(final(self)@.file_list.bounds, final(self)@.file_list.cursor)
                    &&& final(self)@.file_manager.state == state_after(
                        old(self)@.file_manager.state.current_dir,
                        reading_views(readings@),
                        !old(self)@.file_manager.show_hidden,
                    )
                    &&& entries_well_formed(final(self)@.file_manager.state)
                    &&& in_step(final(self)@)
                    &&& final(self)@.file_list.lines.len()
                        == final(self)@.file_manager.state.items.len()
                    &&& final(self)@.file_list.cursor == (Cursor { x: 0, y: 0 })
                    &&& final(self)@.file_list.drawn == Some(final(self)@.file_list.cursor)
                    &&& final(self)@.file_list.bounds == old(self)@.file_list.bounds
                    &&& final(self)@.line_numbers.bounds == old(self)@.line_numbers.bounds
                },
                Err(reason) => {
                    &&& cell matches Err(error)
                    &&& error.reason() == reason@
                    &&& final(self)@.file_manager.state == old(self)@.file_manager.state
                    &&& final(self)@.file_list == old(self)@.file_list
                    &&& final(self)@.line_numbers == old(self)@.line_numbers
                },
            },
    {
        match self.file_manager.toggle_hidden(listing) {
            Ok(_) => Ok(self.show_entries()),
            Err(error) => Err(error),
        }
    }
}

} // verus!
