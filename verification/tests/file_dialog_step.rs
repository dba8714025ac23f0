use erigui_widgets::event::{Event, EventResult, Key, KeyPressEvent, Modifiers, MouseButton, MouseButtonEvent};
use erigui_widgets::file_dialog::{file_dialog_step, ChildResults, FileDialogAction, FileDialogMode, FileDialogState, ListedFile};
use erigui_widgets::geometry::{Point, Rect};

fn state(mode: FileDialogMode) -> FileDialogState {
    FileDialogState {
        enabled: true,
        visible: true,
        mode,
        selected_file: None,
        filename_text: String::new(),
        file_list_bounds: Rect::new(0, 40, 500, 300),
        ok_bounds: Rect::new(400, 350, 80, 30),
        cancel_bounds: Rect::new(300, 350, 80, 30),
        new_folder_bounds: Rect::new(10, 350, 100, 30),
        filename_focused: false,
        file_list_focused: false,
    }
}

fn rows() -> Vec<ListedFile> {
    vec![
        ListedFile { path: "/home/u/docs".to_string(), is_dir: true },
        ListedFile { path: "/home/u/notes.txt".to_string(), is_dir: false },
    ]
}

fn children(selected: Option<&str>) -> ChildResults {
    ChildResults {
        breadcrumb: EventResult::Ignored,
        file_list: EventResult::Ignored,
        filename: EventResult::Ignored,
        new_folder: EventResult::Ignored,
        ok: EventResult::Ignored,
        cancel: EventResult::Ignored,
        selected_item: selected.map(|s| s.to_string()),
        crumb_count: 3,
    }
}

fn mouse(x: i32, y: i32, pressed: bool) -> Event {
    Event::MouseButton(MouseButtonEvent {
        button: MouseButton::Left,
        position: Point::new(x, y),
        pressed,
        modifiers: Modifiers::empty(),
    })
}

fn key(k: Key) -> Event {
    Event::KeyPress(KeyPressEvent { key: k, modifiers: Modifiers::empty() })
}

#[test]
fn pressing_on_a_folder_row_opens_it() {
    let mut s = state(FileDialogMode::Open);
    let (r, a) = file_dialog_step(&mut s, &mouse(20, 50, true), &children(Some("/home/u/docs")), &rows());
    assert_eq!(r, EventResult::Consumed);
    assert!(matches!(a, FileDialogAction::OpenFolder(ref p) if p == "/home/u/docs"));
    assert_eq!(s.selected_file, None);
}

#[test]
fn pressing_on_a_file_row_selects_and_confirms_in_an_open_dialog() {
    let mut s = state(FileDialogMode::Open);
    let (r, a) = file_dialog_step(&mut s, &mouse(20, 80, true), &children(Some("/home/u/notes.txt")), &rows());
    assert_eq!(r, EventResult::Consumed);
    assert!(matches!(a, FileDialogAction::Confirm));
    assert_eq!(s.selected_file, Some("/home/u/notes.txt".to_string()));
    assert_eq!(s.filename_text, "notes.txt");
}

#[test]
fn a_save_dialog_only_takes_the_name_of_a_pressed_file() {
    let mut s = state(FileDialogMode::Save);
    let (r, a) = file_dialog_step(&mut s, &mouse(20, 80, true), &children(Some("/home/u/notes.txt")), &rows());
    assert_eq!(r, EventResult::Ignored);
    assert!(matches!(a, FileDialogAction::Nothing));
    assert_eq!(s.filename_text, "notes.txt");
}

#[test]
fn an_unknown_row_id_stands_for_the_first_row() {
    let mut s = state(FileDialogMode::Open);
    let (_, a) = file_dialog_step(&mut s, &mouse(20, 50, true), &children(Some("/elsewhere")), &rows());
    assert!(matches!(a, FileDialogAction::OpenFolder(ref p) if p == "/home/u/docs"));
}

#[test]
fn releases_on_the_buttons() {
    let mut s = state(FileDialogMode::Save);
    let (r, a) = file_dialog_step(&mut s, &mouse(410, 360, false), &children(None), &rows());
    assert_eq!(r, EventResult::Consumed);
    assert!(matches!(a, FileDialogAction::Confirm));
    let (_, a) = file_dialog_step(&mut s, &mouse(310, 360, false), &children(None), &rows());
    assert!(matches!(a, FileDialogAction::Cancel));
    let (r, a) = file_dialog_step(&mut s, &mouse(20, 360, false), &children(None), &rows());
    assert_eq!(r, EventResult::Consumed);
    assert!(matches!(a, FileDialogAction::Nothing));
}

#[test]
fn enter_confirms_only_with_focus_and_escape_cancels() {
    let mut s = state(FileDialogMode::Save);
    let (r, _) = file_dialog_step(&mut s, &key(Key::Enter), &children(None), &rows());
    assert_eq!(r, EventResult::Ignored);
    s.filename_focused = true;
    let (r, a) = file_dialog_step(&mut s, &key(Key::Enter), &children(None), &rows());
    assert_eq!(r, EventResult::Consumed);
    assert!(matches!(a, FileDialogAction::Confirm));
    let (_, a) = file_dialog_step(&mut s, &key(Key::Escape), &children(None), &rows());
    assert!(matches!(a, FileDialogAction::Cancel));
}

#[test]
fn a_path_bar_click_opens_its_folder() {
    let mut s = state(FileDialogMode::Open);
    let mut c = children(None);
    c.breadcrumb = EventResult::Consumed;
    let (r, a) = file_dialog_step(&mut s, &Event::Other, &c, &rows());
    assert_eq!(r, EventResult::Consumed);
    assert!(matches!(a, FileDialogAction::OpenCrumbs));
    c.crumb_count = 0;
    let (r, a) = file_dialog_step(&mut s, &Event::Other, &c, &rows());
    assert_eq!(r, EventResult::Consumed);
    assert!(matches!(a, FileDialogAction::Nothing));
}

#[test]
fn the_name_field_counts_only_in_a_save_dialog() {
    let mut c = children(None);
    c.filename = EventResult::Consumed;
    let mut s = state(FileDialogMode::Open);
    let (r, _) = file_dialog_step(&mut s, &Event::Other, &c, &rows());
    assert_eq!(r, EventResult::Ignored);
    let mut s = state(FileDialogMode::Save);
    let (r, _) = file_dialog_step(&mut s, &Event::Other, &c, &rows());
    assert_eq!(r, EventResult::Consumed);
}

#[test]
fn a_disabled_dialog_ignores_events() {
    let mut s = state(FileDialogMode::Open);
    s.enabled = false;
    let (r, a) = file_dialog_step(&mut s, &key(Key::Escape), &children(Some("/home/u/notes.txt")), &rows());
    assert_eq!(r, EventResult::Ignored);
    assert!(matches!(a, FileDialogAction::Nothing));
    assert_eq!(s.selected_file, None);
}
