use erigui_widgets::file_dialog::{
    dialog_layout, entry_text, format_file_size, is_entry_shown, save_file_name, sort_entries, validate_filename,
    FileDialogMode, FileEntry, FileFilter,
};
use erigui_widgets::geometry::Rect;

#[test]
fn plain_names_are_accepted() {
    assert_eq!(validate_filename("report.txt"), Ok(()));
    assert_eq!(validate_filename("a"), Ok(()));
    assert_eq!(validate_filename(".hidden"), Ok(()));
    assert_eq!(validate_filename("CONSOLE.txt"), Ok(()));
    assert_eq!(validate_filename("COM0"), Ok(()));
}

#[test]
fn each_rule_has_its_message() {
    assert_eq!(validate_filename(""), Err("Filename cannot be empty"));
    assert_eq!(validate_filename("a..b"), Err("Filename cannot contain path traversal sequences (..)"));
    assert_eq!(validate_filename("dir/file"), Err("Filename cannot contain path separators"));
    assert_eq!(validate_filename("dir\\file"), Err("Filename cannot contain path separators"));
    assert_eq!(validate_filename("a\0b"), Err("Filename cannot contain null bytes"));
    assert_eq!(validate_filename(" name"), Err("Filename cannot have leading or trailing whitespace"));
    assert_eq!(validate_filename("name\t"), Err("Filename cannot have leading or trailing whitespace"));
    assert_eq!(validate_filename("."), Err("Filename cannot be just a dot"));
    assert_eq!(validate_filename("what?"), Err("Filename contains reserved characters"));
    assert_eq!(validate_filename("a:b"), Err("Filename contains reserved characters"));
    assert_eq!(validate_filename("con"), Err("Filename uses a reserved system name"));
    assert_eq!(validate_filename("Lpt3.log"), Err("Filename uses a reserved system name"));
    assert_eq!(validate_filename("nul.tar.gz"), Err("Filename uses a reserved system name"));
}

#[test]
fn the_first_failing_rule_decides() {
    // Both a separator and a reserved character: separators are checked first.
    assert_eq!(validate_filename("a/b?"), Err("Filename cannot contain path separators"));
    // ".." before everything after it.
    assert_eq!(validate_filename(" ..\0"), Err("Filename cannot contain path traversal sequences (..)"));
}

#[test]
fn sizes_are_shown_in_the_largest_unit() {
    assert_eq!(format_file_size(0), "0 B");
    assert_eq!(format_file_size(512), "512 B");
    assert_eq!(format_file_size(1023), "1023 B");
    assert_eq!(format_file_size(1024), "1.0 KB");
    assert_eq!(format_file_size(1536), "1.5 KB");
    assert_eq!(format_file_size(1126), "1.1 KB");
    assert_eq!(format_file_size(1048576), "1.0 MB");
    assert_eq!(format_file_size(5 * 1024 * 1024 * 1024), "5.0 GB");
    assert_eq!(format_file_size(1 << 40), "1024.0 GB");
}

#[test]
fn filters_match_by_extension_ignoring_ascii_case() {
    let images = FileFilter::new("Images", vec!["png", "JPG"]);
    assert!(images.matches("photo.png"));
    assert!(images.matches("dir/photo.PNG"));
    assert!(images.matches("holiday.jpg"));
    assert!(images.matches("archive.tar.png"));
    assert!(!images.matches("notes.txt"));
    assert!(!images.matches("Makefile"));
    assert!(!images.matches(".png"));
    assert!(!images.matches("png"));
}

#[test]
fn empty_and_star_filters_match_everything() {
    let all = FileFilter::new("All", vec![]);
    assert!(all.matches("Makefile"));
    let star = FileFilter::new("All files", vec!["*"]);
    assert!(star.matches("Makefile"));
    assert!(star.matches("a.b"));
}

#[test]
fn filter_labels_list_the_extensions() {
    assert_eq!(FileFilter::new("Images", vec!["png", "jpg"]).label(), "Images (png, jpg)");
    assert_eq!(FileFilter::new("Text", vec!["txt"]).label(), "Text (txt)");
    assert_eq!(FileFilter::new("None", vec![]).label(), "None ()");
}

#[test]
fn list_rows_show_a_symbol_and_the_size() {
    assert_eq!(entry_text("docs", true, 4096), "\u{1F4C1} docs");
    assert_eq!(entry_text("a.txt", false, 2048), "\u{1F4C4} a.txt (2.0 KB)");
    assert_eq!(entry_text("b", false, 7), "\u{1F4C4} b (7 B)");
}

#[test]
fn dialog_layout_places_the_parts() {
    let l = dialog_layout(Rect::new(0, 0, 600, 400), FileDialogMode::Save);
    assert_eq!(l.header, Rect::new(0, 0, 600, 80));
    assert_eq!(l.footer, Rect::new(0, 350, 600, 50));
    assert_eq!(l.content, Rect::new(0, 80, 600, 270));
    assert_eq!(l.breadcrumb, Rect::new(10, 10, 580, 30));
    assert_eq!(l.new_folder_button, Rect::new(490, 45, 100, 30));
    assert_eq!(l.file_list, Rect::new(10, 90, 580, 250));
    assert_eq!(l.filename_input, Some(Rect::new(10, 360, 300, 30)));
    assert_eq!(l.filter_dropdown, Rect::new(320, 360, 150, 30));
    assert_eq!(l.cancel_button, Rect::new(510, 360, 80, 30));
    assert_eq!(l.ok_button, Rect::new(420, 360, 80, 30));
    let o = dialog_layout(Rect::new(0, 0, 600, 400), FileDialogMode::Open);
    assert_eq!(o.filename_input, None);
    assert_eq!(o.filter_dropdown, Rect::new(10, 360, 150, 30));
}

fn entry(name: &str, is_dir: bool) -> FileEntry {
    FileEntry { name: name.to_string(), is_dir, size: 0 }
}

#[test]
fn listing_puts_folders_first_then_names_ignoring_case() {
    let sorted = sort_entries(vec![
        entry("b.txt", false),
        entry("Docs", true),
        entry("a.txt", false),
        entry("apps", true),
        entry("B.txt", false),
    ]);
    let names: Vec<&str> = sorted.iter().map(|e| e.name.as_str()).collect();
    // "b.txt" and "B.txt" rank alike and keep their order.
    assert_eq!(names, vec!["apps", "Docs", "a.txt", "b.txt", "B.txt"]);
    assert!(sort_entries(vec![]).is_empty());
}

#[test]
fn hidden_and_filtered_entries_are_left_out() {
    let all = FileFilter::new("All Files", vec!["*"]);
    let images = FileFilter::new("Images", vec!["png"]);
    assert!(!is_entry_shown(".hidden", false, false, FileDialogMode::Open, &all));
    assert!(is_entry_shown(".hidden", false, true, FileDialogMode::Open, &all));
    assert!(is_entry_shown("pic.png", false, false, FileDialogMode::Open, &images));
    assert!(!is_entry_shown("notes.txt", false, false, FileDialogMode::Open, &images));
    assert!(is_entry_shown("folder", true, false, FileDialogMode::Open, &images));
    assert!(is_entry_shown("notes.txt", false, false, FileDialogMode::SelectFolder, &images));
}

#[test]
fn save_names_get_the_filter_extension() {
    let filters = vec![FileFilter::new("Text", vec!["txt", "md"]), FileFilter::new("All", vec!["*"])];
    assert_eq!(save_file_name("report", &filters, 0), Some("report.txt".to_string()));
    assert_eq!(save_file_name("report.md", &filters, 0), Some("report.md".to_string()));
    assert_eq!(save_file_name(".bashrc", &filters, 0), Some(".bashrc.txt".to_string()));
    assert_eq!(save_file_name("archive.", &filters, 0), Some("archive.".to_string()));
    assert_eq!(save_file_name("report", &filters, 1), Some("report".to_string()));
    assert_eq!(save_file_name("report", &filters, 5), Some("report".to_string()));
    assert_eq!(save_file_name("bad/name", &filters, 0), None);
    assert_eq!(save_file_name("CON", &filters, 0), None);
}
