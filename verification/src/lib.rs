pub mod accessibility;
pub mod add_menu;
pub mod accordion;
pub mod breadcrumb;
pub mod button;
pub mod checkbox;
pub mod clipboard;
pub mod color_picker;
pub mod combo_box;
pub mod container;
pub mod context_menu;
pub mod date_time_picker;
pub mod dialog;
pub mod dock_panel;
pub mod drag_drop;
pub mod event;
pub mod file_dialog;
pub mod geometry;
pub mod graph;
pub mod keyboard_nav;
pub mod label;
pub mod list_view;
pub mod menu;
pub mod node_graph;
pub mod node_progress;
pub mod notification;
pub mod preview;
pub mod progress_bar;
pub mod radio_button;
pub mod scroll_view;
pub mod search_box;
pub mod slider;
pub mod spin_box;
pub mod status_bar;
pub mod text;
pub mod widget;
