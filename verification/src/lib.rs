//! Core engine of a terminal text editor: line buffer and cursor editing,
//! modal input handling, viewport windowing, cursor overlay rendering over
//! color-escaped text, a directory browser model and a notification queue.
//!
//! Terminal I/O, file system access and the syntax highlighter live outside
//! this crate; the logic here is specified and verified over plain values.

pub mod browser;
pub mod dispatch;
pub mod editor;
pub mod highlight;
pub mod input;
pub mod overlay;
pub mod text;
pub mod toast;
pub mod view;

pub use browser::BrowserEntry;
pub use browser::FileBrowser;
pub use dispatch::BrowserCommand;
pub use dispatch::InputMode;
pub use dispatch::NormalCommand;
pub use dispatch::RawInput;
pub use dispatch::current_mode;
pub use dispatch::decode_browser;
pub use dispatch::decode_normal;
pub use editor::Buffer;
pub use editor::FileInfo;
pub use editor::FileManager;
pub use editor::Pointer;
pub use highlight::render_line;
pub use input::InputAction;
pub use input::InputHandler;
pub use input::InputResult;
pub use overlay::overlay_cursor;
pub use toast::Toast;
pub use toast::ToastType;
pub use text::center_text;
pub use text::last_path_segment;
pub use text::serialize_lines;
pub use view::browser_window;
pub use view::chrome_rows;
pub use view::scroll_percentage;
pub use view::viewport_window;
