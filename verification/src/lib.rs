//! Verified core of a keystroke journal: the session buffer that records what
//! is typed and pasted, its cursor movement, the rules that decide when a
//! session is saved, the settings that steer it, the keyboard hook's
//! decisions and the text of the database queries.
pub mod clock;
pub mod text;
pub mod editor;
pub mod session;
pub mod settings;
pub mod keyboard;
pub mod storage;
pub mod tray;
