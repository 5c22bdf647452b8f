pub mod editor;
pub mod history;
