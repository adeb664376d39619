pub mod dict;
pub mod file;
pub mod laws;
pub mod model;
pub mod plover;
pub mod rtf;
pub mod text;

pub use dict::{Dictionary, Entry, EntryMetadata, EntryView};
pub use file::{parse_file, parse_rtf};
pub use model::{Case, Object, ParagraphMode};
pub use plover::{format_plover_to_rtf, parse_translation};
pub use rtf::{fix_attach, format_rtf_to_plover, parse_rtf_translation};
