//! Removal of invisible Unicode formatting and control characters from text,
//! with the counts, previews, status messages and Word export around it.

pub mod clean;
pub mod cleaner;
pub mod docx;
pub mod fmt;
pub mod i18n;
pub mod package;
pub mod text;
pub mod unicode;

pub use clean::{
    clean_action, clean_chars, clean_text, removal_count, CleanAction, CleanCounts, CleanOptions,
    CleanResult, RemovalKind,
};
pub use cleaner::{count_text, preview_segments, save_dialog_texts, CleanerApp, OutputFormat, PreviewSegment};
pub use docx::{append_docx_text_run, append_text_chunk, build_document_xml, escape_xml};
pub use fmt::{codepoint_label, decimal_string};
pub use i18n::{
    clean_status, gptzero_open_failed_status, save_failed_status, saved_status, tr, Language,
    TextKey,
};
pub use package::{build_docx, DocxError};
pub use unicode::{em_dash_replacement, is_allowed_control, is_variation_selector};
