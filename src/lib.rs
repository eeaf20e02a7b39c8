//! Vocabulary drilling for the HSK exam: loading word lists, selecting words
//! by level, rendering questions and listings, and driving a quiz one step at
//! a time.

pub mod commands;
pub mod load;
pub mod options;
pub mod presenter;
pub mod render;
pub mod selection;
pub mod text;
pub mod word;

pub use commands::{Cli, Commands, Session};
pub use load::{load_words, parse_records, LoadError, RowFault};
pub use options::{OptionsError, RenderOptions};
pub use presenter::{Action, Pacing, Presenter};
pub use render::{list_hsk_words, listing_line_string, render_question_string};
pub use selection::{filter_by_levels, shuffle_words};
pub use word::HskWord;
