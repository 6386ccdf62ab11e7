//! Running SQL against a warehouse through interchangeable client backends,
//! benchmarking them, and rendering typed columnar results as text tables.
mod text;
mod value;

pub use text::{decimal_text, scaled_decimal_text, text_contains, trim_whitespace};
pub use value::{format_value, Value};
mod table;

pub use table::{lemma_long_batch_truncated, lemma_width_covers, column_widths, render_table, ColumnBatch, ResultTable, DISPLAY_CAP, MIN_WIDTH};
mod backend;

pub use backend::{lemma_mismatch_names_alternative, Backend, ClientError, KeyProblem, MissingField, ResultShape};
mod profile;

pub use profile::{ApiAuth, ApiSettings, NativeSettings, Profile, RowAuth, RowSettings};
mod bench;

pub use bench::{
    aggregate, columnar_row_count, count_rows, json_record_count, lemma_average_within_extrema,
    BenchmarkResult, BenchmarkRun, IterationSample, Progress, QueryOutcome, RunStep,
};
mod session;

pub use session::{classify_line, LineAction};
