//! Splitting a media file into segments: the row parser that turns a table
//! of timecodes into split descriptors, the naming of each segment, the
//! arguments handed to the transcoder, and the verdict over all tasks.

mod error;
mod laws;
mod naming;
mod orchestrate;
mod paths;
mod record;

pub use error::{RecordField, SplitError};
pub use naming::{decimal, digit_char, split_file_name, split_name, zero_padded};
pub use record::{descriptors_of, is_first_incomplete, missing, parse_records, parse_si, parse_si_error, parsed_row, parsed_rows, read_outcome_ok, read_split_info, csv_rows_of, RawRecord, SplitInfo, SplitView};
pub use paths::{extension_of, file_stem_of, inferred_video_of, output_path, output_path_of, text_of, video_path, video_path_of, with_file_name_of};
pub use orchestrate::{command_of, conclude, observe, plan_of, plan_splits, split_command, transcode_args, transcode_args_of, verdict, verdict_of, Progress, TaskOutcome, Tally, TRANSCODER};
pub use laws::{lemma_empty_input_succeeds, lemma_no_extension_no_tasks, lemma_one_task_per_row, lemma_sequence_numbers, lemma_success_iff_all_exit_zero};
