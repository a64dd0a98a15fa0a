use crate::error::SplitError;
use crate::orchestrate::{command_of, plan_of, verdict_of, TaskOutcome};
use crate::paths::{extension_of, output_path_of};
use crate::record::{csv_rows_of, descriptors_of, is_first_incomplete, parsed_rows, SplitView};
use vstd::prelude::*;

verus! {

/// Every complete row yields exactly one descriptor.
proof fn lemma_complete_rows_parse(rows: Seq<(Seq<Seq<char>>, Option<u64>)>, infos: Seq<SplitView>)
    requires
        parsed_rows(rows) == Ok::<Seq<SplitView>, SplitError>(infos),
    ensures
        infos == descriptors_of(rows),
{
    if exists|i: int| is_first_incomplete(rows, i) {
        let i = choose|i: int| is_first_incomplete(rows, i);
        assert(parsed_rows(rows) is Err);
    }
}

/// For a well-formed input (the reader meets no error and every row is
/// complete) whose tasks can all be planned, one task is launched per data
/// row.
pub proof fn lemma_one_task_per_row(data: Seq<u8>, infos: Seq<SplitView>, video: Seq<char>)
    requires
        !csv_rows_of(data).1,
        parsed_rows(csv_rows_of(data).0) == Ok::<Seq<SplitView>, SplitError>(infos),
        plan_of(infos, video) is Ok,
    ensures
        plan_of(infos, video)->Ok_0.len() == csv_rows_of(data).0.len(),
{
    lemma_complete_rows_parse(csv_rows_of(data).0, infos);
}

/// The sequence numbers of the descriptors are the 1-based positions of
/// their rows among the data rows, in input order.
pub proof fn lemma_sequence_numbers(rows: Seq<(Seq<Seq<char>>, Option<u64>)>, infos: Seq<SplitView>)
    requires
        rows.len() <= usize::MAX,
        parsed_rows(rows) == Ok::<Seq<SplitView>, SplitError>(infos),
    ensures
        infos.len() == rows.len(),
        forall|i: int| 0 <= i < infos.len() ==> #[trigger] infos[i].number == i + 1,
{
    lemma_complete_rows_parse(rows, infos);
    assert forall|i: int| 0 <= i < infos.len() implies #[trigger] infos[i].number == i + 1 by {
        assert(i + 1 <= u64::MAX);
    }
}

/// An input without data rows parses to no descriptors, plans no task, and
/// succeeds.
pub proof fn lemma_empty_input_succeeds(video: Seq<char>)
    ensures
        parsed_rows(Seq::empty()) == Ok::<Seq<SplitView>, SplitError>(Seq::empty()),
        plan_of(Seq::empty(), video) == Ok::<Seq<Seq<Seq<char>>>, SplitError>(Seq::empty()),
        verdict_of(Seq::empty()) == Ok::<(), SplitError>(()),
{
    assert(descriptors_of(Seq::empty()) =~= Seq::empty());
    assert(Seq::new(0, |i: int| command_of(Seq::<SplitView>::empty()[i], video)->Some_0) =~= Seq::<Seq<Seq<char>>>::empty());
}

/// The run succeeds exactly when every task's transcoder ran and exited
/// successfully.
pub proof fn lemma_success_iff_all_exit_zero(outcomes: Seq<TaskOutcome>)
    ensures
        verdict_of(outcomes) is Ok <==> forall|i: int| 0 <= i < outcomes.len() ==> outcomes[i] == (TaskOutcome::Exited { success: true }),
{
    if forall|i: int| 0 <= i < outcomes.len() ==> outcomes[i] == (TaskOutcome::Exited { success: true }) {
        assert(!exists|i: int| 0 <= i < outcomes.len() && outcomes[i] == TaskOutcome::LaunchFailed);
        assert(!exists|i: int| 0 <= i < outcomes.len() && outcomes[i] == (TaskOutcome::Exited { success: false }));
    } else {
        let i = choose|i: int| 0 <= i < outcomes.len() && outcomes[i] != (TaskOutcome::Exited { success: true });
        match outcomes[i] {
            TaskOutcome::LaunchFailed => {},
            TaskOutcome::Exited { success } => {
                assert(!success);
            },
        }
    }
}

/// A reference video without an extension plans no task for a non-empty
/// input: the run fails with `BadFilename`.
pub proof fn lemma_no_extension_no_tasks(infos: Seq<SplitView>, video: Seq<char>)
    requires
        infos.len() > 0,
        extension_of(video) is None,
    ensures
        plan_of(infos, video) == Err::<Seq<Seq<Seq<char>>>, SplitError>(SplitError::BadFilename),
{
    assert(output_path_of(video, infos[0].number) is None);
    assert(command_of(infos[0], video) is None);
}

} // verus!
