use vstd::prelude::*;
use crate::converter::{outputs_of, successes, ConversionJob, OfficeConverter};
use crate::document::{convertible_of, retained_of};

verus! {

/// The list handed to the merge engine for the documents `docs`, when the
/// conversions wrote `outputs` and `succeeded` tells which of them worked.
pub open spec fn merge_input(
    docs: Seq<Seq<char>>,
    outputs: Seq<Seq<char>>,
    succeeded: Seq<bool>,
) -> Seq<Seq<char>> {
    retained_of(docs) + successes(outputs, succeeded)
}

proof fn lemma_successes_all(outputs: Seq<Seq<char>>, succeeded: Seq<bool>)
    requires
        succeeded.len() == outputs.len(),
        forall|i: int| 0 <= i < succeeded.len() ==> #[trigger] succeeded[i],
    ensures
        successes(outputs, succeeded) == outputs,
    decreases outputs.len(),
{
    if outputs.len() > 0 {
        let sub = succeeded.subrange(0, outputs.len() - 1);
        assert forall|i: int| 0 <= i < sub.len() implies #[trigger] sub[i] by {
            assert(sub[i] == succeeded[i]);
        }
        lemma_successes_all(outputs.drop_last(), sub);
        assert(outputs.drop_last().push(outputs.last()) =~= outputs);
    }
}

proof fn lemma_successes_one_failure(outputs: Seq<Seq<char>>, succeeded: Seq<bool>, k: int)
    requires
        succeeded.len() == outputs.len(),
        0 <= k < outputs.len(),
        !succeeded[k],
        forall|i: int| 0 <= i < succeeded.len() && i != k ==> #[trigger] succeeded[i],
    ensures
        successes(outputs, succeeded) == outputs.remove(k),
    decreases outputs.len(),
{
    let n = outputs.len() - 1;
    let sub = succeeded.subrange(0, n);
    if k == n {
        assert forall|i: int| 0 <= i < sub.len() implies #[trigger] sub[i] by {
            assert(sub[i] == succeeded[i]);
        }
        lemma_successes_all(outputs.drop_last(), sub);
        assert(outputs.drop_last() =~= outputs.remove(k));
    } else {
        assert forall|i: int| 0 <= i < sub.len() && i != k implies #[trigger] sub[i] by {
            assert(sub[i] == succeeded[i]);
        }
        lemma_successes_one_failure(outputs.drop_last(), sub, k);
        assert(outputs.drop_last().remove(k).push(outputs.last()) =~= outputs.remove(k));
    }
}

/// When every conversion succeeds, the merge list is exactly the documents
/// already in final format, in the order given, followed by every
/// converted document, in submission order.
pub proof fn lemma_merge_order_all_succeed(
    docs: Seq<Seq<char>>,
    outputs: Seq<Seq<char>>,
    succeeded: Seq<bool>,
)
    requires
        outputs.len() == convertible_of(docs).len(),
        succeeded.len() == outputs.len(),
        forall|i: int| 0 <= i < succeeded.len() ==> #[trigger] succeeded[i],
    ensures
        merge_input(docs, outputs, succeeded) == retained_of(docs) + outputs,
        merge_input(docs, outputs, succeeded).len() == retained_of(docs).len() + convertible_of(
            docs,
        ).len(),
{
    lemma_successes_all(outputs, succeeded);
}

/// When conversion `k` (counted from 1 in submission order) fails and all
/// others succeed, the merge list has one document fewer than the documents
/// given, and is the full list of the all-success case without the `k`-th
/// converted document, the rest in the same order.
pub proof fn lemma_merge_order_one_failure(
    docs: Seq<Seq<char>>,
    outputs: Seq<Seq<char>>,
    succeeded: Seq<bool>,
    k: int,
)
    requires
        outputs.len() == convertible_of(docs).len(),
        succeeded.len() == outputs.len(),
        1 <= k <= outputs.len(),
        !succeeded[k - 1],
        forall|i: int| 0 <= i < succeeded.len() && i != k - 1 ==> #[trigger] succeeded[i],
    ensures
        merge_input(docs, outputs, succeeded) == retained_of(docs) + outputs.remove(k - 1),
        merge_input(docs, outputs, succeeded).len() == retained_of(docs).len() + convertible_of(
            docs,
        ).len() - 1,
{
    lemma_successes_one_failure(outputs, succeeded, k - 1);
}

/// Scratch paths never repeat: the paths of one batch are pairwise distinct,
/// and differ from every path handed out by earlier batches of the same
/// converter. The premises are what `plan_conversions` ensures.
pub proof fn lemma_scratch_paths_distinct(
    before: OfficeConverter,
    after: OfficeConverter,
    jobs: Seq<ConversionJob>,
)
    requires
        after.wf(),
        after.issued() == before.issued() + outputs_of(jobs),
    ensures
        outputs_of(jobs).no_duplicates(),
        forall|i: int, j: int|
            0 <= i < j < jobs.len() ==> jobs[i].output_path@ != jobs[j].output_path@,
        forall|i: int|
            0 <= i < jobs.len() ==> !before.issued().contains(#[trigger] jobs[i].output_path@),
{
    let b = before.issued();
    let outs = outputs_of(jobs);
    assert forall|i: int, j: int| 0 <= i < j < jobs.len() implies jobs[i].output_path@
        != jobs[j].output_path@ by {
        assert(after.issued()[b.len() + i] == outs[i]);
        assert(after.issued()[b.len() + j] == outs[j]);
    }
    assert forall|i: int| 0 <= i < jobs.len() implies !b.contains(
        #[trigger] jobs[i].output_path@,
    ) by {
        assert(after.issued()[b.len() + i] == outs[i]);
        if b.contains(jobs[i].output_path@) {
            let m = choose|m: int| 0 <= m < b.len() && b[m] == jobs[i].output_path@;
            assert(after.issued()[m] == b[m]);
        }
    }
}

} // verus!
