//! What holds of every call, stated over the model of the bridge.
//!
//! Three laws rest on a premise about what the surroundings hand in, and say
//! so in their `requires`: that equal content hashes stand for equal bytes
//! ([`content_addressed`]), that the engine's result moves the ledger forward
//! ([`advances`]), and that a reported epoch change does not lie below the
//! known version. Where a premise fails, the bridge does what the law beside
//! it says: the later bytes win, or the call fails.

use vstd::prelude::*;
use crate::block::{
    content_addressed, decoded_prefix, decodes, hashes, last_with, lemma_all_decoded,
    lemma_decoded_prefix, lemma_hashes, lemma_recorded, lemma_recorded_keys,
    lemma_recorded_lookup, lemma_recorded_prefix, lemma_recorded_split, lemma_recorded_twice,
    recorded,
};
use crate::call::{
    advances, call_spec, consensus_call_spec, proof_request, sealed, step_spec, ActionView,
    BridgeView, CallContextView, EventView, ExecutionVariant, PhaseView,
};
use crate::error::BridgeError;
use crate::ledger::{ExecutionResultView, LedgerInfoView};
use crate::trust::{ProofOutcomeView, TrustedStateView};

verus! {

/// One thing that happens to a bridge: a call is started, or the
/// surroundings report back.
pub enum Input {
    Call { batch: Seq<Seq<u8>> },
    Report { event: EventView },
}

/// The bridge after one input.
pub open spec fn after(s: BridgeView, input: Input) -> BridgeView {
    match input {
        Input::Call { batch } => call_spec(s, batch).0,
        Input::Report { event } => step_spec(s, event).0,
    }
}

/// The bridge after a sequence of inputs.
pub open spec fn run(s: BridgeView, inputs: Seq<Input>) -> BridgeView
    decreases inputs.len(),
{
    if inputs.len() == 0 {
        s
    } else {
        after(run(s, inputs.drop_last()), inputs.last())
    }
}

/// The bridge after a consensus-driven call was started and what was read
/// for it was reported, and the action that answers the report.
pub open spec fn after_observation(s: BridgeView, batch: Seq<Seq<u8>>, context: CallContextView) -> (
    BridgeView,
    ActionView,
) {
    step_spec(consensus_call_spec(s, batch).0, EventView::Observed(context))
}

/// The bridge after a consensus-driven call was started, what was read for
/// it was reported, the read handle was released and the execution was
/// reported, and the action that answers the last report.
pub open spec fn after_execution(
    s: BridgeView,
    batch: Seq<Seq<u8>>,
    context: CallContextView,
    outcome: Option<ExecutionResultView>,
) -> (BridgeView, ActionView) {
    let assembled = after_observation(s, batch, context).0;
    let released = step_spec(assembled, EventView::ReaderReleased).0;
    step_spec(released, EventView::Executed(outcome))
}

/// The bridge after a call whose block was executed with `result` and
/// committed, and the action that answers the report of the commit.
pub open spec fn after_commit(
    s: BridgeView,
    batch: Seq<Seq<u8>>,
    context: CallContextView,
    result: ExecutionResultView,
) -> (BridgeView, ActionView) {
    step_spec(after_execution(s, batch, context, Some(result)).0, EventView::Committed(true))
}

/// The index only grows: whatever happens to the bridge, a key that was
/// recorded stays recorded. The index changes in one place only, when a batch
/// is assembled.
pub proof fn law_index_is_append_only(s: BridgeView, input: Input, k: Seq<char>)
    ensures
        s.index.dom().contains(k) ==> after(s, input).index.dom().contains(k),
        after(s, input).index != s.index ==> s.phase is Observing && input matches Input::Report {
            event: EventView::Observed(_),
        },
{
    match input {
        Input::Report { event: EventView::Observed(context) } => {
            if let PhaseView::Observing { batch } = s.phase {
                let n = decoded_prefix(context.digests, batch.len() as int);
                lemma_decoded_prefix(context.digests, batch.len() as int);
                lemma_recorded(s.index, batch, context.digests, n);
            }
        },
        _ => {},
    }
}

/// A key that was recorded stays recorded through every sequence of inputs.
pub proof fn law_recorded_keys_stay(s: BridgeView, inputs: Seq<Input>, k: Seq<char>)
    requires
        s.index.dom().contains(k),
    ensures
        run(s, inputs).index.dom().contains(k),
    decreases inputs.len(),
{
    if inputs.len() > 0 {
        law_recorded_keys_stay(s, inputs.drop_last(), k);
        law_index_is_append_only(run(s, inputs.drop_last()), inputs.last(), k);
    }
}

/// When every transaction of a batch decodes, every content hash of the
/// batch is in the index once the batch is assembled, and stays there
/// whatever follows. Under the hash stand the bytes of its transaction,
/// unless a later transaction of the batch shares the hash with other bytes:
/// then the later one's.
pub proof fn law_decoded_batch_is_indexed(
    s: BridgeView,
    batch: Seq<Seq<u8>>,
    context: CallContextView,
    later: Seq<Input>,
    i: int,
)
    requires
        s.phase is Idle,
        forall|j: int| 0 <= j < batch.len() ==> decodes(context.digests, j),
        0 <= i < batch.len(),
    ensures
        after_observation(s, batch, context).1 is ReleaseReader,
        after_observation(s, batch, context).0.index.dom().contains(context.digests[i]->0),
        run(after_observation(s, batch, context).0, later).index.dom().contains(
            context.digests[i]->0,
        ),
        i <= last_with(context.digests, context.digests[i]->0, batch.len() as int) < batch.len(),
        context.digests[last_with(context.digests, context.digests[i]->0, batch.len() as int)]
            == context.digests[i],
        after_observation(s, batch, context).0.index[context.digests[i]->0] == batch[last_with(
            context.digests,
            context.digests[i]->0,
            batch.len() as int,
        )],
        (forall|j: int|
            i < j < batch.len() && context.digests[j] == context.digests[i] ==> batch[j]
                == batch[i]) ==> after_observation(s, batch, context).0.index[context.digests[i]->0]
            == batch[i],
{
    let n = batch.len() as int;
    let k = context.digests[i]->0;
    let assembled = after_observation(s, batch, context).0;
    lemma_all_decoded(context.digests, n);
    lemma_recorded(s.index, batch, context.digests, n);
    assert(decodes(context.digests, i));
    assert(assembled.index.dom().contains(context.digests[i]->0));
    law_recorded_keys_stay(assembled, later, k);
    lemma_recorded_lookup(s.index, batch, context.digests, n, k);
}

/// Transaction `i` of a batch is found in the index under its content hash.
pub open spec fn indexed_at(
    index: Map<Seq<char>, Seq<u8>>,
    batch: Seq<Seq<u8>>,
    digests: Seq<Option<Seq<char>>>,
    i: int,
) -> bool {
    index.dom().contains(digests[i]->0) && index[digests[i]->0] == batch[i]
}

/// Where equal content hashes stand for equal bytes, every transaction of a
/// batch that decodes is found under its own content hash once the batch is
/// assembled.
pub proof fn law_content_addressed_batch_is_indexed(
    s: BridgeView,
    batch: Seq<Seq<u8>>,
    context: CallContextView,
)
    requires
        s.phase is Idle,
        forall|j: int| 0 <= j < batch.len() ==> decodes(context.digests, j),
        content_addressed(batch, context.digests, batch.len() as int),
    ensures
        forall|i: int|
            0 <= i < batch.len() ==> indexed_at(
                after_observation(s, batch, context).0.index,
                batch,
                context.digests,
                i,
            ),
{
    let index = after_observation(s, batch, context).0.index;
    assert forall|i: int| 0 <= i < batch.len() implies indexed_at(
        index,
        batch,
        context.digests,
        i,
    ) by {
        law_decoded_batch_is_indexed(s, batch, context, Seq::empty(), i);
    }
}

/// The keys of the index after a batch is assembled are the keys from before
/// and the content hashes of the batch. Their number grows by the number of
/// content hashes that were no keys before, and a key that is no content hash
/// of the batch keeps its bytes.
pub proof fn law_index_after_assembly(
    s: BridgeView,
    batch: Seq<Seq<u8>>,
    context: CallContextView,
    k: Seq<char>,
)
    requires
        s.phase is Idle,
        forall|j: int| 0 <= j < batch.len() ==> decodes(context.digests, j),
    ensures
        after_observation(s, batch, context).0.index.dom() == s.index.dom().union(
            hashes(context.digests, batch.len() as int),
        ),
        s.index.dom().finite() ==> after_observation(s, batch, context).0.index.dom().finite()
            && after_observation(s, batch, context).0.index.dom().len() == s.index.dom().len()
            + hashes(context.digests, batch.len() as int).difference(s.index.dom()).len(),
        s.index.dom().contains(k) && !hashes(context.digests, batch.len() as int).contains(k)
            ==> after_observation(s, batch, context).0.index[k] == s.index[k],
{
    let n = batch.len() as int;
    lemma_all_decoded(context.digests, n);
    lemma_recorded_keys(s.index, batch, context.digests, n);
    lemma_hashes(context.digests, n, k);
    lemma_recorded_lookup(s.index, batch, context.digests, n, k);
}

/// Recording a transaction a second time under the same content hash leaves
/// the index as it was: the hash has one entry, with the same bytes.
pub proof fn law_one_entry_per_hash(index: Map<Seq<char>, Seq<u8>>, key: Seq<char>, raw: Seq<u8>)
    requires
        index.dom().finite(),
    ensures
        index.insert(key, raw).insert(key, raw) == index.insert(key, raw),
        index.insert(key, raw).insert(key, raw).dom().len() == index.insert(key, raw).dom().len(),
        index.insert(key, raw).dom().len() == index.dom().len() + (if index.dom().contains(key) {
            0int
        } else {
            1int
        }),
{
    assert(index.insert(key, raw).insert(key, raw) =~= index.insert(key, raw));
}

/// A transaction that occurs twice in a batch has one entry. Where equal
/// content hashes stand for equal bytes and the hash was no key before, the
/// entry holds the transaction's bytes and is the one key that the two
/// occurrences add.
pub proof fn law_duplicate_in_batch_has_one_entry(
    s: BridgeView,
    batch: Seq<Seq<u8>>,
    context: CallContextView,
    i: int,
    j: int,
)
    requires
        s.phase is Idle,
        s.index.dom().finite(),
        forall|m: int| 0 <= m < batch.len() ==> decodes(context.digests, m),
        content_addressed(batch, context.digests, batch.len() as int),
        0 <= i < j < batch.len(),
        batch[i] == batch[j],
        context.digests[i] == context.digests[j],
    ensures
        after_observation(s, batch, context).0.index.dom().contains(context.digests[i]->0),
        after_observation(s, batch, context).0.index[context.digests[i]->0] == batch[i],
        after_observation(s, batch, context).0.index.dom().len() == s.index.dom().len() + hashes(
            context.digests,
            batch.len() as int,
        ).difference(s.index.dom()).len(),
        hashes(context.digests, batch.len() as int).len() <= batch.len() - 1,
{
    let n = batch.len() as int;
    law_content_addressed_batch_is_indexed(s, batch, context);
    assert(indexed_at(after_observation(s, batch, context).0.index, batch, context.digests, i));
    law_index_after_assembly(s, batch, context, context.digests[i]->0);
    lemma_fewer_hashes(context.digests, n, i, j);
}

/// A batch in which two transactions share a content hash has fewer content
/// hashes than transactions.
proof fn lemma_fewer_hashes(digests: Seq<Option<Seq<char>>>, n: int, i: int, j: int)
    requires
        forall|m: int| 0 <= m < n ==> decodes(digests, m),
        0 <= i < j < n,
        digests[i] == digests[j],
    ensures
        hashes(digests, n).len() <= n - 1,
    decreases n,
{
    lemma_hashes(digests, n - 1, digests[n - 1]->0);
    assert(decodes(digests, n - 1));
    if j == n - 1 {
        assert(decodes(digests, i));
        assert(hashes(digests, n - 1).contains(digests[i]->0));
        assert(hashes(digests, n) =~= hashes(digests, n - 1));
    } else {
        lemma_fewer_hashes(digests, n - 1, i, j);
    }
}

/// Submitting a batch again, with the same content hashes, leaves the index
/// as the first submission left it: one entry for each content hash.
pub proof fn law_resubmission_is_idempotent(
    s: BridgeView,
    batch: Seq<Seq<u8>>,
    first: CallContextView,
    between: Seq<Input>,
    second: CallContextView,
)
    requires
        s.phase is Idle,
        first.digests == second.digests,
        forall|j: int|
            0 <= j < between.len() ==> !(#[trigger] between[j] matches Input::Report {
                event: EventView::Observed(_),
            }),
        run(after_observation(s, batch, first).0, between).phase is Idle,
    ensures
        after_observation(run(after_observation(s, batch, first).0, between), batch, second).0.index
            == after_observation(s, batch, first).0.index,
{
    let assembled = after_observation(s, batch, first).0;
    lemma_index_stays(assembled, between);
    let n = decoded_prefix(first.digests, batch.len() as int);
    lemma_decoded_prefix(first.digests, batch.len() as int);
    lemma_recorded_twice(s.index, batch, first.digests, n);
}

/// A transaction that was recorded by an earlier call and comes in again
/// keeps its entry: where equal content hashes stand for equal bytes, its
/// hash still holds its bytes, and the hash is no new key.
pub proof fn law_resubmitted_transaction_keeps_its_entry(
    s: BridgeView,
    batch: Seq<Seq<u8>>,
    context: CallContextView,
    i: int,
)
    requires
        s.phase is Idle,
        forall|m: int| 0 <= m < batch.len() ==> decodes(context.digests, m),
        content_addressed(batch, context.digests, batch.len() as int),
        0 <= i < batch.len(),
        s.index.dom().contains(context.digests[i]->0),
        s.index[context.digests[i]->0] == batch[i],
    ensures
        after_observation(s, batch, context).0.index[context.digests[i]->0] == batch[i],
        !hashes(context.digests, batch.len() as int).difference(s.index.dom()).contains(
            context.digests[i]->0,
        ),
{
    law_content_addressed_batch_is_indexed(s, batch, context);
    assert(indexed_at(after_observation(s, batch, context).0.index, batch, context.digests, i));
}

/// Without a batch being assembled, the index stays as it is.
proof fn lemma_index_stays(s: BridgeView, inputs: Seq<Input>)
    requires
        forall|j: int|
            0 <= j < inputs.len() ==> !(#[trigger] inputs[j] matches Input::Report {
                event: EventView::Observed(_),
            }),
    ensures
        run(s, inputs).index == s.index,
    decreases inputs.len(),
{
    if inputs.len() > 0 {
        assert forall|j: int| 0 <= j < inputs.drop_last().len() implies !(
        #[trigger] inputs.drop_last()[j] matches Input::Report {
            event: EventView::Observed(_),
        }) by {
            assert(inputs.drop_last()[j] == inputs[j]);
        }
        lemma_index_stays(s, inputs.drop_last());
        assert(inputs.last() == inputs[inputs.len() - 1]);
        law_index_is_append_only(run(s, inputs.drop_last()), inputs.last(), Seq::empty());
    }
}

/// A batch that holds every transaction twice leaves the index as the batch
/// that holds each once does.
pub proof fn law_repeated_batch_is_indexed_once(
    index: Map<Seq<char>, Seq<u8>>,
    batch: Seq<Seq<u8>>,
    digests: Seq<Option<Seq<char>>>,
)
    requires
        batch.len() == digests.len(),
        forall|i: int| 0 <= i < batch.len() ==> decodes(digests, i),
    ensures
        decoded_prefix(digests + digests, 2 * (batch.len() as int)) == 2 * batch.len(),
        recorded(index, batch + batch, digests + digests, 2 * (batch.len() as int)) == recorded(
            index,
            batch,
            digests,
            batch.len() as int,
        ),
{
    let n = batch.len() as int;
    let bb = batch + batch;
    let dd = digests + digests;
    assert forall|i: int| 0 <= i < 2 * n implies decodes(dd, i) by {
        if i < n {
            assert(decodes(digests, i));
        } else {
            assert(decodes(digests, i - n));
        }
    }
    lemma_all_decoded(dd, 2 * n);
    lemma_recorded_split(index, bb, dd, n, n);
    assert(bb.skip(n) == batch);
    assert(dd.skip(n) == digests);
    lemma_recorded_prefix(index, bb, dd, batch, digests, n);
    lemma_recorded_twice(index, batch, digests, n);
}

/// A block is handed out for execution only in answer to the report that the
/// read handle is released, and it is the block that was assembled.
pub proof fn law_execution_follows_release(s: BridgeView, event: EventView)
    requires
        step_spec(s, event).1 is Execute,
    ensures
        event is ReaderReleased,
        s.phase is Assembled,
        step_spec(s, event).1->Execute_block == s.phase->Assembled_block,
{
}

/// A ledger record that the bridge hands out for commit lies past the
/// version that was observed for the call, in the epoch that follows the
/// observed record, and the bridge waits on that very record. A record is
/// handed out exactly for the results that move the ledger forward; any other
/// answer of the engine fails the call.
pub proof fn law_commit_advances_version(
    s: BridgeView,
    batch: Seq<Seq<u8>>,
    context: CallContextView,
    outcome: Option<ExecutionResultView>,
)
    requires
        s.phase is Idle,
        after_observation(s, batch, context).1 is ReleaseReader,
    ensures
        ({
            let (executed, action) = after_execution(s, batch, context, outcome);
            let moves = outcome is Some && advances(
                context.latest.version(),
                context.latest.next_block_epoch(),
                outcome->0,
            );
            &&& moves <==> action is Commit
            &&& !moves <==> action == ActionView::Failed(BridgeError::EngineExecutionError)
            &&& action is Commit ==> {
                &&& action->Commit_ledger_info == sealed(
                    context.block_id,
                    context.latest.next_block_epoch(),
                    context.timestamp,
                    outcome->0,
                )
                &&& action->Commit_ledger_info.version() > context.latest.version()
                &&& action->Commit_ledger_info.epoch() == context.latest.next_block_epoch()
                &&& action->Commit_ledger_info.commit_info.round == 0
                &&& action->Commit_ledger_info.commit_info.id == context.block_id
                &&& action->Commit_ledger_info.commit_info.timestamp == context.timestamp
                &&& executed.phase == (PhaseView::Committing {
                    ledger_info: action->Commit_ledger_info,
                })
            }
        }),
{
}

/// The epoch of a new record is above that of the observed one only when the
/// observed one closed its epoch. Where the observed record is sound, the
/// epoch never goes down. The new record is sound in any case.
pub proof fn law_epoch_follows_boundaries(
    s: BridgeView,
    batch: Seq<Seq<u8>>,
    context: CallContextView,
    outcome: Option<ExecutionResultView>,
)
    requires
        s.phase is Idle,
        after_execution(s, batch, context, outcome).1 is Commit,
    ensures
        ({
            let record = after_execution(s, batch, context, outcome).1->Commit_ledger_info;
            &&& record.epoch() > context.latest.epoch() ==> context.latest.ends_epoch()
            &&& context.latest.well_formed() ==> record.epoch() >= context.latest.epoch()
            &&& record.well_formed()
        }),
{
}

/// The trusted version never goes down, whatever happens to the bridge.
pub proof fn law_trusted_version_never_decreases(s: BridgeView, inputs: Seq<Input>)
    ensures
        run(s, inputs).trusted.version >= s.trusted.version,
    decreases inputs.len(),
{
    if inputs.len() > 0 {
        law_trusted_version_never_decreases(s, inputs.drop_last());
    }
}

/// The trusted state moves in one place only: when a proof is reported that
/// carries it across an epoch boundary without moving its version backwards.
/// It then takes the waypoint and the version of that proof.
pub proof fn law_trusted_state_moves_on_epoch_change_only(s: BridgeView, input: Input)
    requires
        after(s, input).trusted != s.trusted,
    ensures
        s.phase is Verifying,
        input matches Input::Report {
            event: EventView::ProofVerified(ProofOutcomeView::EpochChange { waypoint, version }),
        } && version >= s.trusted.version && after(s, input).trusted.waypoint == waypoint && after(
            s,
            input,
        ).trusted.version == version,
{
}

/// The waypoint and the known version are asked to be written together, and
/// exactly when an epoch change is taken over: the request carries the
/// waypoint and the version of that change, which are the trusted state from
/// then on. Any other report on a proof asks for no write and leaves the
/// trusted state as it was; an epoch change below the known version fails the
/// call.
pub proof fn law_trusted_state_is_written_whole(s: BridgeView, event: EventView)
    ensures
        step_spec(s, event).1 is PersistTrustedState <==> s.phase is Verifying && (
        event matches EventView::ProofVerified(ProofOutcomeView::EpochChange { waypoint, version })
            && version >= s.trusted.version),
        step_spec(s, event).1 matches ActionView::PersistTrustedState { waypoint, version } ==> {
            &&& event == EventView::ProofVerified(
                ProofOutcomeView::EpochChange { waypoint, version },
            )
            &&& step_spec(s, event).0.trusted == (TrustedStateView { waypoint, version })
            &&& step_spec(s, event).0.phase is Persisting
            &&& step_spec(
                step_spec(s, event).0,
                EventView::TrustedStatePersisted,
            ).1 == ActionView::Completed
        },
        !(step_spec(s, event).1 is PersistTrustedState) ==> step_spec(s, event).0.trusted
            == s.trusted,
        s.phase is Verifying && (event matches EventView::ProofVerified(
            ProofOutcomeView::EpochChange { waypoint, version },
        ) && version < s.trusted.version) ==> step_spec(s, event).1 == ActionView::Failed(
            BridgeError::UnexpectedStateTransition,
        ),
{
}

/// The genesis anchor moves in one place only: when the genesis identifier
/// of a new epoch is reported to a bridge that waits for it. It then is that
/// identifier.
pub proof fn law_anchor_moves_on_derived_genesis_only(s: BridgeView, input: Input)
    requires
        after(s, input).genesis_anchor != s.genesis_anchor,
    ensures
        s.phase is DerivingGenesis,
        input matches Input::Report { event: EventView::GenesisDerived(id) } && after(
            s,
            input,
        ).genesis_anchor == id,
{
}

/// After a commit, the anchor follows the committed record. Where the record
/// closes its epoch, the bridge asks for the genesis identifier derived from
/// that record and makes it the anchor. Where it does not, the bridge goes on
/// to the proof and the anchor is still the old one when the call ends.
pub proof fn law_anchor_follows_epoch_boundary(
    s: BridgeView,
    record: LedgerInfoView,
    id: Seq<u8>,
    outcome: ProofOutcomeView,
)
    requires
        s.phase == (PhaseView::Committing { ledger_info: record }),
    ensures
        ({
            let (committed, action) = step_spec(s, EventView::Committed(true));
            if record.ends_epoch() {
                let (anchored, next) = step_spec(committed, EventView::GenesisDerived(id));
                &&& action == (ActionView::DeriveGenesis { ledger_info: record })
                &&& committed.genesis_anchor == s.genesis_anchor
                &&& anchored.genesis_anchor == id
                &&& next == proof_request(s)
                &&& step_spec(anchored, EventView::ProofVerified(outcome)).0.genesis_anchor == id
            } else {
                &&& action == proof_request(s)
                &&& committed.genesis_anchor == s.genesis_anchor
                &&& step_spec(committed, EventView::ProofVerified(outcome)).0.genesis_anchor
                    == s.genesis_anchor
            }
        }),
{
}

/// A call inside an epoch runs to completion. Every transaction decodes, the
/// engine's result moves the ledger forward and names no next epoch, the
/// commit goes through and the proof changes nothing: then the call is
/// completed, every content hash of the batch is a key, and the genesis
/// anchor and the trusted state are what they were.
pub proof fn law_call_within_an_epoch(
    s: BridgeView,
    batch: Seq<Seq<u8>>,
    context: CallContextView,
    result: ExecutionResultView,
    i: int,
)
    requires
        s.phase is Idle,
        forall|j: int| 0 <= j < batch.len() ==> decodes(context.digests, j),
        advances(context.latest.version(), context.latest.next_block_epoch(), result),
        result.epoch_state is None,
        0 <= i < batch.len(),
    ensures
        ({
            let (committed, request) = after_commit(s, batch, context, result);
            let (ended, last) = step_spec(
                committed,
                EventView::ProofVerified(ProofOutcomeView::NoChange),
            );
            &&& request == proof_request(s)
            &&& last == ActionView::Completed
            &&& ended.phase is Idle
            &&& ended.genesis_anchor == s.genesis_anchor
            &&& ended.trusted == s.trusted
            &&& ended.index == after_observation(s, batch, context).0.index
            &&& ended.index.dom().contains(context.digests[i]->0)
            &&& content_addressed(batch, context.digests, batch.len() as int)
                ==> ended.index[context.digests[i]->0] == batch[i]
        }),
{
    law_decoded_batch_is_indexed(s, batch, context, Seq::empty(), i);
    if content_addressed(batch, context.digests, batch.len() as int) {
        law_content_addressed_batch_is_indexed(s, batch, context);
        assert(indexed_at(after_observation(s, batch, context).0.index, batch, context.digests, i));
    }
}

/// A call across an epoch boundary runs to completion. Every transaction
/// decodes, the engine's result moves the ledger forward and names the next
/// epoch, the commit goes through, and the proof carries the trusted state
/// across the boundary to a version not below the known one: then the genesis
/// identifier is asked for the committed record and becomes the anchor, the
/// proof is asked for with the old waypoint and version, the waypoint and
/// version of the epoch change are written together and are the trusted state,
/// and the call is completed.
pub proof fn law_call_across_an_epoch_boundary(
    s: BridgeView,
    batch: Seq<Seq<u8>>,
    context: CallContextView,
    result: ExecutionResultView,
    id: Seq<u8>,
    waypoint: Seq<char>,
    version: u64,
)
    requires
        s.phase is Idle,
        forall|j: int| 0 <= j < batch.len() ==> decodes(context.digests, j),
        advances(context.latest.version(), context.latest.next_block_epoch(), result),
        result.epoch_state is Some,
        version >= s.trusted.version,
    ensures
        ({
            let record = sealed(
                context.block_id,
                context.latest.next_block_epoch(),
                context.timestamp,
                result,
            );
            let (committed, derive) = after_commit(s, batch, context, result);
            let (anchored, request) = step_spec(committed, EventView::GenesisDerived(id));
            let (ratcheted, persist) = step_spec(
                anchored,
                EventView::ProofVerified(ProofOutcomeView::EpochChange { waypoint, version }),
            );
            let (ended, last) = step_spec(ratcheted, EventView::TrustedStatePersisted);
            &&& record.ends_epoch()
            &&& derive == (ActionView::DeriveGenesis { ledger_info: record })
            &&& request == proof_request(s)
            &&& persist == (ActionView::PersistTrustedState { waypoint, version })
            &&& last == ActionView::Completed
            &&& ended.phase is Idle
            &&& ended.genesis_anchor == id
            &&& ended.trusted == (TrustedStateView { waypoint, version })
            &&& ended.trusted.version >= s.trusted.version
            &&& ended.index == after_observation(s, batch, context).0.index
            &&& consensus_call_spec(ended, batch).0.phase is Observing
        }),
{
    lemma_all_decoded(context.digests, batch.len() as int);
}

/// The block of the next call is built on the anchor as the last call left
/// it.
pub proof fn law_next_block_is_built_on_the_anchor(
    s: BridgeView,
    batch: Seq<Seq<u8>>,
    context: CallContextView,
)
    requires
        s.phase is Idle,
        after_observation(s, batch, context).1 is ReleaseReader,
    ensures
        ({
            let assembled = after_observation(s, batch, context).0;
            let block = step_spec(assembled, EventView::ReaderReleased).1->Execute_block;
            &&& step_spec(assembled, EventView::ReaderReleased).1 is Execute
            &&& block.parent_id == s.genesis_anchor
            &&& block.id == context.block_id
            &&& block.well_formed()
            &&& block.transactions.len() == batch.len() + 2
        }),
{
    crate::block::lemma_assembled_shape(
        context.block_id,
        context.checkpoint_id,
        s.genesis_anchor,
        context.latest.next_block_epoch(),
        context.proposer,
        context.timestamp,
        batch,
    );
}

/// A call that fails leaves the bridge at rest, and what failed decides what
/// was touched: a batch that does not decode touches the index only; an
/// execution or a commit that fails touches nothing; a proof that is turned
/// down leaves the trusted state alone.
pub proof fn law_failures_advance_nothing(s: BridgeView, event: EventView)
    requires
        step_spec(s, event).1 is Failed,
    ensures
        step_spec(s, event).0.phase is Idle,
        step_spec(s, event).0.genesis_anchor == s.genesis_anchor,
        step_spec(s, event).0.trusted == s.trusted,
        step_spec(s, event).0.variant == s.variant,
        !(s.phase is Observing) ==> step_spec(s, event).0.index == s.index,
        step_spec(s, event).1 == ActionView::Failed(BridgeError::DecodeError)
            <==> s.phase is Observing,
        step_spec(s, event).1 == ActionView::Failed(BridgeError::EngineExecutionError)
            <==> s.phase is Executing,
        step_spec(s, event).1 == ActionView::Failed(BridgeError::CommitError)
            <==> s.phase is Committing,
        step_spec(s, event).1 == ActionView::Failed(BridgeError::ProofVerificationError)
            <==> s.phase is Verifying && event == EventView::ProofVerified(
            ProofOutcomeView::Rejected,
        ),
        step_spec(s, event).1 == ActionView::Failed(BridgeError::UnexpectedStateTransition)
            <==> s.phase is Verifying && event != EventView::ProofVerified(
            ProofOutcomeView::Rejected,
        ),
{
}

/// The direct variant changes nothing.
pub proof fn law_direct_variant_is_inert(s: BridgeView, batch: Seq<Seq<u8>>)
    requires
        s.variant == ExecutionVariant::Direct,
    ensures
        call_spec(s, batch).0 == s,
        s.phase is Idle ==> call_spec(s, batch).1 == ActionView::LookUpHandle,
{
}

} // verus!
