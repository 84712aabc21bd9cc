//! What holds of every extraction, whatever its driver reports.

use crate::entry_path::{
    depth, enclosed, is_plain, lemma_enclosed_is_plain, lemma_escaping_is_refused, pieces,
};
use crate::error::ExtractErrorView;
use crate::extract::{
    closing_events, extracting_message, reading_message, ExtractActionView,
    ExtractInputView, ExtractModel, ExtractPhase,
};
use crate::progress::{
    lemma_same_total_le, lemma_zero_least_one_greatest, ProgressView, Ratio,
};
use vstd::prelude::*;

verus! {

/// All that an extraction has answered to a sequence of inputs, and where it
/// stands after them.
pub struct ExtractTrace {
    pub end: ExtractModel,
    /// The items delivered to the consumer, in order.
    pub items: Seq<Result<ProgressView, ExtractErrorView>>,
    /// The action that answered each input, in order.
    pub actions: Seq<ExtractActionView>,
}

impl ExtractModel {
    /// The extraction's answers to `inputs`, taken one after the other.
    pub open spec fn run(self, inputs: Seq<ExtractInputView>) -> ExtractTrace
        decreases inputs.len(),
    {
        if inputs.len() == 0 {
            ExtractTrace { end: self, items: Seq::empty(), actions: Seq::empty() }
        } else {
            let before = self.run(inputs.drop_last());
            let (end, step) = before.end.step(inputs.last());
            ExtractTrace {
                end,
                items: before.items + step.items,
                actions: before.actions.push(step.action),
            }
        }
    }
}

/// The action asks to write below the destination, through these names.
pub open spec fn writes_to(action: ExtractActionView, path: Seq<Seq<char>>) -> bool {
    action == ExtractActionView::WriteFile(path) || action == ExtractActionView::CreateDirectory(
        path,
    )
}

/// Whatever an extraction is told, it asks to write only through plain names:
/// no step of the way is `..`, a root or a drive, so what is written lies in the
/// destination.
pub proof fn lemma_writes_stay_inside(m: ExtractModel, input: ExtractInputView)
    ensures
        forall|path: Seq<Seq<char>>| #[trigger]
            writes_to(m.step(input).1.action, path) ==> forall|k: int|
                0 <= k < path.len() ==> is_plain(#[trigger] path[k]),
{
    match (m.phase, input) {
        (ExtractPhase::Reading, ExtractInputView::EntryRead { name, is_dir }) => {
            if name is Some {
                lemma_enclosed_is_plain(name->Some_0);
            }
        },
        _ => {},
    }
}

/// An entry whose stored path, read up to some piece, has gone up more levels
/// than down is skipped: the extraction asks to write nothing, delivers no
/// progress event for it, and goes on to the next entry or ends.
pub proof fn lemma_escaping_entry_is_skipped(
    m: ExtractModel,
    name: Seq<char>,
    is_dir: bool,
    n: int,
)
    requires
        m.phase == ExtractPhase::Reading,
        0 <= n <= pieces(name).len(),
        depth(pieces(name).take(n)) < 0,
    ensures
        ({
            let (after, step) = m.step(ExtractInputView::EntryRead { name: Some(name), is_dir });
            &&& forall|path: Seq<Seq<char>>| !writes_to(step.action, path)
            &&& after.phase != ExtractPhase::Writing
            &&& if m.index + 1 < m.total {
                step.action == ExtractActionView::ReadEntry((m.index + 1) as u64) && step.items.len()
                    == 0
            } else {
                step.action == ExtractActionView::Stop && step.items == closing_events(m.kind)
            }
        }),
{
    lemma_escaping_is_refused(name, n);
}

/// What every trace of an extraction that started idle satisfies.
spec fn trace_inv(t: ExtractTrace) -> bool {
    let n = t.items.len() as int;
    &&& t.end.phase == ExtractPhase::Idle ==> n == 0
    &&& t.end.phase == ExtractPhase::Opening || t.end.phase == ExtractPhase::Preparing ==> n == 1
    &&& t.end.phase == ExtractPhase::Reading || t.end.phase == ExtractPhase::Writing
        ==> t.end.index < t.end.total
    &&& t.end.phase != ExtractPhase::Idle ==> n > 0
    &&& forall|i: int|
        0 <= i < n ==> ((#[trigger] t.items[i]) is Err <==> t.end.phase == ExtractPhase::Failed
            && i == n - 1)
    &&& forall|i: int|
        0 <= i < n && (#[trigger] t.items[i]) is Ok ==> {
            let r = t.items[i]->Ok_0.ratio;
            &&& r.wf()
            &&& r.is_known()
            &&& i == 0 ==> r == (Ratio { num: 0, den: 1 })
            &&& i > 0 && t.end.phase != ExtractPhase::Succeeded ==> r.den == t.end.total && r.num
                <= t.end.index
        }
    &&& forall|i: int, j: int|
        0 <= i <= j < n && (#[trigger] t.items[i]) is Ok && (#[trigger] t.items[j]) is Ok
            ==> t.items[i]->Ok_0.ratio.le(t.items[j]->Ok_0.ratio)
}

proof fn lemma_trace_inv(start: ExtractModel, inputs: Seq<ExtractInputView>)
    requires
        start.is_initial(),
    ensures
        trace_inv(start.run(inputs)),
    decreases inputs.len(),
{
    if inputs.len() > 0 {
        lemma_trace_inv(start, inputs.drop_last());
        let before = start.run(inputs.drop_last());
        let after = start.run(inputs);
        let (end, step) = before.end.step(inputs.last());
        let n = before.items.len() as int;
        assert(after.items == before.items + step.items);
        assert forall|i: int| 0 <= i < n implies #[trigger] after.items[i] == before.items[i] by {}
        assert forall|i: int| 0 <= i < step.items.len() implies #[trigger] after.items[n + i]
            == step.items[i] by {}
        if step.items.len() > 0 {
            assert(before.end.phase != ExtractPhase::Failed);
            assert(before.end.phase != ExtractPhase::Succeeded);
            assert forall|i: int| 0 <= i < n implies (#[trigger] after.items[i]) is Ok by {
                assert(before.items[i] is Ok);
            }
            assert forall|i: int, j: int|
                0 <= i <= j < after.items.len() && (#[trigger] after.items[i]) is Ok && (
                #[trigger] after.items[j]) is Ok implies after.items[i]->Ok_0.ratio.le(
                after.items[j]->Ok_0.ratio,
            ) by {
                let a = after.items[i]->Ok_0.ratio;
                let b = after.items[j]->Ok_0.ratio;
                if j < n {
                    assert(before.items[i] is Ok && before.items[j] is Ok);
                } else if i < n {
                    assert(before.items[i] is Ok);
                    assert(after.items[j] == step.items[j - n]);
                    if i == 0 || b == (Ratio { num: 1, den: 1 }) {
                        lemma_zero_least_one_greatest(a);
                        lemma_zero_least_one_greatest(b);
                    } else {
                        lemma_same_total_le(a, b);
                    }
                } else {
                    assert(after.items[i] == step.items[i - n]);
                    assert(after.items[j] == step.items[j - n]);
                    if i == j {
                        lemma_same_total_le(a, b);
                    } else {
                        lemma_zero_least_one_greatest(a);
                    }
                }
            }
        } else {
            assert(after.items =~= before.items);
        }
    }
}

/// The items of an extraction come in this order: progress events whose ratios
/// are known, never decrease and never exceed 1, and then, if the extraction
/// fails, one error and nothing after it.
pub proof fn lemma_items_in_order(start: ExtractModel, inputs: Seq<ExtractInputView>)
    requires
        start.is_initial(),
    ensures
        ({
            let t = start.run(inputs);
            &&& forall|i: int|
                0 <= i < t.items.len() && (#[trigger] t.items[i]) is Err ==> i == t.items.len() - 1
            &&& t.end.phase == ExtractPhase::Failed <==> t.items.len() > 0 && t.items.last() is Err
            &&& forall|i: int|
                0 <= i < t.items.len() && (#[trigger] t.items[i]) is Ok
                    ==> t.items[i]->Ok_0.ratio.wf() && t.items[i]->Ok_0.ratio.is_known()
            &&& forall|i: int, j: int|
                0 <= i <= j < t.items.len() && (#[trigger] t.items[i]) is Ok && (
                #[trigger] t.items[j]) is Ok ==> t.items[i]->Ok_0.ratio.le(
                    t.items[j]->Ok_0.ratio,
                )
        }),
{
    lemma_trace_inv(start, inputs);
}

/// An entry of an archive, as the decoder reports it.
pub struct StoredEntry {
    /// Its stored path, or `None` if the decoder found no safe reading of it.
    pub name: Option<Seq<char>>,
    pub is_dir: bool,
}

/// What the driver reports while `entries` are read one by one and each one
/// that is to be written is written.
pub open spec fn entry_inputs(entries: Seq<StoredEntry>) -> Seq<ExtractInputView>
    decreases entries.len(),
{
    if entries.len() == 0 {
        Seq::empty()
    } else {
        let entry = entries.last();
        let read = entry_inputs(entries.drop_last()).push(
            ExtractInputView::EntryRead { name: entry.name, is_dir: entry.is_dir },
        );
        if ExtractModel::target(entry.name) is Some {
            read.push(ExtractInputView::EntryWritten)
        } else {
            read
        }
    }
}

/// What the driver reports in an extraction of `entries` in which nothing
/// fails outside: the archive is opened, the destination is there, and the
/// first `k` entries are read and written.
pub open spec fn unpack_inputs(entries: Seq<StoredEntry>, k: int) -> Seq<ExtractInputView> {
    seq![
        ExtractInputView::Begin,
        ExtractInputView::Opened { entries: entries.len() as u64 },
        ExtractInputView::DestinationReady,
    ] + entry_inputs(entries.take(k))
}

/// The progress events of `entries` in an archive of `total` entries: one for
/// each entry that has a place below the destination, with the entry's number
/// as its count.
pub open spec fn entry_events(entries: Seq<StoredEntry>, total: u64) -> Seq<
    Result<ProgressView, ExtractErrorView>,
>
    decreases entries.len(),
{
    if entries.len() == 0 {
        Seq::empty()
    } else {
        let entry = entries.last();
        let before = entry_events(entries.drop_last(), total);
        if ExtractModel::target(entry.name) is Some {
            before.push(
                Ok(
                    ProgressView {
                        ratio: Ratio { num: entries.len() as u64, den: total },
                        message: extracting_message(entry.name->Some_0),
                    },
                ),
            )
        } else {
            before
        }
    }
}

/// The first event of an extraction.
pub open spec fn opening_event() -> Result<ProgressView, ExtractErrorView> {
    Ok(ProgressView { ratio: Ratio { num: 0, den: 1 }, message: reading_message() })
}

/// After the first `k` entries of an archive have been read and written with
/// nothing failing outside, the extraction has delivered the opening event and
/// the progress events of those entries, and awaits the next entry; after the
/// last one it has also delivered the closing events, and has succeeded.
pub proof fn lemma_unpacked(start: ExtractModel, entries: Seq<StoredEntry>, k: int)
    requires
        start.is_initial(),
        entries.len() <= u64::MAX,
        0 <= k <= entries.len(),
    ensures
        ({
            let t = start.run(unpack_inputs(entries, k));
            let total = entries.len() as u64;
            let events = seq![opening_event()] + entry_events(entries.take(k), total);
            if k < entries.len() {
                &&& t.end == ExtractModel {
                    phase: ExtractPhase::Reading,
                    total,
                    index: k as u64,
                    pending: t.end.pending,
                    ..start
                }
                &&& t.items == events
            } else {
                &&& t.end.phase == ExtractPhase::Succeeded
                &&& t.items == events + closing_events(start.kind)
            }
        }),
    decreases k,
{
    let total = entries.len() as u64;
    let head = seq![
        ExtractInputView::Begin,
        ExtractInputView::Opened { entries: total },
        ExtractInputView::DestinationReady,
    ];
    if k == 0 {
        assert(entries.take(0) =~= Seq::<StoredEntry>::empty());
        let i3 = unpack_inputs(entries, 0);
        assert(i3 =~= head);
        let i2 = i3.drop_last();
        let i1 = i2.drop_last();
        let i0 = i1.drop_last();
        assert(i0.len() == 0);
        let t0 = start.run(i0);
        assert(t0.end == start && t0.items.len() == 0);
        let t1 = start.run(i1);
        assert(i1.last() == ExtractInputView::Begin);
        assert(t1.end.phase == ExtractPhase::Opening);
        let t2 = start.run(i2);
        assert(i2.last() == ExtractInputView::Opened { entries: total });
        assert(t2.end.phase == ExtractPhase::Preparing);
        let t3 = start.run(i3);
        assert(i3.last() == ExtractInputView::DestinationReady);
        assert(t1.items =~= seq![opening_event()]);
        assert(t2.items =~= t1.items);
        if 0 < entries.len() {
            assert(t3.items =~= seq![opening_event()] + entry_events(
                entries.take(0),
                total,
            ));
        } else {
            assert(t3.items =~= seq![opening_event()] + entry_events(
                entries.take(0),
                total,
            ) + closing_events(start.kind));
        }
    } else {
        lemma_unpacked(start, entries, k - 1);
        let fewer = entries.take(k - 1);
        let some = entries.take(k);
        let entry = entries[k - 1];
        assert(some.drop_last() =~= fewer);
        assert(some.last() == entry);
        let a = unpack_inputs(entries, k - 1);
        let read = ExtractInputView::EntryRead { name: entry.name, is_dir: entry.is_dir };
        let b = a.push(read);
        let ta = start.run(a);
        let tb = start.run(b);
        assert(b.drop_last() =~= a);
        let before = seq![opening_event()] + entry_events(fewer, total);
        if ExtractModel::target(entry.name) is Some {
            let c = b.push(ExtractInputView::EntryWritten);
            assert(unpack_inputs(entries, k) =~= c);
            assert(c.drop_last() =~= b);
            let tc = start.run(c);
            assert(tb.items =~= ta.items);
            assert(tb.end.phase == ExtractPhase::Writing);
            let event: Result<ProgressView, ExtractErrorView> = Ok(
                ProgressView {
                    ratio: Ratio { num: k as u64, den: total },
                    message: extracting_message(entry.name->Some_0),
                },
            );
            assert(entry_events(some, total) == entry_events(fewer, total).push(event));
            if k < entries.len() {
                assert(tc.items =~= before.push(event));
                assert(tc.items =~= seq![opening_event()] + entry_events(some, total));
            } else {
                assert(tc.items =~= before.push(event) + closing_events(start.kind));
                assert(tc.items =~= seq![opening_event()] + entry_events(some, total)
                    + closing_events(start.kind));
            }
        } else {
            assert(unpack_inputs(entries, k) =~= b);
            assert(entry_events(some, total) == entry_events(fewer, total));
            if k < entries.len() {
                assert(tb.items =~= before);
            } else {
                assert(tb.items =~= before + closing_events(start.kind));
            }
        }
    }
}

/// Where every entry has a place below the destination, there is one progress
/// event for each, and the event of the entry `k`, counted from 0, has the ratio
/// of `k + 1` to the number of entries.
pub proof fn lemma_one_event_for_each_entry(entries: Seq<StoredEntry>, total: u64)
    requires
        entries.len() <= total,
        forall|k: int|
            0 <= k < entries.len() ==> ExtractModel::target((#[trigger] entries[k]).name) is Some,
    ensures
        entry_events(entries, total).len() == entries.len(),
        forall|k: int|
            0 <= k < entries.len() ==> #[trigger] entry_events(entries, total)[k] == Ok::<
                ProgressView,
                ExtractErrorView,
            >(
                ProgressView {
                    ratio: Ratio { num: (k + 1) as u64, den: total },
                    message: extracting_message(entries[k].name->Some_0),
                },
            ),
    decreases entries.len(),
{
    if entries.len() > 0 {
        let fewer = entries.drop_last();
        assert forall|k: int| 0 <= k < fewer.len() implies ExtractModel::target(
            (#[trigger] fewer[k]).name,
        ) is Some by {
            assert(fewer[k] == entries[k]);
        }
        lemma_one_event_for_each_entry(fewer, total);
        assert(ExtractModel::target(entries[entries.len() - 1].name) is Some);
    }
}

/// An archive of `n` entries that all have a place below the destination, and
/// whose extraction meets no failure outside, gives the opening event, then
/// `n` progress events with the ratios 1/n, 2/n, up to n/n, then the two
/// closing events, and succeeds.
pub proof fn lemma_all_entries_reported(start: ExtractModel, entries: Seq<StoredEntry>)
    requires
        start.is_initial(),
        entries.len() <= u64::MAX,
        forall|k: int|
            0 <= k < entries.len() ==> ExtractModel::target((#[trigger] entries[k]).name) is Some,
    ensures
        ({
            let t = start.run(unpack_inputs(entries, entries.len() as int));
            let n = entries.len() as int;
            &&& t.end.phase == ExtractPhase::Succeeded
            &&& t.items.len() == n + 3
            &&& t.items[0] == opening_event()
            &&& forall|k: int|
                0 <= k < n ==> #[trigger] t.items[k + 1] == Ok::<ProgressView, ExtractErrorView>(
                    ProgressView {
                        ratio: Ratio { num: (k + 1) as u64, den: n as u64 },
                        message: extracting_message(entries[k].name->Some_0),
                    },
                )
            &&& t.items.subrange(n + 1, n + 3) == closing_events(start.kind)
        }),
{
    let n = entries.len() as int;
    lemma_unpacked(start, entries, n);
    assert(entries.take(n) =~= entries);
    lemma_one_event_for_each_entry(entries, n as u64);
    let t = start.run(unpack_inputs(entries, n));
    let events = entry_events(entries, n as u64);
    assert forall|k: int| 0 <= k < n implies #[trigger] t.items[k + 1] == events[k] by {}
    assert(t.items.subrange(n + 1, n + 3) =~= closing_events(start.kind));
}

} // verus!
