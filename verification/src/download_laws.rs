//! What holds of every download, whatever its driver reports.

use crate::digest::sha256;
use crate::download::{
    download_message, hash_verdict, DownloadActionView, DownloadInputView, DownloadModel, Phase,
};
use crate::error::DownloadErrorView;
use crate::hex_text::{
    all_hex_digits, hex_decoding, hex_encoding, hex_value, is_lower_hex,
    lemma_altered_digit_alters_bytes, lemma_encoding_decodes, HexError,
};
use crate::progress::{lemma_same_total_le, ProgressView, Ratio};
use vstd::utf8::encode_utf8;
use vstd::prelude::*;

verus! {

/// All that a download has answered to a sequence of inputs, and where it
/// stands after them.
pub struct DownloadTrace {
    pub end: DownloadModel,
    /// The items delivered to the consumer, in order.
    pub items: Seq<Result<ProgressView, DownloadErrorView>>,
    /// The action that answered each input, in order.
    pub actions: Seq<DownloadActionView>,
}

impl DownloadModel {
    /// The download's answers to `inputs`, taken one after the other.
    pub open spec fn run(self, inputs: Seq<DownloadInputView>) -> DownloadTrace
        decreases inputs.len(),
    {
        if inputs.len() == 0 {
            DownloadTrace { end: self, items: Seq::empty(), actions: Seq::empty() }
        } else {
            let before = self.run(inputs.drop_last());
            let (end, step) = before.end.step(inputs.last());
            DownloadTrace {
                end,
                items: match step.item {
                    Some(item) => before.items.push(item),
                    None => before.items,
                },
                actions: before.actions.push(step.action),
            }
        }
    }
}

/// What every trace of a download that started idle satisfies.
spec fn trace_inv(name: Seq<char>, t: DownloadTrace) -> bool {
    let n = t.items.len() as int;
    &&& t.end.name == name
    &&& t.end.transferred <= t.end.total
    &&& t.end.phase == Phase::Idle ==> n == 0
    &&& t.end.phase == Phase::Idle || t.end.phase == Phase::Requesting ==> t.end.total == 0
    &&& t.end.phase != Phase::Idle ==> n > 0
    &&& t.end.phase == Phase::Requesting ==> n == 1
    &&& forall|i: int|
        0 <= i < n ==> ((#[trigger] t.items[i]) is Err <==> t.end.phase == Phase::Failed && i == n
            - 1)
    &&& forall|i: int|
        0 <= i < n && (#[trigger] t.items[i]) is Ok ==> {
            let event = t.items[i]->Ok_0;
            &&& event.message == download_message(name)
            &&& if i == 0 {
                event.ratio == (Ratio { num: 0, den: 1 })
            } else {
                event.ratio.den == t.end.total && event.ratio.num <= t.end.transferred
            }
        }
    &&& forall|i: int, j: int|
        1 <= i <= j < n && (#[trigger] t.items[i]) is Ok && (#[trigger] t.items[j]) is Ok
            ==> t.items[i]->Ok_0.ratio.num <= t.items[j]->Ok_0.ratio.num
}

proof fn lemma_trace_inv(start: DownloadModel, inputs: Seq<DownloadInputView>)
    requires
        start.is_initial(),
    ensures
        trace_inv(start.name, start.run(inputs)),
        start.run(inputs).actions.len() == inputs.len(),
    decreases inputs.len(),
{
    if inputs.len() > 0 {
        lemma_trace_inv(start, inputs.drop_last());
        let before = start.run(inputs.drop_last());
        let after = start.run(inputs);
        let (end, step) = before.end.step(inputs.last());
        assert(after.end == end);
        let n = before.items.len() as int;
        match step.item {
            Some(item) => {
                assert(after.items == before.items.push(item));
                assert(after.items[n] == item);
                assert forall|i: int| 0 <= i < n implies #[trigger] after.items[i]
                    == before.items[i] by {}
                assert(before.end.phase != Phase::Failed);
                assert forall|i: int| 0 <= i < n implies (#[trigger] after.items[i]) is Ok by {
                    assert(before.items[i] is Ok);
                }
            },
            None => {
                assert(after.items == before.items);
            },
        }
    }
}

/// The items of a download come in this order: progress events, all with the
/// download's message, whose ratios never decrease and never exceed 1, and then,
/// if the download fails, one error and nothing after it.
pub proof fn lemma_items_in_order(start: DownloadModel, inputs: Seq<DownloadInputView>)
    requires
        start.is_initial(),
    ensures
        ({
            let t = start.run(inputs);
            &&& forall|i: int|
                0 <= i < t.items.len() && (#[trigger] t.items[i]) is Err ==> i == t.items.len() - 1
            &&& t.end.phase == Phase::Failed <==> t.items.len() > 0 && t.items.last() is Err
            &&& forall|i: int|
                0 <= i < t.items.len() && (#[trigger] t.items[i]) is Ok
                    ==> t.items[i]->Ok_0.ratio.wf() && t.items[i]->Ok_0.message
                    == download_message(start.name)
            &&& forall|i: int, j: int|
                0 <= i <= j < t.items.len() && (#[trigger] t.items[i]) is Ok && (
                #[trigger] t.items[j]) is Ok ==> t.items[i]->Ok_0.ratio.le(
                    t.items[j]->Ok_0.ratio,
                )
        }),
{
    lemma_trace_inv(start, inputs);
    let t = start.run(inputs);
    assert forall|i: int, j: int|
        0 <= i <= j < t.items.len() && (#[trigger] t.items[i]) is Ok && (
        #[trigger] t.items[j]) is Ok implies t.items[i]->Ok_0.ratio.le(t.items[j]->Ok_0.ratio) by {
        let a = t.items[i]->Ok_0.ratio;
        let b = t.items[j]->Ok_0.ratio;
        if i >= 1 {
            lemma_same_total_le(a, b);
        } else {
            assert(a.num * b.den <= b.num * a.den) by (nonlinear_arith)
                requires
                    a.num == 0,
                    a.den == 1,
            ;
        }
    }
}

/// The chunks of a body, put end to end.
pub open spec fn joined(chunks: Seq<Seq<u8>>) -> Seq<u8>
    decreases chunks.len(),
{
    if chunks.len() == 0 {
        Seq::empty()
    } else {
        joined(chunks.drop_last()) + chunks.last()
    }
}

/// The bytes that a sequence of actions asks to append to the destination
/// file, put end to end: what the file holds once they are carried out.
pub open spec fn written_bytes(actions: Seq<DownloadActionView>) -> Seq<u8>
    decreases actions.len(),
{
    if actions.len() == 0 {
        Seq::empty()
    } else {
        match actions.last() {
            DownloadActionView::WriteChunk(bytes) => written_bytes(actions.drop_last()) + bytes,
            _ => written_bytes(actions.drop_last()),
        }
    }
}

/// What the driver reports while `chunks` arrive and are written one by one.
pub open spec fn chunk_inputs(chunks: Seq<Seq<u8>>) -> Seq<DownloadInputView>
    decreases chunks.len(),
{
    if chunks.len() == 0 {
        Seq::empty()
    } else {
        chunk_inputs(chunks.drop_last()).push(
            DownloadInputView::ChunkReceived(chunks.last()),
        ).push(DownloadInputView::ChunkWritten)
    }
}

/// What the driver reports in a transfer in which nothing fails outside, up to
/// the last chunk: the response declares `content_length`, the file is created,
/// and `chunks` arrive and are written.
pub open spec fn transfer_inputs(content_length: Option<u64>, chunks: Seq<Seq<u8>>) -> Seq<
    DownloadInputView,
> {
    seq![
        DownloadInputView::Begin,
        DownloadInputView::ResponseReceived { content_length },
        DownloadInputView::FileCreated,
    ] + chunk_inputs(chunks)
}

/// Each chunk is short enough to be held in memory.
pub open spec fn chunks_fit(chunks: Seq<Seq<u8>>) -> bool {
    forall|i: int| 0 <= i < chunks.len() ==> (#[trigger] chunks[i]).len() <= usize::MAX
}

/// Once the response has arrived, a download has delivered the zero event and
/// nothing else, is about to create the file, and has asked for no byte to be
/// written.
proof fn lemma_response_received(start: DownloadModel, content_length: Option<u64>)
    requires
        start.is_initial(),
    ensures
        ({
            let t = start.run(
                seq![
                    DownloadInputView::Begin,
                    DownloadInputView::ResponseReceived { content_length },
                ],
            );
            &&& t.end == DownloadModel {
                phase: Phase::Creating,
                total: match content_length {
                    Some(n) => n,
                    None => 0,
                },
                ..start
            }
            &&& t.items == seq![
                Ok::<ProgressView, DownloadErrorView>(start.progress(Ratio { num: 0, den: 1 })),
            ]
            &&& written_bytes(t.actions) == Seq::<u8>::empty()
        }),
{
    let i2 = seq![
        DownloadInputView::Begin,
        DownloadInputView::ResponseReceived { content_length },
    ];
    let i1 = i2.drop_last();
    let i0 = i1.drop_last();
    assert(i0.len() == 0);
    let t0 = start.run(i0);
    let t1 = start.run(i1);
    let t2 = start.run(i2);
    assert(i1.last() == DownloadInputView::Begin);
    assert(t1.end.phase == Phase::Requesting);
    assert(i2.last() == DownloadInputView::ResponseReceived { content_length });
    assert(written_bytes(t0.actions) == Seq::<u8>::empty());
    assert(t1.actions.drop_last() == t0.actions);
    assert(written_bytes(t1.actions) == Seq::<u8>::empty());
    assert(t2.actions.drop_last() == t1.actions);
    assert(t2.items =~= seq![
        Ok::<ProgressView, DownloadErrorView>(start.progress(Ratio { num: 0, den: 1 })),
    ]);
}

/// While the chunks of a body arrive and are written, the download delivers
/// the zero event and then one event for each chunk, whose ratio is that of the
/// bytes written so far to the declared length, held down to 1. The bytes it
/// asks to write are the chunks, in order.
pub proof fn lemma_transfer(
    start: DownloadModel,
    content_length: Option<u64>,
    chunks: Seq<Seq<u8>>,
)
    requires
        start.is_initial(),
        chunks_fit(chunks),
    ensures
        ({
            let t = start.run(transfer_inputs(content_length, chunks));
            let total: u64 = match content_length {
                Some(n) => n,
                None => 0,
            };
            &&& t.end == DownloadModel {
                phase: Phase::Reading,
                total,
                transferred: Ratio::spec_of(joined(chunks).len() as int, total as int).num,
                received: joined(chunks),
                pending: t.end.pending,
                ..start
            }
            &&& t.items.len() == chunks.len() + 1
            &&& t.items[0] == Ok::<ProgressView, DownloadErrorView>(
                start.progress(Ratio { num: 0, den: 1 }),
            )
            &&& forall|k: int|
                1 <= k <= chunks.len() ==> #[trigger] t.items[k] == Ok::<
                    ProgressView,
                    DownloadErrorView,
                >(start.progress(Ratio::spec_of(joined(chunks.take(k)).len() as int, total as int)))
            &&& written_bytes(t.actions) == joined(chunks)
        }),
    decreases chunks.len(),
{
    let total: u64 = match content_length {
        Some(n) => n,
        None => 0,
    };
    let head = seq![
        DownloadInputView::Begin,
        DownloadInputView::ResponseReceived { content_length },
        DownloadInputView::FileCreated,
    ];
    if chunks.len() == 0 {
        let i3 = transfer_inputs(content_length, chunks);
        assert(i3 =~= head);
        lemma_response_received(start, content_length);
        let i2 = i3.drop_last();
        assert(i2 =~= seq![
            DownloadInputView::Begin,
            DownloadInputView::ResponseReceived { content_length },
        ]);
        let t2 = start.run(i2);
        let t3 = start.run(i3);
        assert(i3.last() == DownloadInputView::FileCreated);
        assert(t3.items =~= t2.items);
        assert(t3.actions.drop_last() == t2.actions);
    } else {
        let fewer = chunks.drop_last();
        let last = chunks.last();
        lemma_transfer(start, content_length, fewer);
        let a = transfer_inputs(content_length, fewer);
        let b = a.push(DownloadInputView::ChunkReceived(last));
        let c = b.push(DownloadInputView::ChunkWritten);
        assert(transfer_inputs(content_length, chunks) =~= c);
        assert(c.drop_last() =~= b);
        assert(b.drop_last() =~= a);
        let ta = start.run(a);
        let tb = start.run(b);
        let tc = start.run(c);
        assert(tb.end.phase == Phase::Writing);
        assert(tb.actions.drop_last() == ta.actions);
        assert(written_bytes(tb.actions) == written_bytes(ta.actions) + last);
        assert(tc.actions.drop_last() == tb.actions);
        assert(written_bytes(tc.actions) == written_bytes(tb.actions));
        assert(tb.items == ta.items);
        let n = chunks.len() as int;
        assert(chunks.take(n) =~= chunks);
        assert forall|k: int| 1 <= k <= n implies #[trigger] tc.items[k] == Ok::<
            ProgressView,
            DownloadErrorView,
        >(
            start.progress(Ratio::spec_of(joined(chunks.take(k)).len() as int, total as int)),
        ) by {
            if k < n {
                assert(fewer.take(k) =~= chunks.take(k));
                assert(tc.items[k] == ta.items[k]);
            }
        }
    }
}

/// A transfer in which nothing fails outside ends as the comparison of hashes
/// decides: without an error if no hash was expected or the expected one is the
/// file's, and else with that error as the last item. If the body is at least as
/// long as the response declared, and that is more than nothing, the last
/// progress event has the ratio 1. The file holds the chunks, so where the body
/// has the declared length, the file has it too.
pub proof fn lemma_transfer_ends(
    start: DownloadModel,
    content_length: Option<u64>,
    chunks: Seq<Seq<u8>>,
)
    requires
        start.is_initial(),
        chunks_fit(chunks),
    ensures
        ({
            let before = start.run(transfer_inputs(content_length, chunks));
            let t = start.run(
                transfer_inputs(content_length, chunks).push(DownloadInputView::BodyEnded),
            );
            let verdict = hash_verdict(start.expected_hash, sha256(joined(chunks)));
            &&& written_bytes(t.actions) == joined(chunks)
            &&& t.actions.last() == DownloadActionView::Stop
            &&& match verdict {
                Ok(_) => t.end.phase == Phase::Succeeded && t.items == before.items,
                Err(e) => t.end.phase == Phase::Failed && t.items == before.items.push(Err(e)),
            }
            &&& forall|k: int| 0 <= k <= chunks.len() ==> (#[trigger] t.items[k]) is Ok
            &&& (content_length matches Some(n) && 0 < n <= joined(chunks).len())
                ==> t.items[chunks.len() as int]->Ok_0.ratio.is_one()
            &&& content_length matches Some(n) ==> (joined(chunks).len() == n ==> written_bytes(
                t.actions,
            ).len() == n)
        }),
{
    lemma_transfer(start, content_length, chunks);
    let inputs = transfer_inputs(content_length, chunks).push(DownloadInputView::BodyEnded);
    assert(inputs.drop_last() =~= transfer_inputs(content_length, chunks));
    let before = start.run(transfer_inputs(content_length, chunks));
    let t = start.run(inputs);
    assert(t.actions.drop_last() == before.actions);
    let n = chunks.len() as int;
    assert(chunks.take(n) =~= chunks);
}

/// A download whose expected hash is the hexadecimal text of the digest of the
/// body, and in which nothing fails outside, succeeds.
pub proof fn lemma_correct_hash_succeeds(
    start: DownloadModel,
    content_length: Option<u64>,
    chunks: Seq<Seq<u8>>,
)
    requires
        start.is_initial(),
        chunks_fit(chunks),
        start.expected_hash == Some(hex_encoding(sha256(joined(chunks)))),
    ensures
        ({
            let t = start.run(
                transfer_inputs(content_length, chunks).push(DownloadInputView::BodyEnded),
            );
            &&& t.end.phase == Phase::Succeeded
            &&& forall|i: int| 0 <= i < t.items.len() ==> (#[trigger] t.items[i]) is Ok
        }),
{
    lemma_encoding_decodes(sha256(joined(chunks)));
    lemma_transfer_ends(start, content_length, chunks);
    lemma_transfer(start, content_length, chunks);
}

/// An expected hash that is hexadecimal text for other bytes than the digest
/// makes the comparison fail with `HashMismatch`. The error carries the
/// expected bytes and the digest, each as lower-case hexadecimal text that
/// decodes to them again: two different texts, the first as long as the
/// expected hash, the second twice as long as the digest.
pub proof fn lemma_mismatch_reports_both_hashes(expected: Seq<char>, digest: Seq<u8>)
    requires
        hex_decoding(encode_utf8(expected)) matches Ok(bytes) && bytes != digest,
    ensures
        hash_verdict(Some(expected), digest) matches Err(DownloadErrorView::HashMismatch(e, a)) && {
            &&& e == hex_encoding(hex_decoding(encode_utf8(expected))->Ok_0)
            &&& a == hex_encoding(digest)
            &&& is_lower_hex(e)
            &&& is_lower_hex(a)
            &&& e.len() == encode_utf8(expected).len()
            &&& a.len() == 2 * digest.len()
            &&& hex_decoding(encode_utf8(e)) == hex_decoding(encode_utf8(expected))
            &&& hex_decoding(encode_utf8(a)) == Ok::<Seq<u8>, HexError>(digest)
            &&& e != a
        },
{
    let bytes = hex_decoding(encode_utf8(expected))->Ok_0;
    lemma_encoding_decodes(bytes);
    lemma_encoding_decodes(digest);
}

/// Changing one byte of an expected hash that is right into another digit, one
/// that stands for another number, makes the comparison fail with
/// `HashMismatch`. The two texts that the error carries are lower-case
/// hexadecimal of the same length, twice that of the digest, and the second is
/// that of the digest.
pub proof fn lemma_altered_hash_mismatches(
    expected: Seq<char>,
    altered: Seq<char>,
    at: int,
    digest: Seq<u8>,
)
    requires
        hash_verdict(Some(expected), digest) is Ok,
        encode_utf8(altered).len() == encode_utf8(expected).len(),
        0 <= at < encode_utf8(expected).len(),
        forall|i: int|
            0 <= i < encode_utf8(expected).len() && i != at ==> encode_utf8(altered)[i]
                == encode_utf8(expected)[i],
        hex_value(encode_utf8(altered)[at]) is Some,
        hex_value(encode_utf8(altered)[at]) != hex_value(encode_utf8(expected)[at]),
    ensures
        hash_verdict(Some(altered), digest) matches Err(DownloadErrorView::HashMismatch(e, a)) && {
            &&& is_lower_hex(e)
            &&& is_lower_hex(a)
            &&& e.len() == a.len()
            &&& a.len() == 2 * digest.len()
            &&& a == hex_encoding(digest)
            &&& e != a
        },
{
    let old_text = encode_utf8(expected);
    let new_text = encode_utf8(altered);
    assert(hex_decoding(old_text) is Ok);
    assert(all_hex_digits(old_text));
    assert forall|i: int| 0 <= i < new_text.len() implies (#[trigger] hex_value(
        new_text[i],
    )) is Some by {
        if i != at {
            assert(hex_value(old_text[i]) is Some);
        }
    }
    lemma_altered_digit_alters_bytes(old_text, new_text, at);
    lemma_mismatch_reports_both_hashes(altered, digest);
}

/// A download whose expected hash is a right one with one byte changed into a
/// digit that stands for another number, and in which nothing fails outside,
/// ends with `HashMismatch` as its last item, after the progress events. Its two
/// texts are different lower-case hexadecimal texts of the same length: 64
/// characters each, a SHA-256 digest having 32 bytes.
pub proof fn lemma_altered_hash_fails(
    start: DownloadModel,
    content_length: Option<u64>,
    chunks: Seq<Seq<u8>>,
    expected: Seq<char>,
    at: int,
)
    requires
        start.is_initial(),
        chunks_fit(chunks),
        hash_verdict(Some(expected), sha256(joined(chunks))) is Ok,
        start.expected_hash matches Some(altered) && {
            &&& encode_utf8(altered).len() == encode_utf8(expected).len()
            &&& 0 <= at < encode_utf8(expected).len()
            &&& forall|i: int|
                0 <= i < encode_utf8(expected).len() && i != at ==> encode_utf8(altered)[i]
                    == encode_utf8(expected)[i]
            &&& hex_value(encode_utf8(altered)[at]) is Some
            &&& hex_value(encode_utf8(altered)[at]) != hex_value(encode_utf8(expected)[at])
        },
    ensures
        ({
            let t = start.run(
                transfer_inputs(content_length, chunks).push(DownloadInputView::BodyEnded),
            );
            &&& t.end.phase == Phase::Failed
            &&& t.items.len() == chunks.len() + 2
            &&& t.items.last() matches Err(DownloadErrorView::HashMismatch(e, a)) && {
                &&& is_lower_hex(e)
                &&& is_lower_hex(a)
                &&& e.len() == a.len()
                &&& a == hex_encoding(sha256(joined(chunks)))
                &&& e != a
                &&& sha256(joined(chunks)).len() == 32 ==> a.len() == 64
            }
        }),
{
    lemma_altered_hash_mismatches(expected, start.expected_hash->Some_0, at, sha256(joined(chunks)));
    lemma_transfer_ends(start, content_length, chunks);
    lemma_transfer(start, content_length, chunks);
}

/// If the destination file cannot be created, the download ends with that
/// `IoError` right after the zero event, and asks for no byte to be written,
/// whatever is reported to it afterwards.
pub proof fn lemma_refused_file_ends_download(
    start: DownloadModel,
    content_length: Option<u64>,
    cause: Seq<char>,
    later: Seq<DownloadInputView>,
)
    requires
        start.is_initial(),
    ensures
        ({
            let t = start.run(
                seq![
                    DownloadInputView::Begin,
                    DownloadInputView::ResponseReceived { content_length },
                    DownloadInputView::IoFailed(cause),
                ] + later,
            );
            &&& t.end.phase == Phase::Failed
            &&& t.items == seq![
                Ok::<ProgressView, DownloadErrorView>(start.progress(Ratio { num: 0, den: 1 })),
                Err::<ProgressView, DownloadErrorView>(DownloadErrorView::IoError(cause)),
            ]
            &&& written_bytes(t.actions) == Seq::<u8>::empty()
        }),
    decreases later.len(),
{
    let head = seq![
        DownloadInputView::Begin,
        DownloadInputView::ResponseReceived { content_length },
        DownloadInputView::IoFailed(cause),
    ];
    let inputs = head + later;
    let t = start.run(inputs);
    if later.len() == 0 {
        assert(inputs =~= head);
        lemma_response_received(start, content_length);
        let i2 = inputs.drop_last();
        assert(i2 =~= seq![
            DownloadInputView::Begin,
            DownloadInputView::ResponseReceived { content_length },
        ]);
        let t2 = start.run(i2);
        assert(inputs.last() == DownloadInputView::IoFailed(cause));
        assert(t.actions.drop_last() == t2.actions);
        assert(t.items =~= seq![
            Ok::<ProgressView, DownloadErrorView>(start.progress(Ratio { num: 0, den: 1 })),
            Err::<ProgressView, DownloadErrorView>(DownloadErrorView::IoError(cause)),
        ]);
    } else {
        lemma_refused_file_ends_download(start, content_length, cause, later.drop_last());
        assert(inputs.drop_last() =~= head + later.drop_last());
        let before = start.run(inputs.drop_last());
        assert(t.actions.drop_last() == before.actions);
    }
}

} // verus!
