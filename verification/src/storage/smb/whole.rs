//! What the writing of parts and the finalization of an upload leave on the
//! share.
//!
//! The share is a map from paths to files; a file that is not there counts as
//! empty. While an upload is finalized, the writing of its parts may still go on
//! in the background, so the partial file may change at any time, but only by
//! bytes that belong where they are written.
use crate::storage::disk::concatenated;
use crate::storage::smb::finalize::{
    every_answer_brings_the_end_nearer, expects, first_missing, in_order, known, leading,
    resume_part, resuming_stays_within_the_file, run_after, FinalizeEvent, FixedView, Phase,
    RunView,
};
use crate::storage::smb::writer::{next_range, overwritten, parts_have_their_place};
use vstd::prelude::*;

verus! {

/// The length of the first `n` parts.
pub open spec fn front_length(contents: Seq<Seq<u8>>, n: int) -> int {
    concatenated(contents.take(n)).len() as int
}

/// All parts but the last are one chunk long.
pub open spec fn in_chunks(contents: Seq<Seq<u8>>, chunk_size: int) -> bool {
    forall|i: int| 0 <= i < contents.len() - 1 ==> (#[trigger] contents[i]).len() == chunk_size
}

/// The bytes of part `i` stand in the file where they belong.
pub open spec fn in_place(file: Seq<u8>, contents: Seq<Seq<u8>>, i: int) -> bool {
    forall|j: int|
        0 <= j < contents[i].len() ==> front_length(contents, i) + j < file.len()
            && file[front_length(contents, i) + j] == #[trigger] contents[i][j]
}

/// The first `n` bytes of the file are those of the whole.
pub open spec fn right_up_to(file: Seq<u8>, whole: Seq<u8>, n: int) -> bool {
    n <= file.len() && forall|p: int| 0 <= p < n ==> file[p] == #[trigger] whole[p]
}

/// The file has changed by right bytes alone, and is not larger than the whole.
pub open spec fn only_right_bytes(before: Seq<u8>, end: Seq<u8>, whole: Seq<u8>) -> bool {
    &&& before.len() <= end.len() <= whole.len()
    &&& forall|p: int|
        0 <= p < before.len() ==> end[p] == before[p] || end[p] == #[trigger] whole[p]
}

// ---------------------------------------------------------------------------
// Places
// ---------------------------------------------------------------------------
/// In a file that is divided into chunks, a part begins that many chunks into it.
pub proof fn parts_begin_at_chunks(contents: Seq<Seq<u8>>, chunk_size: int, i: int)
    requires
        in_chunks(contents, chunk_size),
        0 <= i < contents.len(),
    ensures
        front_length(contents, i) == i * chunk_size,
    decreases i,
{
    if i == 0 {
        assert(contents.take(0) =~= Seq::empty());
        assert(0 * chunk_size == 0) by (nonlinear_arith);
    } else {
        parts_begin_at_chunks(contents, chunk_size, i - 1);
        parts_have_their_place(contents, i - 1);
        assert(contents[i - 1].len() == chunk_size);
        assert((i - 1) * chunk_size + chunk_size == i * chunk_size) by (nonlinear_arith);
    }
}

proof fn lemma_front_grows(contents: Seq<Seq<u8>>, a: int, b: int)
    requires
        0 <= a <= b <= contents.len(),
    ensures
        0 <= front_length(contents, a) <= front_length(contents, b) <= concatenated(
            contents,
        ).len(),
        front_length(contents, contents.len() as int) == concatenated(contents).len(),
    decreases b - a,
{
    assert(contents.take(contents.len() as int) =~= contents);
    if a < b {
        lemma_front_grows(contents, a, b - 1);
        parts_have_their_place(contents, b - 1);
    } else if b < contents.len() {
        parts_have_their_place(contents, b);
    }
}

proof fn lemma_byte_in_place(file: Seq<u8>, contents: Seq<Seq<u8>>, i: int, j: int)
    requires
        in_place(file, contents, i),
        0 <= j < contents[i].len(),
    ensures
        front_length(contents, i) + j < file.len(),
        file[front_length(contents, i) + j] == contents[i][j],
{
}

/// The file with some of the parts written to it, each at its place, in any
/// order.
pub open spec fn after_syncs(
    contents: Seq<Seq<u8>>,
    chunk_size: int,
    order: Seq<int>,
) -> Seq<u8>
    decreases order.len(),
{
    if order.len() == 0 {
        Seq::empty()
    } else {
        overwritten(
            after_syncs(contents, chunk_size, order.drop_last()),
            contents[order.last()],
            order.last() * chunk_size,
        )
    }
}

/// Whichever parts were written to the file, and in whatever order: each of them
/// stands where it belongs, and the file is not larger than the whole.
pub proof fn syncs_leave_their_parts(contents: Seq<Seq<u8>>, chunk_size: int, order: Seq<int>)
    requires
        in_chunks(contents, chunk_size),
        forall|k: int| 0 <= k < order.len() ==> 0 <= #[trigger] order[k] < contents.len(),
    ensures
        ({
            let file = after_syncs(contents, chunk_size, order);
            &&& file.len() <= concatenated(contents).len()
            &&& forall|i: int| #[trigger] order.contains(i) ==> in_place(file, contents, i)
        }),
    decreases order.len(),
{
    if order.len() > 0 {
        let front = order.drop_last();
        assert forall|k: int| 0 <= k < front.len() implies 0 <= #[trigger] front[k]
            < contents.len() by {
            assert(front[k] == order[k]);
        }
        syncs_leave_their_parts(contents, chunk_size, front);
        let whole = concatenated(contents);
        let before = after_syncs(contents, chunk_size, front);
        let file = after_syncs(contents, chunk_size, order);
        let n = order.last();
        assert(order[order.len() - 1] == n);
        parts_begin_at_chunks(contents, chunk_size, n);
        parts_have_their_place(contents, n);
        let at = n * chunk_size;
        assert forall|i: int| #[trigger] order.contains(i) implies in_place(
            file,
            contents,
            i,
        ) by {
            let k = order.index_of(i);
            assert(order[k] == i);
            parts_have_their_place(contents, i);
            let begin = front_length(contents, i);
            if i == n {
                assert forall|j: int| 0 <= j < contents[i].len() implies begin + j < file.len()
                    && file[begin + j] == #[trigger] contents[i][j] by {
                    assert(file[at + j] == contents[n][j]);
                }
            } else {
                assert(front[k] == i);
                assert(front.contains(i));
                assert(in_place(before, contents, i));
                assert forall|j: int| 0 <= j < contents[i].len() implies begin + j < file.len()
                    && file[begin + j] == #[trigger] contents[i][j] by {
                    let p = begin + j;
                    lemma_byte_in_place(before, contents, i, j);
                    assert(p < file.len());
                    if at <= p < at + contents[n].len() {
                        let q = p - at;
                        assert(file[p] == contents[n][q]);
                        assert(whole[front_length(contents, n) + q] == contents[n][q]);
                        assert(whole[begin + j] == contents[i][j]);
                    } else {
                        assert(file[p] == before[p]);
                    }
                }
            }
        }
    }
}

proof fn lemma_leading(flags: Seq<bool>, i: int)
    requires
        0 <= i < leading(flags),
    ensures
        i < flags.len(),
        flags[i],
    decreases flags.len(),
{
    if i > 0 {
        lemma_leading(flags.skip(1), i - 1);
    }
}

/// The parts of which `synced` says so stand in the file where they belong.
pub open spec fn holds_synced(file: Seq<u8>, contents: Seq<Seq<u8>>, synced: Seq<bool>) -> bool {
    forall|i: int|
        0 <= i < contents.len() && i < synced.len() && synced[i] ==> #[trigger] in_place(
            file,
            contents,
            i,
        )
}

proof fn lemma_known_front(
    file: Seq<u8>,
    contents: Seq<Seq<u8>>,
    synced: Seq<bool>,
    n: int,
)
    requires
        holds_synced(file, contents, synced),
        0 <= n <= known(synced, contents.len() as int),
    ensures
        right_up_to(file, concatenated(contents), front_length(contents, n)),
    decreases n,
{
    let whole = concatenated(contents);
    if n == 0 {
        assert(contents.take(0) =~= Seq::empty());
    } else {
        let i = n - 1;
        lemma_known_front(file, contents, synced, i);
        lemma_leading(synced, i);
        parts_have_their_place(contents, i);
        let begin = front_length(contents, i);
        assert(in_place(file, contents, i));
        if contents[i].len() > 0 {
            assert(contents[i][contents[i].len() - 1] == contents[i].last());
        }
        assert forall|p: int| 0 <= p < front_length(contents, n) implies file[p]
            == #[trigger] whole[p] by {
            if p >= begin {
                assert(file[begin + (p - begin)] == contents[i][p - begin]);
            }
        }
    }
}

proof fn lemma_right_stays(before: Seq<u8>, end: Seq<u8>, whole: Seq<u8>, n: int)
    requires
        right_up_to(before, whole, n),
        only_right_bytes(before, end, whole),
    ensures
        right_up_to(end, whole, n),
{
    assert forall|p: int| 0 <= p < n implies end[p] == #[trigger] whole[p] by {
        assert(before[p] == whole[p]);
    }
}

// ---------------------------------------------------------------------------
// A whole finalization
// ---------------------------------------------------------------------------
/// The partial file.
pub open spec fn partial_file(fixed: FixedView, share: Map<Seq<char>, Seq<u8>>) -> Seq<u8> {
    if share.contains_key(fixed.partial_path) {
        share[fixed.partial_path]
    } else {
        Seq::empty()
    }
}

/// The finished file is there and is the whole, and the partial file is gone.
pub open spec fn finished_whole(
    fixed: FixedView,
    share: Map<Seq<char>, Seq<u8>>,
    contents: Seq<Seq<u8>>,
) -> bool {
    &&& share.contains_key(fixed.final_path)
    &&& share[fixed.final_path] == concatenated(contents)
    &&& !share.contains_key(fixed.partial_path)
}

/// The event says the truth about what happened between one state of the share
/// and the next. A size is that of the file, a length that of the part, and the
/// bytes that are said to be written are there. A rename moves the file. Where a
/// rename is not known to have succeeded, anything may have happened.
pub open spec fn truthful(
    run: RunView,
    event: FinalizeEvent,
    before: Map<Seq<char>, Seq<u8>>,
    end: Map<Seq<char>, Seq<u8>>,
    contents: Seq<Seq<u8>>,
) -> bool {
    let fixed = run.fixed;
    let file = partial_file(fixed, before);
    let later = partial_file(fixed, end);
    match run.phase {
        Phase::Renaming => event is Renamed ==> before.contains_key(fixed.partial_path) && end
            == before.remove(fixed.partial_path).insert(
            fixed.final_path,
            before[fixed.partial_path],
        ),
        Phase::CleaningUp => end == before,
        _ => only_right_bytes(file, later, concatenated(contents)) && match event {
            FinalizeEvent::Measured(size) => size == file.len(),
            FinalizeEvent::PartRead(length) => length == contents[run.part as int].len(),
            FinalizeEvent::Wrote(n) => {
                let range = next_range(run.offset, run.length, run.written);
                &&& n <= range.to - range.from
                &&& range.offset + n <= later.len()
                &&& forall|j: int|
                    0 <= j < n ==> later[range.offset + j]
                        == #[trigger] contents[run.part as int][range.from + j]
            },
            _ => true,
        },
    }
}

/// The finalization after these events.
pub open spec fn run_through(run: RunView, events: Seq<FinalizeEvent>) -> RunView
    decreases events.len(),
{
    if events.len() == 0 {
        run
    } else {
        run_after(run_through(run, events.drop_last()), events.last())
    }
}

/// These events, and these states of the share before, between and behind them,
/// are a history of the finalization: each event is expected and says the truth.
pub open spec fn history(
    run: RunView,
    events: Seq<FinalizeEvent>,
    shares: Seq<Map<Seq<char>, Seq<u8>>>,
    contents: Seq<Seq<u8>>,
) -> bool
    decreases events.len(),
{
    &&& shares.len() == events.len() + 1
    &&& events.len() > 0 ==> {
        let before = run_through(run, events.drop_last());
        &&& history(run, events.drop_last(), shares.drop_last(), contents)
        &&& expects(before, events.last())
        &&& truthful(
            before,
            events.last(),
            shares[events.len() - 1],
            shares[events.len() as int],
            contents,
        )
    }
}

/// The finalization is that of a file with these parts.
pub open spec fn is_for(fixed: FixedView, contents: Seq<Seq<u8>>) -> bool {
    &&& fixed.total_parts == contents.len()
    &&& fixed.expected_size == concatenated(contents).len()
    &&& in_chunks(contents, fixed.chunk_size as int)
}

/// What the partial file holds at each point of a finalization.
pub open spec fn holds_so_far(
    run: RunView,
    share: Map<Seq<char>, Seq<u8>>,
    contents: Seq<Seq<u8>>,
) -> bool {
    let whole = concatenated(contents);
    let file = partial_file(run.fixed, share);
    match run.phase {
        Phase::CleaningUp => finished_whole(run.fixed, share, contents),
        Phase::Finished => run.error is None ==> finished_whole(run.fixed, share, contents),
        _ => {
            &&& file.len() <= whole.len()
            &&& right_up_to(file, whole, front_length(contents, run.known_parts as int))
            &&& match run.phase {
                Phase::Opening => 0 <= run.part < contents.len() && run.part
                    <= run.known_parts && run.offset == front_length(
                    contents,
                    run.part as int,
                ),
                Phase::Reading | Phase::Writing => {
                    &&& 0 <= run.part < contents.len()
                    &&& run.offset == front_length(contents, run.part as int)
                    &&& run.phase == Phase::Writing ==> run.length
                        == contents[run.part as int].len()
                    &&& right_up_to(
                        file,
                        whole,
                        if run.phase == Phase::Writing {
                            run.offset + run.written
                        } else {
                            run.offset as int
                        },
                    )
                },
                Phase::Closing | Phase::Renaming => right_up_to(file, whole, whole.len() as int),
                _ => true,
            }
        },
    }
}

proof fn lemma_measured(
    run: RunView,
    size: u64,
    share: Map<Seq<char>, Seq<u8>>,
    contents: Seq<Seq<u8>>,
)
    requires
        in_order(run),
        is_for(run.fixed, contents),
        run.phase == Phase::Measuring,
        holds_so_far(run, share, contents),
        size == 0 || size <= partial_file(run.fixed, share).len(),
        run.known_parts == contents.len() ==> size == 0 || size
            >= concatenated(contents).len(),
    ensures
        holds_so_far(crate::storage::smb::finalize::measured(run, size), share, contents),
{
    let whole = concatenated(contents);
    let fixed = run.fixed;
    let n = contents.len() as int;
    lemma_front_grows(contents, run.known_parts as int, n);
    if size >= fixed.expected_size && run.known_parts >= fixed.total_parts {
    } else {
        resuming_stays_within_the_file(run, size);
        let part = resume_part(run, size);
        if n == 0 {
            assert(contents =~= Seq::empty());
        }
        if part >= n {
            assert(run.known_parts == n);
            assert(size == 0);
            assert(first_missing(fixed.chunk_size, 0) == 0) by (nonlinear_arith)
                requires
                    first_missing(fixed.chunk_size, 0) == if fixed.chunk_size > 0 {
                        0int / fixed.chunk_size as int
                    } else {
                        0
                    },
            ;
        }
        parts_begin_at_chunks(contents, fixed.chunk_size as int, part);
    }
}

proof fn lemma_step(
    run: RunView,
    event: FinalizeEvent,
    before: Map<Seq<char>, Seq<u8>>,
    end: Map<Seq<char>, Seq<u8>>,
    contents: Seq<Seq<u8>>,
)
    requires
        in_order(run),
        is_for(run.fixed, contents),
        holds_so_far(run, before, contents),
        expects(run, event),
        truthful(run, event, before, end, contents),
    ensures
        holds_so_far(run_after(run, event), end, contents),
{
    let whole = concatenated(contents);
    let fixed = run.fixed;
    let file = partial_file(fixed, before);
    let later = partial_file(fixed, end);
    let known_length = front_length(contents, run.known_parts as int);
    let n = contents.len() as int;
    if run.phase == Phase::Renaming {
        if event is Renamed {
            assert(before[fixed.partial_path] =~= whole);
        }
    } else if run.phase == Phase::CleaningUp {
    } else {
        lemma_right_stays(file, later, whole, known_length);
        lemma_front_grows(contents, run.known_parts as int, n);
        match event {
            FinalizeEvent::Measured(size) => {
                lemma_measured(run, size, end, contents);
            },
            FinalizeEvent::MeasureFailed => {
                lemma_measured(run, 0, end, contents);
            },
            FinalizeEvent::Opened => {
                lemma_front_grows(contents, run.part as int, run.known_parts as int);
            },
            FinalizeEvent::PartRead(length) => {
                lemma_right_stays(file, later, whole, run.offset as int);
                parts_have_their_place(contents, run.part as int);
                lemma_front_grows(contents, run.part + 1, n);
            },
            FinalizeEvent::Wrote(taken) => {
                lemma_right_stays(file, later, whole, run.offset + run.written);
                parts_have_their_place(contents, run.part as int);
                lemma_front_grows(contents, run.part + 1, n);
                let part = contents[run.part as int];
                let reached = run.offset + run.written + taken;
                assert forall|p: int| 0 <= p < reached implies later[p] == #[trigger] whole[p] by {
                    let from = run.offset + run.written;
                    if p >= from {
                        let j = p - from;
                        assert(later[from + j] == part[run.written + j]);
                        assert(whole[run.offset + (run.written + j)] == part[run.written + j]);
                    }
                }
            },
            FinalizeEvent::Closed | FinalizeEvent::CloseTimedOut => {
                lemma_right_stays(file, later, whole, whole.len() as int);
            },
            _ => {},
        }
    }
}

/// A finalization that ends without an error leaves the whole file, whatever
/// parts were known to be in the partial file beforehand, as long as they were.
pub proof fn a_finalization_leaves_the_whole_file(
    run: RunView,
    events: Seq<FinalizeEvent>,
    shares: Seq<Map<Seq<char>, Seq<u8>>>,
    contents: Seq<Seq<u8>>,
    synced: Seq<bool>,
)
    requires
        in_order(run),
        run.phase == Phase::Connecting,
        is_for(run.fixed, contents),
        run.known_parts == known(synced, contents.len() as int),
        history(run, events, shares, contents),
        holds_synced(partial_file(run.fixed, shares[0]), contents, synced),
        partial_file(run.fixed, shares[0]).len() <= concatenated(contents).len(),
    ensures
        ({
            let end = run_through(run, events);
            &&& in_order(end)
            &&& end.fixed == run.fixed
            &&& holds_so_far(end, shares[events.len() as int], contents)
            &&& end.phase == Phase::Finished && end.error is None ==> finished_whole(
                run.fixed,
                shares[events.len() as int],
                contents,
            )
        }),
    decreases events.len(),
{
    if events.len() == 0 {
        lemma_known_front(
            partial_file(run.fixed, shares[0]),
            contents,
            synced,
            known(synced, contents.len() as int),
        );
    } else {
        let front = events.drop_last();
        assert(shares.drop_last()[0] == shares[0]);
        a_finalization_leaves_the_whole_file(run, front, shares.drop_last(), contents, synced);
        let before = run_through(run, front);
        every_answer_brings_the_end_nearer(before, events.last());
        lemma_step(
            before,
            events.last(),
            shares[events.len() - 1],
            shares[events.len() as int],
            contents,
        );
    }
}

/// A finished file is whole. Whichever of the parts were written to the partial
/// file beforehand and in whatever order, with those of which `synced` says so
/// among them: when the finalization ends without an error, the finished file is
/// the parts one after the other, and the partial file is gone.
pub proof fn a_finished_file_is_whole(
    run: RunView,
    events: Seq<FinalizeEvent>,
    shares: Seq<Map<Seq<char>, Seq<u8>>>,
    contents: Seq<Seq<u8>>,
    order: Seq<int>,
    synced: Seq<bool>,
)
    requires
        in_order(run),
        run.phase == Phase::Connecting,
        is_for(run.fixed, contents),
        run.known_parts == known(synced, contents.len() as int),
        forall|k: int| 0 <= k < order.len() ==> 0 <= #[trigger] order[k] < contents.len(),
        forall|i: int| 0 <= i < synced.len() && #[trigger] synced[i] ==> order.contains(i),
        history(run, events, shares, contents),
        partial_file(run.fixed, shares[0]) == after_syncs(
            contents,
            run.fixed.chunk_size as int,
            order,
        ),
        run_through(run, events).phase == Phase::Finished,
        run_through(run, events).error is None,
    ensures
        finished_whole(run.fixed, shares[events.len() as int], contents),
{
    let file = partial_file(run.fixed, shares[0]);
    syncs_leave_their_parts(contents, run.fixed.chunk_size as int, order);
    assert forall|i: int| 0 <= i < contents.len() && i < synced.len() && synced[i] implies
        #[trigger] in_place(file, contents, i) by {
        assert(order.contains(i));
    }
    a_finalization_leaves_the_whole_file(run, events, shares, contents, synced);
}

} // verus!
