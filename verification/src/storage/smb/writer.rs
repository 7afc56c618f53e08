//! Writing bytes to a file on the share in pieces.
//!
//! A server takes only so much in one request, so what is to be written goes out
//! in pieces of at most a megabyte. A server may also take less than a piece;
//! the next piece then begins where it stopped.
use crate::storage::disk::concatenated;
use vstd::prelude::*;

verus! {

/// The largest piece.
pub const SMB_WRITE_CHUNK: usize = 1_048_576;

/// The bytes from `from` up to `to`, to be written at `offset` in the file.
#[derive(Debug, Clone, Copy, PartialEq, Eq, Structural)]
pub struct WriteRange {
    pub from: usize,
    pub to: usize,
    pub offset: u64,
}

/// The next piece when `written` of `length` bytes were written to a file from
/// `base` on.
pub open spec fn next_range(base: u64, length: usize, written: usize) -> WriteRange {
    WriteRange {
        from: written,
        to: if length - written > SMB_WRITE_CHUNK {
            (written + SMB_WRITE_CHUNK) as usize
        } else {
            length
        },
        offset: (base + written) as u64,
    }
}

/// The next piece to write.
pub fn range_after(base: u64, length: usize, written: usize) -> (range: WriteRange)
    requires
        written < length,
        base + length <= u64::MAX,
    ensures
        range == next_range(base, length, written),
        range.from == written,
        range.from < range.to <= length,
        range.to - range.from <= SMB_WRITE_CHUNK,
        range.offset == base + written,
{
    let to: usize = if length - written > SMB_WRITE_CHUNK {
        written + SMB_WRITE_CHUNK
    } else {
        length
    };
    WriteRange { from: written, to, offset: base + written as u64 }
}

/// How many bytes are written when the server took `taken` more of them.
pub open spec fn written_after(length: usize, written: usize, taken: usize) -> usize {
    if taken >= length - written {
        length
    } else {
        (written + taken) as usize
    }
}

/// How many bytes are written when the server took `taken` more of them.
pub fn advance(length: usize, written: usize, taken: usize) -> (now_written: usize)
    requires
        written <= length,
    ensures
        now_written == written_after(length, written, taken),
        written <= now_written <= length,
        taken > 0 && written < length ==> now_written > written,
{
    if taken >= length - written {
        length
    } else {
        written + taken
    }
}

// ---------------------------------------------------------------------------
// What the file holds
// ---------------------------------------------------------------------------
/// `file` with `data` written over it from `at` on. A gap before `at` is filled
/// with zeros. Writing nothing changes nothing.
pub open spec fn overwritten(file: Seq<u8>, data: Seq<u8>, at: int) -> Seq<u8> {
    Seq::new(
        if data.len() == 0 || file.len() > at + data.len() {
            file.len()
        } else {
            (at + data.len()) as nat
        },
        |i: int|
            if at <= i < at + data.len() {
                data[i - at]
            } else if i < file.len() {
                file[i]
            } else {
                0u8
            },
    )
}

/// Writing one thing and then another directly behind it is writing both at
/// once.
pub proof fn writes_follow_each_other(file: Seq<u8>, a: Seq<u8>, b: Seq<u8>, at: int)
    requires
        at >= 0,
    ensures
        overwritten(overwritten(file, a, at), b, at + a.len()) == overwritten(file, a + b, at),
{
    assert(overwritten(overwritten(file, a, at), b, at + a.len()) =~= overwritten(
        file,
        a + b,
        at,
    ));
}

/// Each piece goes where the one before stopped: when a server has taken some of
/// the next piece, the file is as if all bytes up to there had been written at
/// once.
pub proof fn pieces_make_up_the_data(
    file: Seq<u8>,
    data: Seq<u8>,
    base: u64,
    written: usize,
    taken: usize,
)
    requires
        data.len() <= usize::MAX,
        written < data.len(),
        base + data.len() <= u64::MAX,
        ({
            let range = next_range(base, data.len() as usize, written);
            taken <= range.to - range.from
        }),
    ensures
        ({
            let range = next_range(base, data.len() as usize, written);
            let before = overwritten(file, data.take(written as int), base as int);
            let after = written_after(data.len() as usize, written, taken);
            overwritten(
                before,
                data.subrange(range.from as int, range.from + taken),
                range.offset as int,
            ) == overwritten(file, data.take(after as int), base as int)
        }),
{
    let front = data.take(written as int);
    let piece = data.subrange(written as int, written + taken);
    writes_follow_each_other(file, front, piece, base as int);
    assert(front + piece =~= data.take(written + taken));
}

/// Each part has its place in the whole: behind the parts before it.
pub proof fn parts_have_their_place(contents: Seq<Seq<u8>>, n: int)
    requires
        0 <= n < contents.len(),
    ensures
        concatenated(contents.take(n + 1)) == concatenated(contents.take(n)) + contents[n],
        concatenated(contents.take(n)).len() + contents[n].len() <= concatenated(contents).len(),
        forall|j: int|
            0 <= j < contents[n].len() ==> concatenated(contents)[concatenated(
                contents.take(n),
            ).len() + j] == #[trigger] contents[n][j],
{
    assert(contents.take(n + 1).drop_last() =~= contents.take(n));
    lemma_concatenated_add(contents.take(n + 1), contents.skip(n + 1));
    assert(contents.take(n + 1) + contents.skip(n + 1) =~= contents);
}

proof fn lemma_concatenated_add(a: Seq<Seq<u8>>, b: Seq<Seq<u8>>)
    ensures
        concatenated(a + b) == concatenated(a) + concatenated(b),
    decreases b.len(),
{
    if b.len() == 0 {
        assert(a + b =~= a);
        assert(concatenated(a) + Seq::<u8>::empty() =~= concatenated(a));
    } else {
        lemma_concatenated_add(a, b.drop_last());
        assert((a + b).drop_last() =~= a + b.drop_last());
        assert(concatenated(a) + concatenated(b.drop_last()) + b.last() =~= concatenated(a) + (
        concatenated(b.drop_last()) + b.last()));
    }
}

} // verus!
