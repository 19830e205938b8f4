//! What a worker writes for a whole stream, as a mathematical model, and the
//! laws that hold of it.
//!
//! A stream reaches its worker as a sequence of chunks. The model follows
//! the worker chunk by chunk: `pending_after` is what stays in the buffer,
//! `flushes` are the blocks written while reading, and `writes` adds the last
//! line that is completed at the end of the stream.

use vstd::prelude::*;
use crate::lines::{NEWLINE, count_of, complete_len, complete_part, remainder, lemma_complete_len,
    lemma_split, lemma_count_concat};

verus! {

/// The parts one after the other, as one run of bytes.
pub open spec fn joined(parts: Seq<Seq<u8>>) -> Seq<u8>
    decreases parts.len(),
{
    if parts.len() == 0 {
        Seq::empty()
    } else {
        joined(parts.drop_last()) + parts.last()
    }
}

/// The number of terminators in all the parts together.
pub open spec fn total_count(parts: Seq<Seq<u8>>) -> nat
    decreases parts.len(),
{
    if parts.len() == 0 {
        0
    } else {
        total_count(parts.drop_last()) + count_of(parts.last(), NEWLINE)
    }
}

/// The input with its last line ended: a terminator is added where the
/// input is not empty and does not end with one.
pub open spec fn normalized(input: Seq<u8>) -> Seq<u8> {
    if input.len() == 0 || input.last() == NEWLINE {
        input
    } else {
        input.push(NEWLINE)
    }
}

/// The number of lines of the input: its terminators, and one more for a
/// last line that is not empty and has no terminator.
pub open spec fn line_total(input: Seq<u8>) -> nat {
    count_of(input, NEWLINE) + if input.len() > 0 && input.last() != NEWLINE {
        1nat
    } else {
        0nat
    }
}

/// What is pending once the chunks were taken in and every block of whole
/// lines was written.
pub open spec fn pending_after(chunks: Seq<Seq<u8>>) -> Seq<u8>
    decreases chunks.len(),
{
    if chunks.len() == 0 {
        Seq::empty()
    } else {
        remainder(pending_after(chunks.drop_last()) + chunks.last())
    }
}

/// The blocks written while the chunks were taken in, in order: one for
/// each chunk that brought a terminator.
pub open spec fn flushes(chunks: Seq<Seq<u8>>) -> Seq<Seq<u8>>
    decreases chunks.len(),
{
    if chunks.len() == 0 {
        Seq::empty()
    } else {
        let all = pending_after(chunks.drop_last()) + chunks.last();
        if count_of(all, NEWLINE) == 0 {
            flushes(chunks.drop_last())
        } else {
            flushes(chunks.drop_last()).push(complete_part(all))
        }
    }
}

/// Everything written for a stream that gave `chunks` and then ended: the
/// blocks written while reading, and the completed last line where bytes
/// were left.
pub open spec fn writes(chunks: Seq<Seq<u8>>) -> Seq<Seq<u8>> {
    let rest = pending_after(chunks);
    if rest.len() == 0 {
        flushes(chunks)
    } else {
        flushes(chunks).push(rest.push(NEWLINE))
    }
}

/// Where the last terminator of `a + b` stands: in `b` if `b` has one, else
/// where it stands in `a`.
pub proof fn lemma_complete_len_concat(a: Seq<u8>, b: Seq<u8>)
    ensures
        complete_len(a + b, NEWLINE) == if count_of(b, NEWLINE) == 0 {
            complete_len(a, NEWLINE)
        } else {
            a.len() + complete_len(b, NEWLINE)
        },
    decreases b.len(),
{
    if b.len() == 0 {
        assert(a + b =~= a);
    } else {
        assert((a + b).drop_last() =~= a + b.drop_last());
        lemma_complete_len_concat(a, b.drop_last());
        lemma_complete_len(b.drop_last(), NEWLINE);
    }
}

/// Joining and counting go through `push`.
pub proof fn lemma_push(parts: Seq<Seq<u8>>, part: Seq<u8>)
    ensures
        joined(parts.push(part)) == joined(parts) + part,
        total_count(parts.push(part)) == total_count(parts) + count_of(part, NEWLINE),
{
    assert(parts.push(part).drop_last() =~= parts);
}

/// The terminators of the parts are those of the parts joined.
pub proof fn lemma_total_count(parts: Seq<Seq<u8>>)
    ensures
        total_count(parts) == count_of(joined(parts), NEWLINE),
    decreases parts.len(),
{
    if parts.len() > 0 {
        lemma_total_count(parts.drop_last());
        lemma_count_concat(joined(parts.drop_last()), parts.last(), NEWLINE);
    }
}

/// The model cuts the joined input where its last terminator stands: the
/// blocks written while reading make up its whole lines, and what is pending
/// is what follows them. Each block is not empty, ends with a terminator,
/// and so holds at least one.
pub proof fn lemma_run(chunks: Seq<Seq<u8>>)
    ensures
        joined(flushes(chunks)) == complete_part(joined(chunks)),
        pending_after(chunks) == remainder(joined(chunks)),
        count_of(pending_after(chunks), NEWLINE) == 0,
        forall|i: int|
            0 <= i < flushes(chunks).len() ==> (#[trigger] flushes(chunks)[i]).len() > 0
                && flushes(chunks)[i].last() == NEWLINE,
        flushes(chunks).len() <= total_count(flushes(chunks)),
    decreases chunks.len(),
{
    if chunks.len() == 0 {
        assert(complete_part(joined(chunks)) =~= Seq::<u8>::empty());
        assert(remainder(joined(chunks)) =~= Seq::<u8>::empty());
    } else {
        let prev = chunks.drop_last();
        let before = joined(prev);
        let done = complete_part(before);
        let all = pending_after(prev) + chunks.last();
        let whole = joined(chunks);
        lemma_run(prev);
        lemma_split(before);
        lemma_split(all);
        lemma_split(whole);
        lemma_complete_len(before, NEWLINE);
        lemma_complete_len(all, NEWLINE);
        lemma_complete_len(done, NEWLINE);
        assert(whole =~= done + all);
        lemma_complete_len_concat(done, all);
        assert(complete_len(done, NEWLINE) == done.len()) by {
            if done.len() > 0 {
                assert(done.last() == before[complete_len(before, NEWLINE) - 1]);
            }
        }
        if count_of(all, NEWLINE) == 0 {
            assert(complete_part(whole) =~= done);
            assert(remainder(whole) =~= all);
            assert(remainder(all) =~= all);
        } else {
            let block = complete_part(all);
            lemma_push(flushes(prev), block);
            assert(complete_part(whole) =~= done + block);
            assert(remainder(whole) =~= remainder(all));
            assert(block.last() == all[complete_len(all, NEWLINE) - 1]);
        }
    }
}

/// Line-atomicity. Whatever the chunks, no block that is written ends in
/// the middle of a line: each is not empty and ends with a terminator. Where
/// bytes were left at the end of the stream, the last block is those bytes
/// with a terminator behind them, and it is exactly one line.
pub proof fn law_writes_end_at_terminator(chunks: Seq<Seq<u8>>)
    ensures
        forall|i: int|
            0 <= i < writes(chunks).len() ==> (#[trigger] writes(chunks)[i]).len() > 0
                && writes(chunks)[i].last() == NEWLINE,
        pending_after(chunks).len() > 0 ==> {
            &&& writes(chunks).len() == flushes(chunks).len() + 1
            &&& writes(chunks).last() == pending_after(chunks).push(NEWLINE)
            &&& count_of(writes(chunks).last(), NEWLINE) == 1
        },
        pending_after(chunks).len() == 0 ==> writes(chunks) == flushes(chunks),
{
    lemma_run(chunks);
    let rest = pending_after(chunks);
    assert(rest.push(NEWLINE).drop_last() =~= rest);
}

/// Order within a stream. The blocks written for a stream, one after the
/// other, are the stream's bytes in their order, with the last line ended by
/// a terminator where it had none; nothing is lost, added or moved.
pub proof fn law_output_is_normalized_input(chunks: Seq<Seq<u8>>)
    ensures
        joined(writes(chunks)) == normalized(joined(chunks)),
{
    let whole = joined(chunks);
    let rest = pending_after(chunks);
    lemma_run(chunks);
    lemma_split(whole);
    lemma_complete_len(whole, NEWLINE);
    if rest.len() == 0 {
        assert(complete_part(whole) =~= whole);
    } else {
        lemma_push(flushes(chunks), rest.push(NEWLINE));
        assert(whole.last() == rest.last());
        assert(complete_part(whole) + rest.push(NEWLINE) =~= whole.push(NEWLINE));
    }
}

/// Completeness. The lines written for a stream are as many as the stream
/// has terminators, and one more where its last bytes are not empty and have
/// no terminator.
pub proof fn law_line_count(chunks: Seq<Seq<u8>>)
    ensures
        total_count(writes(chunks)) == line_total(joined(chunks)),
        count_of(joined(writes(chunks)), NEWLINE) == line_total(joined(chunks)),
{
    let whole = joined(chunks);
    let rest = pending_after(chunks);
    lemma_run(chunks);
    lemma_split(whole);
    lemma_complete_len(whole, NEWLINE);
    lemma_total_count(flushes(chunks));
    lemma_total_count(writes(chunks));
    if rest.len() > 0 {
        lemma_push(flushes(chunks), rest.push(NEWLINE));
        assert(rest.push(NEWLINE).drop_last() =~= rest);
        assert(whole.last() == rest.last());
    } else {
        assert(complete_part(whole) =~= whole);
    }
}

/// A stream that ends with a terminator gets no line added: what is written
/// is what was written while reading, it is the input itself, and its lines
/// are the input's terminators. A stream without bytes gives no write and no
/// line.
pub proof fn law_no_extra_line(chunks: Seq<Seq<u8>>)
    requires
        joined(chunks).len() == 0 || joined(chunks).last() == NEWLINE,
    ensures
        writes(chunks) == flushes(chunks),
        joined(writes(chunks)) == joined(chunks),
        total_count(writes(chunks)) == count_of(joined(chunks), NEWLINE),
        joined(chunks).len() == 0 ==> writes(chunks).len() == 0 && total_count(writes(chunks)) == 0,
{
    let whole = joined(chunks);
    lemma_run(chunks);
    lemma_complete_len(whole, NEWLINE);
    law_output_is_normalized_input(chunks);
    law_line_count(chunks);
    assert(remainder(whole) =~= Seq::<u8>::empty());
}

/// A single line, however many chunks it takes to arrive, is written once
/// and whole: where the input's only terminator is its last byte, the one
/// block written is the input.
pub proof fn law_long_line_written_once(chunks: Seq<Seq<u8>>)
    requires
        joined(chunks).len() > 0,
        joined(chunks).last() == NEWLINE,
        count_of(joined(chunks), NEWLINE) == 1,
    ensures
        writes(chunks) == seq![joined(chunks)],
        total_count(writes(chunks)) == 1,
{
    let blocks = writes(chunks);
    law_no_extra_line(chunks);
    lemma_run(chunks);
    assert(blocks.len() == 1) by {
        if blocks.len() == 0 {
            assert(joined(blocks) =~= Seq::<u8>::empty());
        }
    }
    assert(blocks.drop_last().len() == 0);
    assert(joined(blocks) =~= blocks[0]) by {
        assert(joined(blocks.drop_last()) =~= Seq::<u8>::empty());
    }
    assert(blocks =~= seq![joined(chunks)]);
}

} // verus!
