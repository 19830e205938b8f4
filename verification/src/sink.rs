//! The record of a shared sink, as a mathematical model, and the laws that
//! hold of it whatever way the workers' writes fall between one another.
//!
//! The sink takes each write as one unit, so its record is a sequence of
//! writes, each with the index of the input it came from and the block
//! written.

use vstd::prelude::*;
use crate::lines::{NEWLINE, count_of};
use crate::stream::{joined, total_count, normalized, line_total, writes, lemma_push,
    law_writes_end_at_terminator, law_output_is_normalized_input, law_line_count};

verus! {

/// The blocks in `record` that came from `source`, in the order they were
/// written.
pub open spec fn from_source(record: Seq<(int, Seq<u8>)>, source: int) -> Seq<Seq<u8>>
    decreases record.len(),
{
    if record.len() == 0 {
        Seq::empty()
    } else if record.last().0 == source {
        from_source(record.drop_last(), source).push(record.last().1)
    } else {
        from_source(record.drop_last(), source)
    }
}

/// The number of terminators in all the blocks of `record`: the lines that
/// reached the sink.
pub open spec fn lines_in(record: Seq<(int, Seq<u8>)>) -> nat
    decreases record.len(),
{
    if record.len() == 0 {
        0
    } else {
        lines_in(record.drop_last()) + count_of(record.last().1, NEWLINE)
    }
}

/// The lines of the first `n` streams together.
pub open spec fn lines_of(streams: Seq<Seq<Seq<u8>>>, n: int) -> nat
    decreases n,
{
    if n <= 0 {
        0
    } else {
        lines_of(streams, n - 1) + line_total(joined(streams[n - 1]))
    }
}

/// `record` is what the sink holds once the workers of `streams` have all
/// terminated without failure: every write came from one of them, and the
/// writes of each are its own, in its own order. Nothing is said of how the
/// writes of different workers fall between one another.
pub open spec fn is_interleaving(record: Seq<(int, Seq<u8>)>, streams: Seq<Seq<Seq<u8>>>) -> bool {
    &&& forall|i: int| 0 <= i < record.len() ==> 0 <= (#[trigger] record[i]).0 < streams.len()
    &&& forall|k: int|
        0 <= k < streams.len() ==> #[trigger] from_source(record, k) == writes(streams[k])
}

/// The terminators of the first `n` sources' blocks in `record`.
pub open spec fn lines_by_source(record: Seq<(int, Seq<u8>)>, n: int) -> nat
    decreases n,
{
    if n <= 0 {
        0
    } else {
        lines_by_source(record, n - 1) + total_count(from_source(record, n - 1))
    }
}

/// Each write of the record is among the writes of its source.
proof fn lemma_write_is_from_its_source(record: Seq<(int, Seq<u8>)>, i: int)
    requires
        0 <= i < record.len(),
    ensures
        exists|j: int|
            0 <= j < from_source(record, record[i].0).len() && #[trigger] from_source(
                record,
                record[i].0,
            )[j] == record[i].1,
    decreases record.len(),
{
    let source = record[i].0;
    if i == record.len() - 1 {
        let j = from_source(record.drop_last(), source).len() as int;
        assert(from_source(record, source)[j] == record[i].1);
    } else {
        lemma_write_is_from_its_source(record.drop_last(), i);
        let j = choose|j: int|
            0 <= j < from_source(record.drop_last(), source).len() && #[trigger] from_source(
                record.drop_last(),
                source,
            )[j] == record[i].1;
        assert(from_source(record, source)[j] == record[i].1);
    }
}

/// One more write adds its terminators to its own source's count and to no
/// other.
proof fn lemma_lines_by_source_push(record: Seq<(int, Seq<u8>)>, write: (int, Seq<u8>), n: int)
    ensures
        lines_by_source(record.push(write), n) == lines_by_source(record, n) + if 0 <= write.0
            < n {
            count_of(write.1, NEWLINE)
        } else {
            0nat
        },
    decreases n,
{
    if n > 0 {
        lemma_lines_by_source_push(record, write, n - 1);
        assert(record.push(write).drop_last() =~= record);
        if write.0 == n - 1 {
            lemma_push(from_source(record, n - 1), write.1);
        }
    }
}

/// The lines in a record are the lines of its sources, added up.
proof fn lemma_lines_by_source(record: Seq<(int, Seq<u8>)>, n: int)
    requires
        forall|i: int| 0 <= i < record.len() ==> 0 <= (#[trigger] record[i]).0 < n,
    ensures
        lines_in(record) == lines_by_source(record, n),
    decreases record.len(),
{
    if record.len() == 0 {
        lemma_lines_by_source_empty(record, n);
    } else {
        let front = record.drop_last();
        assert forall|i: int| 0 <= i < front.len() implies 0 <= (#[trigger] front[i]).0 < n by {
            assert(front[i] == record[i]);
        }
        lemma_lines_by_source(front, n);
        lemma_lines_by_source_push(front, record.last(), n);
        assert(front.push(record.last()) =~= record);
        assert(0 <= record[record.len() - 1].0 < n);
    }
}

/// An empty record holds no line of any source.
proof fn lemma_lines_by_source_empty(record: Seq<(int, Seq<u8>)>, n: int)
    requires
        record.len() == 0,
    ensures
        lines_by_source(record, n) == 0,
    decreases n,
{
    if n > 0 {
        lemma_lines_by_source_empty(record, n - 1);
    }
}

/// Where each source's blocks are the writes of its stream, the sources'
/// lines are the streams' lines.
proof fn lemma_lines_of_streams(record: Seq<(int, Seq<u8>)>, streams: Seq<Seq<Seq<u8>>>, n: int)
    requires
        0 <= n <= streams.len(),
        forall|k: int|
            0 <= k < streams.len() ==> #[trigger] from_source(record, k) == writes(streams[k]),
    ensures
        lines_by_source(record, n) == lines_of(streams, n),
    decreases n,
{
    if n > 0 {
        lemma_lines_of_streams(record, streams, n - 1);
        law_line_count(streams[n - 1]);
        assert(from_source(record, n - 1) == writes(streams[n - 1]));
    }
}

/// Line-atomicity at the sink. However the writes of the workers fall
/// between one another, no write in the record ends in the middle of a line:
/// each is not empty and ends with a terminator.
pub proof fn law_record_splits_at_terminators(
    record: Seq<(int, Seq<u8>)>,
    streams: Seq<Seq<Seq<u8>>>,
)
    requires
        is_interleaving(record, streams),
    ensures
        forall|i: int|
            0 <= i < record.len() ==> (#[trigger] record[i]).1.len() > 0 && record[i].1.last()
                == NEWLINE,
{
    assert forall|i: int| 0 <= i < record.len() implies (#[trigger] record[i]).1.len() > 0
        && record[i].1.last() == NEWLINE by {
        let source = record[i].0;
        lemma_write_is_from_its_source(record, i);
        law_writes_end_at_terminator(streams[source]);
        assert(from_source(record, source) == writes(streams[source]));
    }
}

/// Order within each source. The record, narrowed to the writes of one
/// input, is that input's bytes in their order, with its last line ended by
/// a terminator where it had none.
pub proof fn law_record_keeps_source_order(
    record: Seq<(int, Seq<u8>)>,
    streams: Seq<Seq<Seq<u8>>>,
    source: int,
)
    requires
        is_interleaving(record, streams),
        0 <= source < streams.len(),
    ensures
        joined(from_source(record, source)) == normalized(joined(streams[source])),
{
    law_output_is_normalized_input(streams[source]);
    assert(from_source(record, source) == writes(streams[source]));
}

/// Completeness at the sink. The lines in the record are, added up over the
/// inputs, each input's terminators and one more for each input whose last
/// bytes are not empty and have no terminator.
pub proof fn law_record_holds_every_line(record: Seq<(int, Seq<u8>)>, streams: Seq<Seq<Seq<u8>>>)
    requires
        is_interleaving(record, streams),
    ensures
        lines_in(record) == lines_of(streams, streams.len() as int),
{
    lemma_lines_by_source(record, streams.len() as int);
    lemma_lines_of_streams(record, streams, streams.len() as int);
}

} // verus!
