//! Run-length coding of BF16 values: a 16-bit count and a value per run.
use vstd::prelude::*;

use super::bf16;
use crate::text;

verus! {

/// The longest run that one record can count.
pub const MAX_RUN: usize = 65535;

/// The number of values equal to `values[start]` that follow each other from
/// `start` on, counted from `run` up and no further than `MAX_RUN`.
pub open spec fn run_from(values: Seq<u16>, start: int, run: int) -> int
    decreases MAX_RUN - run,
{
    if start + run < values.len() && values[start + run] == values[start] && run < MAX_RUN {
        run_from(values, start, run + 1)
    } else {
        run
    }
}

pub proof fn lemma_run_from(values: Seq<u16>, start: int, run: int)
    requires
        0 <= start < values.len(),
        1 <= run <= MAX_RUN,
        start + run <= values.len(),
        forall|k: int| start <= k < start + run ==> values[k] == values[start],
    ensures
        run <= run_from(values, start, run) <= MAX_RUN,
        start + run_from(values, start, run) <= values.len(),
        forall|k: int|
            start <= k < start + run_from(values, start, run) ==> values[k] == values[start],
    decreases MAX_RUN - run,
{
    if start + run < values.len() && values[start + run] == values[start] && run < MAX_RUN {
        lemma_run_from(values, start, run + 1);
    }
}

/// The records of the runs from `start` on: the run's length, then its value.
pub open spec fn records(values: Seq<u16>, start: int) -> Seq<u8>
    decreases values.len() - start,
{
    if 0 <= start < values.len() {
        let run = run_from(values, start, 1);
        proof {
            lemma_run_from(values, start, 1);
        }
        bf16::value_bytes(run as u16) + bf16::value_bytes(values[start]) + records(values, start + run)
    } else {
        Seq::empty()
    }
}

/// The count in the record at byte `at`.
pub open spec fn record_count(stream: Seq<u8>, at: int) -> u16 {
    bf16::byte_pair(stream[at], stream[at + 1])
}

/// The value of the record at byte `at`.
pub open spec fn record_value(stream: Seq<u8>, at: int) -> u16 {
    bf16::byte_pair(stream[at + 2], stream[at + 3])
}

/// The bytes of the run that the record at byte `at` stands for.
pub open spec fn record_run(stream: Seq<u8>, at: int) -> Seq<u8> {
    Seq::new(2 * record_count(stream, at) as nat, |i: int| stream[at + 2 + i % 2])
}

/// The bytes that the records from byte `at` on stand for.
pub open spec fn expanded(stream: Seq<u8>, at: int) -> Seq<u8>
    decreases stream.len() - at,
{
    if at + 4 <= stream.len() {
        record_run(stream, at) + expanded(stream, at + 4)
    } else {
        Seq::empty()
    }
}

/// Whether a record of the stream counts no value at all.
pub open spec fn has_zero_run(stream: Seq<u8>) -> bool {
    exists|record: int|
        0 <= record && 4 * record + 4 <= stream.len() && #[trigger] record_count(stream, 4 * record)
            == 0
}

pub open spec fn rle_encoding(source: Seq<u8>) -> Result<Seq<u8>, Seq<char>> {
    if source.len() % 2 != 0 {
        Err("BF16 RLE requires 2-byte alignment"@)
    } else {
        Ok(records(bf16::values_of(source), 0))
    }
}

pub open spec fn rle_decoding(stream: Seq<u8>) -> Result<Seq<u8>, Seq<char>> {
    if stream.len() % 4 != 0 {
        Err("BF16 RLE stream has invalid length"@)
    } else if has_zero_run(stream) {
        Err("BF16 RLE stream contains a zero run"@)
    } else {
        Ok(expanded(stream, 0))
    }
}

/// Expanding the records of a value sequence, found behind any number of other
/// records, gives the values' bytes; none of the records counts zero.
proof fn lemma_records_expand(before: Seq<u8>, values: Seq<u16>, start: int)
    requires
        0 <= start <= values.len(),
        before.len() % 4 == 0,
    ensures
        records(values, start).len() % 4 == 0,
        expanded(before + records(values, start), before.len() as int) == bf16::bytes_of(
            values.skip(start),
        ),
        forall|record: int|
            before.len() <= 4 * record && 4 * record + 4 <= before.len() + records(values, start).len()
                ==> #[trigger] record_count(before + records(values, start), 4 * record) != 0,
    decreases values.len() - start,
{
    let whole = before + records(values, start);
    let at = before.len() as int;
    if start == values.len() {
        assert(values.skip(start) =~= Seq::empty());
        assert(bf16::bytes_of(values.skip(start)) =~= Seq::empty());
    } else {
        lemma_run_from(values, start, 1);
        let run = run_from(values, start, 1);
        let value = values[start];
        let record = bf16::value_bytes(run as u16) + bf16::value_bytes(value);
        let next = before + record;
        lemma_records_expand(next, values, start + run);
        assert(whole =~= next + records(values, start + run));
        assert(whole[at] == bf16::value_bytes(run as u16)[0] && whole[at + 1] == bf16::value_bytes(
            run as u16,
        )[1]);
        bf16::lemma_byte_pair_of_value_bytes(run as u16);
        assert(record_count(whole, at) == run);
        let same = Seq::new(run as nat, |i: int| value);
        assert(record_run(whole, at) =~= bf16::bytes_of(same)) by {
            assert(whole[at + 2] == bf16::value_bytes(value)[0] && whole[at + 3] == bf16::value_bytes(value)[1]);
        }
        assert(values.skip(start) =~= same + values.skip(start + run));
        bf16::lemma_bytes_of_concat(same, values.skip(start + run));
        assert(expanded(whole, at) == record_run(whole, at) + expanded(whole, at + 4));
        assert forall|k: int|
            before.len() <= 4 * k && 4 * k + 4 <= before.len() + records(
                values,
                start,
            ).len() implies #[trigger] record_count(whole, 4 * k) != 0 by {
            if 4 * k != at {
                assert(4 * k >= next.len());
            }
        }
    }
}

/// Decoding the run-length records of an even number of bytes gives the bytes back.
pub proof fn law_rle_round_trip(source: Seq<u8>)
    requires
        source.len() % 2 == 0,
    ensures
        rle_encoding(source) is Ok,
        rle_decoding(rle_encoding(source)->Ok_0) == Ok::<Seq<u8>, Seq<char>>(source),
{
    let values = bf16::values_of(source);
    let stream = records(values, 0);
    lemma_records_expand(Seq::empty(), values, 0);
    assert(Seq::<u8>::empty() + stream =~= stream);
    assert(values.skip(0) =~= values);
    bf16::lemma_bytes_of_values(source);
}

/// A run is as long as its equal values allow.
proof fn lemma_run_reaches(values: Seq<u16>, start: int, run: int, end: int)
    requires
        0 <= start < values.len(),
        1 <= run <= end <= MAX_RUN,
        start + end <= values.len(),
        forall|k: int| start <= k < start + end ==> values[k] == values[start],
    ensures
        run_from(values, start, run) >= end,
    decreases end - run,
{
    if run < end {
        lemma_run_reaches(values, start, run + 1, end);
    } else {
        lemma_run_from(values, start, run);
    }
}

/// A run that could count further ends at another value or with the values.
proof fn lemma_run_stops(values: Seq<u16>, start: int, run: int)
    requires
        1 <= run <= MAX_RUN,
    ensures
        ({
            let end = run_from(values, start, run);
            end == MAX_RUN || start + end >= values.len() || values[start + end] != values[start]
        }),
    decreases MAX_RUN - run,
{
    if start + run < values.len() && values[start + run] == values[start] && run < MAX_RUN {
        lemma_run_stops(values, start, run + 1);
    }
}

/// The first record, where there is one, has the first value; one that is
/// followed by a record with its own value counts as far as it can.
proof fn lemma_neighbours(values: Seq<u16>, start: int)
    requires
        0 <= start <= values.len(),
    ensures
        records(values, start).len() % 4 == 0,
        start < values.len() ==> records(values, start).len() >= 4 && record_value(
            records(values, start),
            0,
        ) == values[start],
        start == values.len() ==> records(values, start).len() == 0,
        forall|record: int|
            0 <= record && 4 * record + 8 <= records(values, start).len() && #[trigger] record_value(
                records(values, start),
                4 * record,
            ) == record_value(records(values, start), 4 * record + 4) ==> record_count(
                records(values, start),
                4 * record,
            ) == MAX_RUN,
    decreases values.len() - start,
{
    if start < values.len() {
        lemma_run_from(values, start, 1);
        lemma_run_stops(values, start, 1);
        let run = run_from(values, start, 1);
        let stream = records(values, start);
        let rest = records(values, start + run);
        let record = bf16::value_bytes(run as u16) + bf16::value_bytes(values[start]);
        lemma_neighbours(values, start + run);
        assert(stream =~= record + rest);
        bf16::lemma_byte_pair_of_value_bytes(run as u16);
        bf16::lemma_byte_pair_of_value_bytes(values[start]);
        assert(stream[0] == record[0] && stream[1] == record[1] && stream[2] == record[2]
            && stream[3] == record[3]);
        assert forall|k: int|
            0 <= k && 4 * k + 8 <= stream.len() && #[trigger] record_value(stream, 4 * k)
                == record_value(stream, 4 * k + 4) implies record_count(stream, 4 * k) == MAX_RUN by {
            if k == 0 {
                assert(record_value(stream, 4) == record_value(rest, 0));
            } else {
                let before = k - 1;
                assert(record_value(rest, 4 * before) == record_value(stream, 4 * k));
                assert(record_value(rest, 4 * before + 4) == record_value(stream, 4 * k + 4));
                assert(record_count(rest, 4 * before) == record_count(stream, 4 * k));
            }
        }
    }
}

/// Later values take no more records than earlier ones do with them.
proof fn lemma_fewer_records(values: Seq<u16>, start: int, later: int)
    requires
        0 <= start <= later <= values.len(),
    ensures
        records(values, later).len() <= records(values, start).len(),
    decreases values.len() - start,
{
    if start < later {
        lemma_run_from(values, start, 1);
        let run = run_from(values, start, 1);
        if later < start + run {
            assert forall|k: int| later <= k < later + (start + run - later) implies values[k]
                == values[later] by {}
            lemma_run_reaches(values, later, 1, start + run - later);
            lemma_run_from(values, later, 1);
            lemma_fewer_records(values, start + run, later + run_from(values, later, 1));
        } else {
            lemma_fewer_records(values, start + run, later);
        }
    }
}

/// A stream that stands for some values has at least the records of their runs.
proof fn lemma_records_are_least(stream: Seq<u8>, at: int, values: Seq<u16>, start: int)
    requires
        0 <= at <= stream.len(),
        stream.len() % 4 == 0,
        at % 4 == 0,
        0 <= start <= values.len(),
        !has_zero_run(stream),
        expanded(stream, at) == bf16::bytes_of(values.skip(start)),
    ensures
        records(values, start).len() <= stream.len() - at,
    decreases stream.len() - at,
{
    let bytes = bf16::bytes_of(values.skip(start));
    if at == stream.len() {
        assert(bytes.len() == 0);
    } else {
        let count = record_count(stream, at) as int;
        let run = record_run(stream, at);
        let rest = expanded(stream, at + 4);
        assert(count != 0) by {
            assert(4 * (at / 4) == at);
            assert(record_count(stream, 4 * (at / 4)) == count);
        }
        assert(bytes =~= run + rest);
        assert(start + count <= values.len());
        assert forall|k: int| start <= k < start + count implies values[k] == values[start] by {
            let i = k - start;
            assert(bytes[2 * i] == run[2 * i] && bytes[2 * i + 1] == run[2 * i + 1]);
            assert(bytes[0] == run[0] && bytes[1] == run[1]);
            assert((2 * i) / 2 == i && (2 * i + 1) / 2 == i && (2 * i) % 2 == 0 && (2 * i + 1) % 2
                == 1);
            assert(values.skip(start)[i] == values[k] && values.skip(start)[0] == values[start]);
            bf16::lemma_byte_pair_of_value_bytes(values[k]);
            bf16::lemma_byte_pair_of_value_bytes(values[start]);
        }
        assert(rest =~= bf16::bytes_of(values.skip(start + count))) by {
            bf16::lemma_bytes_of_concat(
                values.skip(start).take(count),
                values.skip(start + count),
            );
            assert(values.skip(start) =~= values.skip(start).take(count) + values.skip(
                start + count,
            ));
            assert(rest =~= bytes.skip(2 * count));
        }
        lemma_records_are_least(stream, at + 4, values, start + count);
        lemma_run_reaches(values, start, 1, count);
        lemma_run_from(values, start, 1);
        lemma_fewer_records(values, start + count, start + run_from(values, start, 1));
    }
}

/// Two neighbouring records of an encoding share a value only where the first
/// of them counts as far as a record can.
pub proof fn law_rle_neighbours_differ(source: Seq<u8>, record: int)
    requires
        source.len() % 2 == 0,
        0 <= record,
        4 * record + 8 <= rle_encoding(source)->Ok_0.len(),
        record_value(rle_encoding(source)->Ok_0, 4 * record) == record_value(
            rle_encoding(source)->Ok_0,
            4 * record + 4,
        ),
    ensures
        record_count(rle_encoding(source)->Ok_0, 4 * record) == MAX_RUN,
{
    lemma_neighbours(bf16::values_of(source), 0);
}

/// No stream that decodes to some bytes is shorter than their encoding.
pub proof fn law_rle_is_shortest(source: Seq<u8>, stream: Seq<u8>)
    requires
        rle_decoding(stream) == Ok::<Seq<u8>, Seq<char>>(source),
    ensures
        rle_encoding(source) is Ok,
        rle_encoding(source)->Ok_0.len() <= stream.len(),
{
    lemma_expanded_is_even(stream, 0);
    let values = bf16::values_of(source);
    bf16::lemma_bytes_of_values(source);
    assert(values.skip(0) =~= values);
    lemma_records_are_least(stream, 0, values, 0);
}

/// Records stand for whole values.
proof fn lemma_expanded_is_even(stream: Seq<u8>, at: int)
    ensures
        expanded(stream, at).len() % 2 == 0,
    decreases stream.len() - at,
{
    if at + 4 <= stream.len() {
        lemma_expanded_is_even(stream, at + 4);
    }
}

/// Encodes BF16 values as runs.
pub fn encode_bf16_rle(source: &[u8]) -> (result: Result<Vec<u8>, String>)
    ensures
        text::outcome_view(result) == rle_encoding(source@),
{
    if source.len() % 2 != 0 {
        return Err("BF16 RLE requires 2-byte alignment".to_owned());
    }
    let values = bf16::read_values(source);
    let mut encoded: Vec<u8> = Vec::new();
    let mut index: usize = 0;
    while index < values.len()
        invariant
            index <= values.len(),
            encoded@ + records(values@, index as int) == records(values@, 0),
        decreases values.len() - index,
    {
        let value = values[index];
        let mut run: usize = 1;
        while run < values.len() - index && values[index + run] == value && run < MAX_RUN
            invariant
                index < values.len(),
                value == values@[index as int],
                1 <= run <= MAX_RUN,
                index + run <= values.len(),
                forall|k: int| index <= k < index + run ==> values@[k] == value,
                run_from(values@, index as int, run as int) == run_from(values@, index as int, 1),
            decreases values.len() - run,
        {
            run += 1;
        }
        let ghost before = encoded@;
        bf16::push_value(&mut encoded, run as u16);
        bf16::push_value(&mut encoded, value);
        proof {
            assert(records(values@, index as int) == bf16::value_bytes(run as u16) + bf16::value_bytes(value)
                + records(values@, index + run));
            assert(encoded@ + records(values@, index + run) =~= before + records(
                values@,
                index as int,
            ));
        }
        index += run;
    }
    proof {
        assert(encoded@ + records(values@, index as int) =~= encoded@);
    }
    Ok(encoded)
}

/// Decodes a stream of runs.
pub fn decode_bf16_rle(source: &[u8]) -> (result: Result<Vec<u8>, String>)
    ensures
        text::outcome_view(result) == rle_decoding(source@),
{
    let length: usize = source.len();
    if length % 4 != 0 {
        return Err("BF16 RLE stream has invalid length".to_owned());
    }
    let mut decoded: Vec<u8> = Vec::new();
    let mut at: usize = 0;
    while at < length
        invariant
            length == source@.len(),
            length % 4 == 0,
            at % 4 == 0,
            at <= length,
            decoded@ + expanded(source@, at as int) == expanded(source@, 0),
            forall|record: int|
                0 <= record && 4 * record + 4 <= at ==> #[trigger] record_count(
                    source@,
                    4 * record,
                ) != 0,
        decreases length - at,
    {
        let count: u16 = source[at] as u16 + 256 * (source[at + 1] as u16);
        let ghost record = at as int / 4;
        proof {
            assert(record_count(source@, 4 * record) == count);
        }
        if count == 0 {
            return Err("BF16 RLE stream contains a zero run".to_owned());
        }
        let low = source[at + 2];
        let high = source[at + 3];
        let ghost before = decoded@;
        let mut repeated: u16 = 0;
        while repeated < count
            invariant
                repeated <= count,
                count == record_count(source@, at as int),
                at + 4 <= source@.len(),
                low == source@[at + 2],
                high == source@[at + 3],
                decoded@ == before + record_run(source@, at as int).take(2 * repeated),
            decreases count - repeated,
        {
            decoded.push(low);
            decoded.push(high);
            repeated += 1;
        }
        proof {
            let run = record_run(source@, at as int);
            assert(run.take(2 * count) =~= run);
            assert(decoded@ + expanded(source@, at + 4) =~= before + expanded(source@, at as int));
            assert forall|k: int| 0 <= k && 4 * k + 4 <= at + 4 implies #[trigger] record_count(
                source@,
                4 * k,
            ) != 0 by {
                if 4 * k != at {
                    assert(4 * k + 4 <= at);
                }
            }
        }
        at += 4;
    }
    proof {
        assert(decoded@ + expanded(source@, at as int) =~= decoded@);
    }
    Ok(decoded)
}

} // verus!
