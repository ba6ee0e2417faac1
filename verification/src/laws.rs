//! What holds of a run as a whole: of the stations that a file gives, of the
//! chunks that a run is cut into, and of the lines that reach the output.

use crate::error::ErrorKind;
use crate::generate::{
    is_batch, lemma_batches_join, record_of, render, valid_pick, valid_picks, Pick,
};
use crate::lines::{ends_lines, lemma_lines_of_appended_line, lines_of, plain_line};
use crate::measurement::{
    is_reading, lemma_reading_form, lemma_record_fields, lemma_tenths_of_reading, reading_of,
    reading_text, tenths_of, MAX_TEMP, MIN_TEMP,
};
use crate::plan::{chunk_rows, chunk_total, lemma_rows_through, rows_through, step_at, Step};
use crate::station::{has_blank, load_result, plain_ids, station_id_of, station_lines};
use vstd::prelude::*;

verus! {

/// A station file without a blank line gives exactly one station for each of
/// its lines that is not a comment, in their order, and the id of each station
/// is what its line holds before the first `;`.
pub proof fn law_one_station_per_line(text: Seq<char>)
    requires
        !has_blank(lines_of(text)),
    ensures
        load_result(text) matches Ok(ids) && ids.len() == station_lines(lines_of(text)).len()
            && forall|k: int|
            0 <= k < ids.len() ==> #[trigger] ids[k] == station_id_of(
                station_lines(lines_of(text))[k],
            ),
{
}

/// A station file with a line that has no characters is not loaded: it fails to
/// parse.
pub proof fn law_blank_line_fails(text: Seq<char>, i: int)
    requires
        0 <= i < lines_of(text).len(),
        lines_of(text)[i].len() == 0,
    ensures
        load_result(text) == Err::<Seq<Seq<char>>, ErrorKind>(ErrorKind::Parse),
{
}

/// The record of a valid draw from plain ids is a plain line.
proof fn lemma_record_is_plain(ids: Seq<Seq<char>>, pick: Pick)
    requires
        plain_ids(ids),
        valid_pick(ids, pick),
    ensures
        plain_line(record_of(ids, pick)),
{
    lemma_reading_form(pick.value);
}

/// Read back line by line, the text of a run of valid draws from plain ids
/// gives the records of the draws, one line for each draw and in their order;
/// and the text is made of whole lines.
pub proof fn law_lines_are_the_records(ids: Seq<Seq<char>>, picks: Seq<Pick>)
    requires
        plain_ids(ids),
        valid_picks(ids, picks),
    ensures
        lines_of(render(ids, picks)) == picks.map_values(|pick: Pick| record_of(ids, pick)),
        ends_lines(render(ids, picks)),
    decreases picks.len(),
{
    let records = picks.map_values(|pick: Pick| record_of(ids, pick));
    if picks.len() == 0 {
    } else {
        let front = picks.drop_last();
        let last = picks.last();
        law_lines_are_the_records(ids, front);
        lemma_record_is_plain(ids, last);
        lemma_lines_of_appended_line(render(ids, front), record_of(ids, last));
        assert(render(ids, picks) == render(ids, front) + record_of(ids, last) + seq!['\n']);
        assert(records == front.map_values(|pick: Pick| record_of(ids, pick)).push(
            record_of(ids, last),
        ));
    }
}

/// A batch of `count` rows from plain ids is exactly `count` lines, each ended
/// by a line feed. The first field of every line is the id of one of the
/// stations. Its second field has the form of a written temperature and,
/// read as a decimal, lies between the lowest temperature drawn, which it can
/// equal, and the upper bound, which it cannot.
pub proof fn law_batch_lines(ids: Seq<Seq<char>>, count: nat, text: Seq<char>)
    requires
        plain_ids(ids),
        is_batch(ids, count, text),
    ensures
        lines_of(text).len() == count,
        ends_lines(text),
        forall|k: int|
            0 <= k < count ==> ids.contains(station_id_of(#[trigger] lines_of(text)[k])),
        forall|k: int| 0 <= k < count ==> is_reading(reading_of(#[trigger] lines_of(text)[k])),
        forall|k: int|
            0 <= k < count ==> MIN_TEMP <= tenths_of(reading_of(#[trigger] lines_of(text)[k]))
                < MAX_TEMP,
{
    let picks = choose|picks: Seq<Pick>|
        picks.len() == count && valid_picks(ids, picks) && text == #[trigger] render(ids, picks);
    law_lines_are_the_records(ids, picks);
    assert forall|k: int| 0 <= k < count implies {
        &&& ids.contains(station_id_of(#[trigger] lines_of(text)[k]))
        &&& is_reading(reading_of(lines_of(text)[k]))
        &&& MIN_TEMP <= tenths_of(reading_of(lines_of(text)[k])) < MAX_TEMP
    } by {
        let pick = picks[k];
        let id = ids[pick.station];
        lemma_record_fields(id, pick.value);
        lemma_reading_form(pick.value);
        lemma_tenths_of_reading(pick.value);
    }
}

/// Every temperature that is drawn, but for the lowest, is written as a
/// decimal that lies strictly between -99.9 and 99.9: in tenths, strictly
/// between the lowest temperature and the upper bound.
pub proof fn law_reading_within_bounds(value: int)
    requires
        MIN_TEMP < value < MAX_TEMP,
    ensures
        is_reading(reading_text(value)),
        MIN_TEMP < tenths_of(reading_text(value)) < MAX_TEMP,
{
    lemma_reading_form(value);
    lemma_tenths_of_reading(value);
}

/// The chunks of a run, written one after the other, are a batch of as many
/// rows as the run is to produce.
pub proof fn law_chunks_make_the_run(ids: Seq<Seq<char>>, rows: nat, chunks: Seq<Seq<char>>)
    requires
        chunks.len() == chunk_total(rows),
        forall|k: int|
            0 <= k < chunks.len() ==> is_batch(ids, chunk_rows(rows, k as nat), #[trigger] chunks[k]),
    ensures
        is_batch(ids, rows, chunks.flatten()),
{
    lemma_chunks_through(ids, rows, chunks, chunks.len());
    lemma_rows_through(rows, chunk_total(rows));
    assert(chunks.take(chunks.len() as int) == chunks);
}

/// The first `k` chunks of a run are a batch of the rows that they hold.
proof fn lemma_chunks_through(ids: Seq<Seq<char>>, rows: nat, chunks: Seq<Seq<char>>, k: nat)
    requires
        k <= chunks.len(),
        forall|j: int|
            0 <= j < chunks.len() ==> is_batch(ids, chunk_rows(rows, j as nat), #[trigger] chunks[j]),
    ensures
        is_batch(ids, rows_through(rows, k), chunks.take(k as int).flatten()),
    decreases k,
{
    if k == 0 {
        assert(chunks.take(0).flatten() == render(ids, Seq::<Pick>::empty()));
    } else {
        let before = (k - 1) as nat;
        lemma_chunks_through(ids, rows, chunks, before);
        let front = chunks.take(before as int);
        front.lemma_flatten_push(chunks[before as int]);
        assert(chunks.take(k as int) == front.push(chunks[before as int]));
        lemma_batches_join(
            ids,
            rows_through(rows, before),
            front.flatten(),
            chunk_rows(rows, before),
            chunks[before as int],
        );
    }
}

/// The output of a whole run from plain ids is exactly as many lines as the run
/// is to produce, each ended by a line feed.
pub proof fn law_run_has_one_line_per_row(ids: Seq<Seq<char>>, rows: nat, chunks: Seq<Seq<char>>)
    requires
        plain_ids(ids),
        chunks.len() == chunk_total(rows),
        forall|k: int|
            0 <= k < chunks.len() ==> is_batch(ids, chunk_rows(rows, k as nat), #[trigger] chunks[k]),
    ensures
        lines_of(chunks.flatten()).len() == rows,
        ends_lines(chunks.flatten()),
{
    law_chunks_make_the_run(ids, rows, chunks);
    law_batch_lines(ids, rows, chunks.flatten());
}

/// With no station to draw from, no row can be generated: nothing is a batch of
/// one row or more. And a run of one row or more starts with a chunk that holds
/// a row, so that it fails before anything reaches the output.
pub proof fn law_no_rows_without_stations(rows: nat, count: nat, text: Seq<char>)
    requires
        rows > 0,
        count > 0,
    ensures
        !is_batch(Seq::<Seq<char>>::empty(), count, text),
        step_at(rows, 0) matches Step::WriteChunk { rows: first } && first > 0,
{
}

} // verus!
