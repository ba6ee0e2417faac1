//! Generating measurement lines: each line draws a station and a temperature
//! afresh, and lines are gathered into batches of text.

use crate::error::ErrorKind;
use crate::measurement::{append_line, measurement_line, record, MAX_TEMP, MIN_TEMP};
use crate::random::{pick_one, random_between};
use crate::station::WeatherStation;
use vstd::prelude::*;

verus! {

/// One draw: the position of a station in the collection, and a temperature in
/// tenths of a degree.
pub struct Pick {
    pub station: int,
    pub value: int,
}

/// A draw that the generator can make from the stations with these ids: the
/// station exists, and the temperature is at least `MIN_TEMP` and below
/// `MAX_TEMP`.
pub open spec fn valid_pick(ids: Seq<Seq<char>>, pick: Pick) -> bool {
    &&& 0 <= pick.station < ids.len()
    &&& MIN_TEMP <= pick.value < MAX_TEMP
}

/// Every draw of `picks` is valid.
pub open spec fn valid_picks(ids: Seq<Seq<char>>, picks: Seq<Pick>) -> bool {
    forall|k: int| 0 <= k < picks.len() ==> valid_pick(ids, #[trigger] picks[k])
}

/// The line that a draw is written as.
pub open spec fn line_of(ids: Seq<Seq<char>>, pick: Pick) -> Seq<char> {
    measurement_line(ids[pick.station], pick.value)
}

/// The record that a draw is written as: its line without the line feed.
pub open spec fn record_of(ids: Seq<Seq<char>>, pick: Pick) -> Seq<char> {
    record(ids[pick.station], pick.value)
}

/// The text of a run of draws: their lines, one after the other.
pub open spec fn render(ids: Seq<Seq<char>>, picks: Seq<Pick>) -> Seq<char>
    decreases picks.len(),
{
    if picks.len() == 0 {
        Seq::empty()
    } else {
        render(ids, picks.drop_last()) + line_of(ids, picks.last())
    }
}

/// `text` is what `count` valid draws are written as.
pub open spec fn is_batch(ids: Seq<Seq<char>>, count: nat, text: Seq<char>) -> bool {
    exists|picks: Seq<Pick>|
        picks.len() == count && valid_picks(ids, picks) && text == #[trigger] render(ids, picks)
}

/// The text of two runs of draws, one after the other, is the text of the first
/// followed by the text of the second.
pub proof fn lemma_render_concat(ids: Seq<Seq<char>>, a: Seq<Pick>, b: Seq<Pick>)
    ensures
        render(ids, a + b) == render(ids, a) + render(ids, b),
    decreases b.len(),
{
    if b.len() == 0 {
    } else {
        assert((a + b).drop_last() == a + b.drop_last());
        lemma_render_concat(ids, a, b.drop_last());
    }
}

/// Two batches, one after the other, are a batch of as many rows as both have
/// together.
pub proof fn lemma_batches_join(
    ids: Seq<Seq<char>>,
    first: nat,
    head: Seq<char>,
    second: nat,
    tail: Seq<char>,
)
    requires
        is_batch(ids, first, head),
        is_batch(ids, second, tail),
    ensures
        is_batch(ids, first + second, head + tail),
{
    let a = choose|picks: Seq<Pick>|
        picks.len() == first && valid_picks(ids, picks) && head == #[trigger] render(ids, picks);
    let b = choose|picks: Seq<Pick>|
        picks.len() == second && valid_picks(ids, picks) && tail == #[trigger] render(ids, picks);
    lemma_render_concat(ids, a, b);
    assert(valid_picks(ids, a + b)) by {
        assert forall|k: int| 0 <= k < (a + b).len() implies valid_pick(
            ids,
            #[trigger] (a + b)[k],
        ) by {
            if k < a.len() {
            } else {
            }
        }
    }
}

/// Draws one station and one temperature and appends their line to `out_buf`.
/// With no station to draw from, it fails and leaves `out_buf` as it was.
pub fn generate_line(stations: &Vec<WeatherStation>, out_buf: &mut String) -> (done: Result<
    (),
    ErrorKind,
>)
    ensures
        stations@.len() == 0 <==> done is Err,
        done is Err ==> done == Err::<(), ErrorKind>(ErrorKind::EmptyInput) && final(out_buf)@
            == old(out_buf)@,
        done is Ok ==> exists|pick: Pick|
            valid_pick(stations.deep_view(), pick) && final(out_buf)@ == old(out_buf)@
                + #[trigger] line_of(stations.deep_view(), pick),
{
    match pick_one(stations) {
        None => Err(ErrorKind::EmptyInput),
        Some(station) => {
            let measurement = random_between(MIN_TEMP, MAX_TEMP);
            append_line(out_buf, station.id(), measurement);
            proof {
                let i = choose|i: int| 0 <= i < stations@.len() && stations@[i] == *station;
                let pick = Pick { station: i, value: measurement as int };
                assert(out_buf@ == old(out_buf)@ + line_of(stations.deep_view(), pick));
            }
            Ok(())
        },
    }
}

/// Generates `count` lines into one text. It fails where a line is asked for
/// and there is no station to draw from.
pub fn generate_chunk(stations: &Vec<WeatherStation>, count: u64) -> (made: Result<
    String,
    ErrorKind,
>)
    ensures
        (stations@.len() == 0 && count > 0) <==> made is Err,
        made is Err ==> made == Err::<String, ErrorKind>(ErrorKind::EmptyInput),
        made matches Ok(text) ==> is_batch(stations.deep_view(), count as nat, text@),
{
    let mut out_buf = String::new();
    let ghost mut picks: Seq<Pick> = Seq::empty();
    let ghost ids = stations.deep_view();
    let mut i: u64 = 0;
    while i < count
        invariant
            i <= count,
            ids == stations.deep_view(),
            picks.len() == i,
            valid_picks(ids, picks),
            out_buf@ == render(ids, picks),
            i > 0 ==> stations@.len() > 0,
        decreases count - i,
    {
        let ghost before = out_buf@;
        match generate_line(stations, &mut out_buf) {
            Err(e) => {
                return Err(e);
            },
            Ok(_) => {
                proof {
                    let pick = choose|pick: Pick|
                        valid_pick(ids, pick) && out_buf@ == before + #[trigger] line_of(
                            ids,
                            pick,
                        );
                    let longer = picks.push(pick);
                    assert(longer.drop_last() == picks);
                    picks = longer;
                }
            },
        }
        i = i + 1;
    }
    Ok(out_buf)
}

} // verus!
