//! Weather stations and the file that lists them.

use crate::error::ErrorKind;
use crate::lines::{lemma_lines_hold_no_line_feed, lines_of, split_lines};
use crate::text::{first_index, free_of, lemma_first_index, lemma_first_index_is};
use vstd::prelude::*;
use vstd::std_specs::iter::IteratorSpec;
use vstd::string::StrSliceExecFns;

verus! {

/// The id that a line of the station file names: what stands before its first
/// `;`, or the whole line where it holds no `;`.
pub open spec fn station_id_of(line: Seq<char>) -> Seq<char> {
    line.take(first_index(line, ';'))
}

/// A line that starts with `#` is a comment and names no station.
pub open spec fn is_comment(line: Seq<char>) -> bool {
    line.len() > 0 && line[0] == '#'
}

/// The lines that name a station: all but the comments, in order.
pub open spec fn station_lines(lines: Seq<Seq<char>>) -> Seq<Seq<char>> {
    lines.filter(|line: Seq<char>| !is_comment(line))
}

/// The ids of the stations that the lines name, in order.
pub open spec fn station_ids(lines: Seq<Seq<char>>) -> Seq<Seq<char>> {
    station_lines(lines).map_values(|line: Seq<char>| station_id_of(line))
}

/// One of the lines has no characters.
pub open spec fn has_blank(lines: Seq<Seq<char>>) -> bool {
    exists|i: int| 0 <= i < lines.len() && (#[trigger] lines[i]).len() == 0
}

/// What loading the text of a station file gives: the ids of the stations that
/// its lines name, or a failure to parse where one of its lines is blank.
pub open spec fn load_result(text: Seq<char>) -> Result<Seq<Seq<char>>, ErrorKind> {
    if has_blank(lines_of(text)) {
        Err(ErrorKind::Parse)
    } else {
        Ok(station_ids(lines_of(text)))
    }
}

/// An id as it comes out of a station file: it holds neither a `;` nor a line
/// feed.
pub open spec fn plain_id(id: Seq<char>) -> bool {
    free_of(id, ';') && free_of(id, '\n')
}

/// Every id of `ids` is plain.
pub open spec fn plain_ids(ids: Seq<Seq<char>>) -> bool {
    forall|i: int| 0 <= i < ids.len() ==> plain_id(#[trigger] ids[i])
}

/// A weather-reporting location, known by its id alone.
#[derive(Debug)]
pub struct WeatherStation {
    id: String,
}

impl View for WeatherStation {
    type V = Seq<char>;

    /// A station is its id.
    closed spec fn view(&self) -> Seq<char> {
        self.id@
    }
}

impl DeepView for WeatherStation {
    type V = Seq<char>;

    open spec fn deep_view(&self) -> Seq<char> {
        self@
    }
}

impl WeatherStation {
    /// What holds of every station that was made from a line: its id holds no
    /// `;`.
    pub open spec fn wf(&self) -> bool {
        free_of(self@, ';')
    }

    /// Reads a station from one line of the station file. A line without any
    /// character names no station; every other line names the station whose id
    /// is `station_id_of` the line.
    pub fn try_from(value: &str) -> (made: Result<WeatherStation, ErrorKind>)
        ensures
            value@.len() == 0 <==> made is Err,
            made is Err ==> made == Err::<WeatherStation, ErrorKind>(ErrorKind::Parse),
            made matches Ok(station) ==> station@ == station_id_of(value@) && station.wf(),
    {
        if value.is_empty() {
            return Err(ErrorKind::Parse);
        }
        let mut id = String::new();
        let mut it = value.chars();
        let ghost mut done: int = 0;
        loop
            invariant_except_break
                0 <= done <= value@.len(),
                it.remaining() == value@.skip(done),
                id@ == value@.take(done),
                forall|i: int| 0 <= i < done ==> value@[i] != ';',
            ensures
                id@ == station_id_of(value@),
            decreases value@.len() - done,
        {
            match it.next() {
                Some(c) => {
                    if c == ';' {
                        proof {
                            lemma_first_index_is(value@, ';', done);
                        }
                        break ;
                    }
                    id.push(c);
                    proof {
                        done = done + 1;
                    }
                },
                None => {
                    proof {
                        lemma_first_index_is(value@, ';', done);
                    }
                    break ;
                },
            }
        }
        proof {
            lemma_first_index(value@, ';');
        }
        Ok(WeatherStation { id })
    }

    /// The station's id.
    pub fn id(&self) -> (id: &str)
        ensures
            id@ == self@,
    {
        self.id.as_str()
    }
}

/// Whether `line` is a comment.
fn starts_comment(line: &str) -> (comment: bool)
    ensures
        comment == is_comment(line@),
{
    if line.is_empty() {
        false
    } else {
        line.get_char(0) == '#'
    }
}

/// Reads the stations that the text of a station file lists: one for each line
/// that is not a comment, in the order of the lines. A line without any
/// character, wherever it stands, makes the whole text unreadable.
pub fn load_weather_stations(text: &str) -> (loaded: Result<Vec<WeatherStation>, ErrorKind>)
    ensures
        match loaded {
            Ok(stations) => load_result(text@) == Ok::<Seq<Seq<char>>, ErrorKind>(
                stations.deep_view(),
            ) && plain_ids(stations.deep_view()),
            Err(e) => load_result(text@) == Err::<Seq<Seq<char>>, ErrorKind>(e),
        },
{
    let lines = split_lines(text);
    let mut stations: Vec<WeatherStation> = Vec::new();
    let ghost all = lines.deep_view();
    proof {
        lemma_lines_hold_no_line_feed(text@);
        reveal(Seq::filter);
    }
    let mut i: usize = 0;
    while i < lines.len()
        invariant
            i <= lines.len(),
            all == lines.deep_view(),
            all == lines_of(text@),
            forall|j: int| 0 <= j < all.len() ==> free_of(#[trigger] all[j], '\n'),
            forall|j: int| 0 <= j < i ==> (#[trigger] all[j]).len() > 0,
            stations.deep_view() == station_ids(all.take(i as int)),
            plain_ids(stations.deep_view()),
        decreases lines.len() - i,
    {
        let line = lines[i].as_str();
        let ghost seen = all.take(i as int);
        let ghost before = stations.deep_view();
        proof {
            assert(line@ == all[i as int]);
            assert(all.take(i + 1) == seen.push(line@));
            seen.lemma_filter_push(line@, |line: Seq<char>| !is_comment(line));
        }
        if !starts_comment(line) {
            match WeatherStation::try_from(line) {
                Err(e) => {
                    return Err(e);
                },
                Ok(station) => {
                    proof {
                        lemma_first_index(line@, ';');
                    }
                    stations.push(station);
                    assert(stations.deep_view() == before.push(station_id_of(line@)));
                },
            }
        }
        i = i + 1;
    }
    assert(all.take(i as int) == all);
    Ok(stations)
}

} // verus!
