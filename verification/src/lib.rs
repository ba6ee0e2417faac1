//! Synthetic weather-station measurements for benchmarking row-oriented data
//! pipelines.
//!
//! A run loads a list of stations from the text of a station file
//! ([`station`]), is cut into chunks of bounded size ([`plan`]), and fills each
//! chunk with lines of the form `station;temperature` ([`generate`],
//! [`measurement`]). The size of the finished output is reported with binary
//! prefixes ([`size`]). What holds of a run as a whole is stated and proved in
//! [`laws`].
//!
//! The library touches no file and no terminal: its caller reads the station
//! file, writes the chunks, and shows the progress.

pub mod decimal;
pub mod error;
pub mod generate;
pub mod laws;
pub mod lines;
pub mod measurement;
pub mod plan;
pub mod random;
pub mod size;
pub mod station;
pub mod text;
