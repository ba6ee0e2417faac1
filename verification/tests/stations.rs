use measurement_generator::error::ErrorKind;
use measurement_generator::lines::split_lines;
use measurement_generator::station::{load_weather_stations, WeatherStation};

fn ids(stations: &Vec<WeatherStation>) -> Vec<String> {
    let mut out = Vec::new();
    for station in stations {
        out.push(station.id().to_string());
    }
    out
}

#[test]
fn id_is_what_stands_before_the_first_semicolon() {
    let station = WeatherStation::try_from("Seattle;47.6;-122.3").unwrap();
    assert_eq!(station.id(), "Seattle");
}

#[test]
fn line_without_semicolon_is_the_id() {
    let station = WeatherStation::try_from("Portland").unwrap();
    assert_eq!(station.id(), "Portland");
}

#[test]
fn line_that_starts_with_semicolon_has_an_empty_id() {
    let station = WeatherStation::try_from(";rest").unwrap();
    assert_eq!(station.id(), "");
}

#[test]
fn id_keeps_characters_outside_ascii() {
    let station = WeatherStation::try_from("Zürich;47.4").unwrap();
    assert_eq!(station.id(), "Zürich");
    let station = WeatherStation::try_from("東京;35.7").unwrap();
    assert_eq!(station.id(), "東京");
}

#[test]
fn empty_line_has_no_id() {
    let made = WeatherStation::try_from("");
    assert!(matches!(made, Err(ErrorKind::Parse)));
}

#[test]
fn split_lines_cuts_at_line_feeds() {
    assert_eq!(split_lines("a\nb\nc"), vec!["a", "b", "c"]);
    assert_eq!(split_lines("a\nb\n"), vec!["a", "b"]);
    assert_eq!(split_lines(""), Vec::<String>::new());
    assert_eq!(split_lines("\n"), vec![""]);
    assert_eq!(split_lines("a\n\nb"), vec!["a", "", "b"]);
    assert_eq!(split_lines("no line feed"), vec!["no line feed"]);
}

#[test]
fn split_lines_drops_one_carriage_return_before_a_line_feed() {
    assert_eq!(split_lines("a\r\nb\r\n"), vec!["a", "b"]);
    assert_eq!(split_lines("a\r\r\nb"), vec!["a\r", "b"]);
    assert_eq!(split_lines("a\rb\nc"), vec!["a\rb", "c"]);
    assert_eq!(split_lines("a\r"), vec!["a\r"]);
    assert_eq!(split_lines("\r\n"), vec![""]);
    assert_eq!(split_lines("\r"), vec!["\r"]);
}

#[test]
fn split_lines_agrees_with_the_standard_library() {
    let texts = [
        "",
        "\n",
        "\r",
        "\r\n",
        "\n\n",
        "a",
        "a\n",
        "a\r\n",
        "a\n\r",
        "a\r\rb\r\n\r\nc\r",
        "Seattle;1\nPortland;2\n#x\n",
        "é\r\nü\n",
    ];
    for text in texts {
        let expected: Vec<String> = text.lines().map(|line| line.to_string()).collect();
        assert_eq!(split_lines(text), expected, "text {:?}", text);
    }
}

#[test]
fn loading_yields_one_station_per_line() {
    let stations = load_weather_stations("Seattle;47.6\nPortland;45.5\nBoise\n").unwrap();
    assert_eq!(ids(&stations), vec!["Seattle", "Portland", "Boise"]);
}

#[test]
fn loading_skips_comments() {
    let text = "# Adapted list\nSeattle;47.6\n#Portland;45.5\nBoise;43.6";
    let stations = load_weather_stations(text).unwrap();
    assert_eq!(ids(&stations), vec!["Seattle", "Boise"]);
}

#[test]
fn loading_keeps_the_order_and_repeats_of_the_file() {
    let stations = load_weather_stations("b;1\na;2\nb;3\n").unwrap();
    assert_eq!(ids(&stations), vec!["b", "a", "b"]);
}

#[test]
fn loading_reads_lines_that_end_in_carriage_return_and_line_feed() {
    let stations = load_weather_stations("Seattle;47.6\r\nBoise\r\n").unwrap();
    assert_eq!(ids(&stations), vec!["Seattle", "Boise"]);
}

#[test]
fn hash_inside_a_line_starts_no_comment() {
    let stations = load_weather_stations(" #x;1\nA#;2\n").unwrap();
    assert_eq!(ids(&stations), vec![" #x", "A#"]);
}

#[test]
fn loading_an_empty_text_yields_no_station() {
    let stations = load_weather_stations("").unwrap();
    assert!(stations.is_empty());
    let stations = load_weather_stations("#only a comment\n").unwrap();
    assert!(stations.is_empty());
}

#[test]
fn loading_a_blank_line_fails_to_parse() {
    assert!(matches!(load_weather_stations("Seattle;1\n\nBoise;2\n"), Err(ErrorKind::Parse)));
    assert!(matches!(load_weather_stations("\n"), Err(ErrorKind::Parse)));
    assert!(matches!(load_weather_stations("Seattle;1\n\r\n"), Err(ErrorKind::Parse)));
    assert!(matches!(load_weather_stations("#c\nSeattle\n\n"), Err(ErrorKind::Parse)));
}

#[test]
fn each_error_has_its_message() {
    assert_eq!(ErrorKind::Io.message(), "Could not open file");
    assert_eq!(ErrorKind::Parse.message(), "No id");
    assert_eq!(ErrorKind::EmptyInput.message(), "No stations");
    assert_ne!(ErrorKind::Parse, ErrorKind::EmptyInput);
}
