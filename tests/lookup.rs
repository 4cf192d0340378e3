use geoloc::cached::CachedTable;
use geoloc::command::{parse_dotted_quad, Command};
use geoloc::database::{render, Database};
use geoloc::delegated::answer_of_row;
use geoloc::protocol::Protocol;
use geoloc::record::{parse_row, Columns};
use geoloc::streaming::StreamingScan;
use geoloc::text::{parse_u32, split_fields, trim_spaces, unquote};
use geoloc::{Error, QueryDriver};

fn sample_rows() -> Vec<String> {
    vec![
        "16777216,16777471,US,United States,California,Los Angeles,34.05,-118.24".to_string(),
        "16777472,16778239,CN,China,Fujian,Fuzhou,26.06,119.30".to_string(),
        "16778240,16779263,AU,Australia,Victoria,Melbourne,-37.81,144.96".to_string(),
    ]
}

fn sample_table() -> CachedTable {
    CachedTable::from_rows(&sample_rows(), Columns::full()).expect("rows decode")
}

fn two_range_table() -> CachedTable {
    let rows = vec![
        "16777216,16777471,US,United States,California,Los Angeles".to_string(),
        "16777472,16778239,CN,China,Fujian,Fuzhou".to_string(),
    ];
    CachedTable::from_rows(&rows, Columns::full()).expect("rows decode")
}

#[test]
fn test_ip_lookup() {
    let mut db: Database<CachedTable> = Database::new("testdata/test.csv".to_string());
    db.load(two_range_table()).expect("failed to load db");

    let ok = db.lookup(16777472);
    assert_eq!(ok, Ok("CN,Fuzhou".to_string()), "ok test failed");

    let nok = db.lookup(16778940);
    assert!(nok.is_err(), "nok test failed");
}

#[test]
fn containment_scenario_through_session() {
    let mut db: Database<CachedTable> = Database::new("data.csv".to_string());
    let load = db.respond(&Command::Load, Some(Ok(sample_table())));
    assert_eq!(load, Ok("OK".to_string()));
    let hit = db.respond(&Command::Lookup(16777472), None);
    assert_eq!(hit, Ok("CN,Fuzhou".to_string()));
    let third = db.respond(&Command::Lookup(16778940), None);
    assert_eq!(third, Ok("AU,Melbourne".to_string()));
    let miss = db.respond(&Command::Lookup(16779264), None);
    assert_eq!(miss, Err(Error::LookupError));
    assert_eq!(render(&miss), "ERR");
    assert_eq!(render(&hit), "CN,Fuzhou");
}

#[test]
fn range_bounds_are_inclusive() {
    let mut t = sample_table();
    assert_eq!(t.find_ip(16777216), Ok("US,Los Angeles".to_string()));
    assert_eq!(t.find_ip(16777471), Ok("US,Los Angeles".to_string()));
    assert_eq!(t.find_ip(16779263), Ok("AU,Melbourne".to_string()));
    assert_eq!(t.find_ip(16779264), Err(Error::LookupError));
    assert_eq!(t.find_ip(0), Err(Error::LookupError));
}

#[test]
fn first_match_in_source_order_wins() {
    let rows = vec!["10,20,AA,x,y,First".to_string(), "15,25,BB,x,y,Second".to_string()];
    let mut t = CachedTable::from_rows(&rows, Columns::full()).unwrap();
    assert_eq!(t.find_ip(16), Ok("AA,First".to_string()));
    assert_eq!(t.find_ip(22), Ok("BB,Second".to_string()));
}

#[test]
fn empty_table_finds_nothing() {
    let mut t = CachedTable::from_rows(&Vec::new(), Columns::full()).unwrap();
    assert_eq!(t.records().len(), 0);
    assert_eq!(t.find_ip(1), Err(Error::LookupError));
}

#[test]
fn cached_table_skips_short_rows_and_fails_on_bad_bounds() {
    let rows = vec!["".to_string(), "1,5,AA,CityA".to_string()];
    let t = CachedTable::from_rows(&rows, Columns::projected()).unwrap();
    assert_eq!(t.records().len(), 1);
    assert_eq!(t.records()[0].payload, "AA,CityA");

    let bad = vec!["1,5,AA,CityA".to_string(), "x,9,BB,CityB".to_string()];
    assert!(matches!(CachedTable::from_rows(&bad, Columns::projected()), Err(Error::ParseError)));
}

#[test]
fn fresh_session_refuses_lookup() {
    let mut db: Database<CachedTable> = Database::new("data.csv".to_string());
    assert!(!db.is_loaded());
    assert_eq!(db.lookup(0), Err(Error::UnloadedDatabaseError));
    assert_eq!(db.lookup(u32::MAX), Err(Error::UnloadedDatabaseError));
    assert_eq!(db.respond(&Command::Lookup(16777472), None), Err(Error::UnloadedDatabaseError));
    assert!(!db.is_loaded());
}

#[test]
fn load_twice_answers_as_once() {
    let mut once: Database<CachedTable> = Database::new("data.csv".to_string());
    once.load(sample_table()).unwrap();
    let mut twice: Database<CachedTable> = Database::new("data.csv".to_string());
    twice.load(sample_table()).unwrap();
    twice.load(sample_table()).unwrap();
    assert!(twice.is_loaded());
    for a in [16777216u32, 16777472, 16778940, 16779264, 1] {
        assert_eq!(once.lookup(a), twice.lookup(a));
    }
}

#[test]
fn failed_load_passes_the_error_on_and_keeps_the_state() {
    let mut db: Database<CachedTable> = Database::new("missing.csv".to_string());
    let failure = Error::BackendError("No such file or directory".to_string());
    assert_eq!(db.respond(&Command::Load, Some(Err(failure.clone()))), Err(failure.clone()));
    assert!(!db.is_loaded());
    assert_eq!(db.path(), "missing.csv");

    assert_eq!(db.respond(&Command::Load, Some(Ok(sample_table()))), Ok("OK".to_string()));
    assert_eq!(db.respond(&Command::Load, Some(Err(failure.clone()))), Err(failure));
    assert!(db.is_loaded());
    assert_eq!(db.lookup(16777472), Ok("CN,Fuzhou".to_string()));
    let (text, stop) = db.reply(&Command::Load, Some(Err(Error::ParseError)));
    assert_eq!(text, "ERR");
    assert!(!stop);
}

#[test]
fn exit_is_ok_and_ends_the_session() {
    let mut db: Database<CachedTable> = Database::new("data.csv".to_string());
    assert_eq!(db.exit(), "OK");
    let (text, stop) = db.reply(&Command::Exit, None);
    assert_eq!(text, "OK");
    assert!(stop);
    let (text, stop) = db.reply(&Command::Exit, None);
    assert_eq!(text, "OK");
    assert!(stop);
    assert!(!db.is_loaded());
    let (text, stop) = db.reply(&Command::Lookup(1), None);
    assert_eq!(text, "ERR");
    assert!(!stop);
}

#[test]
fn parse_load_and_exit() {
    assert_eq!(Command::parse("LOAD"), Ok(Command::Load));
    assert_eq!(Command::parse("EXIT"), Ok(Command::Exit));
    assert_eq!("EXIT".parse::<Command>(), Ok(Command::Exit));
    assert_eq!(Command::try_from("LOAD".to_string()), Ok(Command::Load));
    assert_eq!("LOOKUP   10.0.0.1  ".parse::<Command>(), Ok(Command::Lookup(167772161)));
    assert_eq!("load".parse::<Command>(), Err(Error::UnsupportedCommand));
    assert_eq!(Command::try_from("LOAD ".to_string()), Err(Error::UnsupportedCommand));
    assert!(Command::Exit.is_exit());
    assert!(!Command::Load.is_exit());
}

#[test]
fn parse_lookup_addresses() {
    assert_eq!(Command::parse("LOOKUP 1.2.3.4"), Ok(Command::Lookup(0x01020304)));
    assert_eq!(Command::parse("LOOKUP 0.0.0.0"), Ok(Command::Lookup(0)));
    assert_eq!(Command::parse("LOOKUP 255.255.255.255"), Ok(Command::Lookup(u32::MAX)));
    assert_eq!(Command::parse("LOOKUP 1.0.1.0"), Ok(Command::Lookup(16777472)));
    assert_eq!(Command::parse("LOOKUP\t10.0.0.1  "), Ok(Command::Lookup(0x0a000001)));
    assert_eq!(Command::parse("LOOKUP1.2.3.4"), Ok(Command::Lookup(0x01020304)));
}

#[test]
fn parse_rejects_other_lines() {
    for line in [
        "", "load", "LOAD ", " EXIT", "EXITS", "LOOKUP", "LOOKUP ", "lookup 1.2.3.4",
        "LOOKUP 1.2.3", "LOOKUP 1.2.3.4.5", "LOOKUP 256.1.1.1", "LOOKUP 01.2.3.4",
        "LOOKUP 1..3.4", "LOOKUP 1.2.3.-4", "LOOKUP +1.2.3.4", "LOOKUP 1.2.3.4x",
        "LOOKUP 1 .2.3.4", "LOOKUP 1000.1.1.1", "LOOKUP 1.2.3.4 5",
    ] {
        assert_eq!(Command::parse(line), Err(Error::UnsupportedCommand), "{line:?}");
    }
}

#[test]
fn dotted_quad_values() {
    assert_eq!(parse_dotted_quad("192.168.0.1"), Some(0xc0a80001));
    assert_eq!(parse_dotted_quad("0.0.0.10"), Some(10));
    assert_eq!(parse_dotted_quad("00.0.0.1"), None);
    assert_eq!(parse_dotted_quad(""), None);
}

#[test]
fn decimal_fields() {
    assert_eq!(parse_u32("0"), Some(0));
    assert_eq!(parse_u32("16777216"), Some(16777216));
    assert_eq!(parse_u32("4294967295"), Some(u32::MAX));
    assert_eq!(parse_u32("4294967296"), None);
    assert_eq!(parse_u32("99999999999999999999"), None);
    assert_eq!(parse_u32(""), None);
    assert_eq!(parse_u32("12a"), None);
    assert_eq!(parse_u32("+1"), None);
}

#[test]
fn text_helpers() {
    assert_eq!(trim_spaces("  a b\t\n"), "a b");
    assert_eq!(trim_spaces("   "), "");
    assert_eq!(split_fields("a,\"b,c\",d", ',', true), vec!["a", "\"b,c\"", "d"]);
    assert_eq!(split_fields("a,\"b,c\",d", ',', false), vec!["a", "\"b", "c\"", "d"]);
    assert_eq!(split_fields("", '.', false), vec![""]);
    assert_eq!(unquote("\"US\""), "US");
    assert_eq!(unquote("\""), "\"");
    assert_eq!(unquote("US"), "US");
}

#[test]
fn quoted_rows_decode() {
    let line = "\"16777216\",\"16777471\",\"US\",\"United States of America\",\"California\",\"Los Angeles\",\"34.05\",\"-118.24\"";
    let rec = parse_row(line, Columns::full()).unwrap().unwrap();
    assert_eq!(rec.start, 16777216);
    assert_eq!(rec.end, 16777471);
    assert_eq!(rec.payload, "US,Los Angeles");

    let comma = "\"1\",\"2\",\"KR\",\"Korea, Republic of\",\"Seoul\",\"Seoul\"";
    let rec = parse_row(comma, Columns::full()).unwrap().unwrap();
    assert_eq!(rec.payload, "KR,Seoul");
}

#[test]
fn row_decoding_outcomes() {
    assert!(matches!(parse_row("", Columns::full()), Ok(None)));
    assert!(matches!(parse_row("12345", Columns::full()), Ok(None)));
    assert!(matches!(parse_row("1,x,US,a,b,c", Columns::full()), Err(Error::ParseError)));
    assert!(matches!(parse_row("1,2,US", Columns::full()), Err(Error::ParseError)));
    assert!(matches!(parse_row("1,2,US,City", Columns::projected()), Ok(Some(_))));
}

fn stream_rows() -> Vec<String> {
    vec![
        "0,9,AA,x,y,Zero".to_string(),
        "10,19,BB,x,y,Ten".to_string(),
        "20,29,CC,x,y,Twenty".to_string(),
    ]
}

#[test]
fn streaming_resumes_after_last_hit() {
    let mut s = StreamingScan::open(stream_rows(), Columns::full());
    assert_eq!(s.position(), 0);
    assert_eq!(s.find_ip(15), Ok("BB,Ten".to_string()));
    assert_eq!(s.position(), 2);
    assert_eq!(s.find_ip(25), Ok("CC,Twenty".to_string()));
    assert_eq!(s.position(), 3);
    assert_eq!(s.find_ip(5), Ok("AA,Zero".to_string()));
    assert_eq!(s.position(), 1);
    assert_eq!(s.find_ip(3), Ok("AA,Zero".to_string()));
    assert_eq!(s.position(), 1);
}

#[test]
fn streaming_miss_keeps_the_cursor() {
    let mut s = StreamingScan::open(stream_rows(), Columns::full());
    assert_eq!(s.find_ip(12), Ok("BB,Ten".to_string()));
    assert_eq!(s.find_ip(100), Err(Error::LookupError));
    assert_eq!(s.position(), 2);
    let mut e = StreamingScan::open(Vec::new(), Columns::full());
    assert_eq!(e.find_ip(1), Err(Error::LookupError));
    assert_eq!(e.position(), 0);
}

#[test]
fn streaming_skips_short_rows_and_stops_on_bad_ones() {
    let rows = vec![
        "".to_string(),
        "0,9,AA,x,y,Zero".to_string(),
        "a,b,BB,x,y,Bad".to_string(),
        "20,29,CC,x,y,Twenty".to_string(),
    ];
    let mut s = StreamingScan::open(rows, Columns::full());
    assert_eq!(s.find_ip(5), Ok("AA,Zero".to_string()));
    assert_eq!(s.find_ip(25), Err(Error::ParseError));
    assert_eq!(s.position(), 3);
    assert_eq!(s.find_ip(25), Ok("CC,Twenty".to_string()));
    s.rewind();
    assert_eq!(s.position(), 0);
}

#[test]
fn streaming_session_scenario() {
    let rows = vec![
        "16777216,16777471,US,United States,California,Los Angeles".to_string(),
        "16777472,16778239,CN,China,Fujian,Fuzhou".to_string(),
        "16778240,16779263,AU,Australia,Victoria,Melbourne".to_string(),
    ];
    let mut db: Database<StreamingScan> = Database::new("data.csv".to_string());
    let scan = StreamingScan::open(rows, Columns::full());
    assert_eq!(db.respond(&Command::Load, Some(Ok(scan))), Ok("OK".to_string()));
    assert_eq!(db.respond(&Command::Lookup(16777472), None), Ok("CN,Fuzhou".to_string()));
    assert_eq!(db.respond(&Command::Lookup(16778940), None), Ok("AU,Melbourne".to_string()));
    assert_eq!(db.respond(&Command::Lookup(16779264), None), Err(Error::LookupError));
    assert_eq!(db.respond(&Command::Lookup(16777300), None), Ok("US,Los Angeles".to_string()));
}

#[test]
fn delegated_rows_decode() {
    let row = Ok(Some((b"CN".to_vec(), b"Fuzhou".to_vec())));
    assert_eq!(answer_of_row(row), Ok("CN,Fuzhou".to_string()));
    let accented = Ok(Some((b"FR".to_vec(), "Orl\u{e9}ans".as_bytes().to_vec())));
    assert_eq!(answer_of_row(accented), Ok("FR,Orl\u{e9}ans".to_string()));
    assert_eq!(answer_of_row(Ok(None)), Err(Error::LookupError));
    let bad = Ok(Some((vec![0xffu8, 0xfe], b"City".to_vec())));
    assert_eq!(answer_of_row(bad), Err(Error::ParseError));
    let failed = Err("database is locked".to_string());
    assert_eq!(answer_of_row(failed), Err(Error::BackendError("database is locked".to_string())));
}
