use chrono::{DateTime, TimeZone, Utc};
use influxdb::query::line_proto_term::LineProtoTerm::{FieldValue, Measurement, TagKey, TagValue};
use influxdb::{InfluxDbWriteable, Query, QueryType, Timestamp, Type, ValidQuery, WriteQuery};

#[test]
fn mod_test_equality_str() {
    assert_eq!(ValidQuery::from("hello"), "hello");
}

#[test]
fn mod_test_equality_string() {
    assert_eq!(
        ValidQuery::from(String::from("hello")),
        String::from("hello")
    );
}

#[test]
fn mod_test_format_for_timestamp_else() {
    assert!(Timestamp::Nanoseconds(100).to_text() == "100");
}

#[test]
fn read_query_test_read_builder_single_query() {
    let query = influxdb::ReadQuery::new("SELECT * FROM aachen").build();

    assert_eq!(query.unwrap(), "SELECT * FROM aachen");
}

#[test]
fn read_query_test_read_builder_multi_query() {
    let query = influxdb::ReadQuery::new("SELECT * FROM aachen")
        .add_query("SELECT * FROM cologne")
        .build();

    assert_eq!(query.unwrap(), "SELECT * FROM aachen;SELECT * FROM cologne");
}

#[test]
fn read_query_test_correct_query_type() {
    let query = influxdb::ReadQuery::new("SELECT * FROM aachen");

    assert_eq!(query.get_type(), QueryType::ReadQuery);
}

#[test]
fn test_equality_str() {
    assert_eq!(ValidQuery::from("hello"), "hello");
}

#[test]
fn test_equality_string() {
    assert_eq!(
        ValidQuery::from(String::from("hello")),
        String::from("hello")
    );
}

#[test]
fn test_format_for_timestamp_else() {
    assert!(Timestamp::Nanoseconds(100).to_text() == "100");
}

#[test]
fn test_read_builder_single_query() {
    let query = influxdb::raw_read_query("SELECT * FROM aachen").build();

    assert_eq!(query.unwrap(), "SELECT * FROM aachen");
}

#[test]
fn test_read_builder_multi_query() {
    let query = influxdb::raw_read_query("SELECT * FROM aachen")
        .add_query("SELECT * FROM cologne")
        .build();

    assert_eq!(query.unwrap(), "SELECT * FROM aachen;SELECT * FROM cologne");
}

#[test]
fn test_correct_query_type() {
    let query = influxdb::raw_read_query("SELECT * FROM aachen");

    assert_eq!(query.get_type(), QueryType::ReadQuery);
}

#[test]
fn write_query_test_write_builder_empty_query() {
    let query = Timestamp::Hours(5)
        .into_query("marina_3")
        .build();

    assert!(query.is_err(), "Query was not empty");
}

#[test]
fn write_query_test_write_builder_single_field() {
    let query = Timestamp::Hours(11)
        .into_query("weather")
        .add_field("temperature", Type::SignedInteger(82))
        .build();

    assert!(query.is_ok(), "Query was empty");
    assert_eq!(query.unwrap(), "weather temperature=82i 11");
}

#[test]
fn write_query_test_write_builder_multiple_fields() {
    let query = Timestamp::Hours(11)
        .into_query("weather")
        .add_field("temperature", Type::SignedInteger(82))
        .add_field("wind_strength", Type::Float(3.7f64.to_string()))
        .add_field("temperature_unsigned", Type::UnsignedInteger(82u64))
        .build();

    assert!(query.is_ok(), "Query was empty");
    assert_eq!(
        query.unwrap(),
        "weather temperature=82i,wind_strength=3.7,temperature_unsigned=82i 11"
    );
}

#[test]
fn test_write_builder_multiple_fields_with_v2() {
    let query = Timestamp::Hours(11)
        .into_query("weather")
        .add_field("temperature", Type::SignedInteger(82))
        .add_field("wind_strength", Type::Float(3.7f64.to_string()))
        .add_field("temperature_unsigned", Type::UnsignedInteger(82u64))
        .build_with_opts(true);

    assert!(query.is_ok(), "Query was empty");
    assert_eq!(
        query.unwrap(),
        "weather temperature=82i,wind_strength=3.7,temperature_unsigned=82u 11"
    );
}

#[test]
fn test_write_builder_optional_fields() {
    let query = Timestamp::Hours(11)
        .into_query("weather")
        .add_field("temperature", Type::UnsignedInteger(82u64))
        .add_tag_opt("wind_strength", None)
        .build();

    assert!(query.is_ok(), "Query was empty");
    assert_eq!(query.unwrap(), "weather temperature=82i 11");
}

#[test]
fn test_write_builder_optional_fields_with_v2() {
    let query = Timestamp::Hours(11)
        .into_query("weather")
        .add_field("temperature", Type::UnsignedInteger(82u64))
        .add_tag_opt("wind_strength", None)
        .build_with_opts(true);

    assert!(query.is_ok(), "Query was empty");
    assert_eq!(query.unwrap(), "weather temperature=82u 11");
}

#[test]
fn write_query_test_write_builder_only_tags() {
    let query = Timestamp::Hours(11)
        .into_query("weather")
        .add_tag("season", Type::Text("summer".into()))
        .build();

    assert!(query.is_err(), "Query missing one or more fields");
}

#[test]
fn write_query_test_write_builder_full_query() {
    let query = Timestamp::Hours(11)
        .into_query("weather")
        .add_field("temperature", Type::SignedInteger(82))
        .add_tag("location", Type::Text("us-midwest".into()))
        .add_tag("season", Type::Text("summer".into()))
        .build();

    assert!(query.is_ok(), "Query was empty");
    assert_eq!(
        query.unwrap(),
        r#"weather,location=us-midwest,season=summer temperature=82i 11"#
    );
}

#[test]
fn write_query_test_correct_query_type() {
    let query = Timestamp::Hours(11)
        .into_query("weather")
        .add_field("temperature", Type::SignedInteger(82))
        .add_tag("location", Type::Text("us-midwest".into()))
        .add_tag("season", Type::Text("summer".into()));

    assert_eq!(query.get_type(), QueryType::WriteQuery("h".to_owned()));
}

#[test]
fn test_escaping() {
    let query = Timestamp::Hours(11)
        .into_query("wea, ther=")
        .add_field("temperature", Type::SignedInteger(82))
        .add_field("\"temp=era,t ure\"", Type::Text(r#"too"\\hot"#.into()))
        .add_field("float", Type::Float(82.0f64.to_string()))
        .add_tag("location", Type::Text("us-midwest".into()))
        .add_tag("loc, =\"ation", Type::Text(r#"us, "mid=west"#.into()))
        .build();

    assert!(query.is_ok(), "Query was empty");
    let query_res = query.unwrap().get();
    assert_eq!(
        query_res,
        r#"wea\,\ ther=,location=us-midwest,loc\,\ \="ation=us\,\ \"mid\=west temperature=82i,"temp\=era\,t\ ure"="too\"\\\\hot",float=82 11"#
    );
}

#[test]
fn test_batch() {
    let q0 = Timestamp::Hours(11)
        .into_query("weather")
        .add_field("temperature", Type::SignedInteger(82))
        .add_tag("location", Type::Text("us-midwest".into()));

    let q1 = Timestamp::Hours(12)
        .into_query("weather")
        .add_field("temperature", Type::SignedInteger(65))
        .add_tag("location", Type::Text("us-midwest".into()));

    let query = vec![q0, q1].build();

    assert_eq!(
        query.unwrap().get(),
        "weather,location=us-midwest temperature=82i 11\nweather,location=us-midwest temperature=65i 12"
    );
}

#[test]
fn test_batch_is_lines_joined_by_newline() {
    let q0 = Timestamp::Seconds(1)
        .into_query("m")
        .add_field("f", Type::SignedInteger(1));
    let q1 = Timestamp::Seconds(2)
        .into_query("m")
        .add_field("f", Type::SignedInteger(2));

    let line0 = q0.clone().build().unwrap().get();
    let line1 = q1.clone().build().unwrap().get();
    let batch = vec![q0, q1].build().unwrap().get();

    assert_eq!(batch, format!("{}\n{}", line0, line1));
}

#[test]
fn test_batch_empty_precision_placeholder() {
    let queries: Vec<WriteQuery> = vec![];
    assert_eq!(queries.get_type(), QueryType::WriteQuery("ms".to_owned()));
    assert_eq!(queries.build().unwrap(), "");
}

#[test]
fn test() {
    assert_eq!(TagValue(&Type::Boolean(true)).escape(), r#"true"#);
    assert_eq!(TagValue(&Type::Float(1.8324f64.to_string())).escape(), r#"1.8324"#);
    assert_eq!(TagValue(&Type::SignedInteger(-1i64)).escape(), r#"-1"#);
    assert_eq!(TagValue(&Type::UnsignedInteger(1u64)).escape(), r#"1"#);

    assert_eq!(
        TagValue(&Type::Text("this is my special string".into())).escape(),
        r"this\ is\ my\ special\ string"
    );
    assert_eq!(
        TagValue(&Type::Text("a tag w=i th == tons of escapes".into())).escape(),
        r"a\ tag\ w\=i\ th\ \=\=\ tons\ of\ escapes"
    );
    assert_eq!(
        TagValue(&Type::Text("no_escapes".into())).escape(),
        r#"no_escapes"#
    );
    assert_eq!(
        TagValue(&Type::Text("some,commas,here".into())).escape(),
        r"some\,commas\,here"
    );

    assert_eq!(Measurement(r#"wea", ther"#).escape(), r#"wea"\,\ ther"#);
    assert_eq!(TagKey(r"locat\ ,=ion").escape(), r"locat\\ \,\=ion");

    assert_eq!(FieldValue(&Type::Boolean(true)).escape(), r#"true"#);
    assert_eq!(FieldValue(&Type::Boolean(false)).escape(), r#"false"#);

    assert_eq!(FieldValue(&Type::Float(0.0f64.to_string())).escape(), r#"0"#);
    assert_eq!(FieldValue(&Type::Float((-0.1f64).to_string())).escape(), r#"-0.1"#);

    assert_eq!(FieldValue(&Type::SignedInteger(0)).escape(), r#"0i"#);
    assert_eq!(FieldValue(&Type::SignedInteger(83)).escape(), r#"83i"#);

    assert_eq!(FieldValue(&Type::UnsignedInteger(0)).escape(), r#"0i"#);
    assert_eq!(FieldValue(&Type::UnsignedInteger(83)).escape(), r#"83i"#);

    assert_eq!(FieldValue(&Type::UnsignedInteger(0)).escape_v2(), r#"0u"#);
    assert_eq!(FieldValue(&Type::UnsignedInteger(83)).escape_v2(), r#"83u"#);

    assert_eq!(FieldValue(&Type::Text("".into())).escape(), r#""""#);
    assert_eq!(FieldValue(&Type::Text("0".into())).escape(), r#""0""#);
    assert_eq!(FieldValue(&Type::Text("\"".into())).escape(), r#""\"""#);
    assert_eq!(
        FieldValue(&Type::Text(r#"locat"\ ,=ion"#.into())).escape(),
        r#""locat\"\\ ,=ion""#
    );
}

#[test]
fn test_empty_tag_value() {
    // InfluxDB doesn't support empty tag values. But that's a job
    // of a calling site to validate an entire write request.
    assert_eq!(TagValue(&Type::Text("".into())).escape(), r#""#);
}

#[test]
fn test_signed_suffix_is_mode_independent() {
    assert_eq!(FieldValue(&Type::SignedInteger(-1)).escape(), "-1i");
    assert_eq!(FieldValue(&Type::SignedInteger(-1)).escape_v2(), "-1i");
}

#[test]
fn test_escape_marks_each_reserved_character() {
    assert_eq!(TagKey("a b,c=d").escape(), r"a\ b\,c\=d");
    assert_eq!(Measurement("a b").escape(), r"a\ b");
}

#[test]
fn test_escape_not_idempotent_in_general() {
    let once = Measurement("a,b").escape();
    assert_eq!(once, r"a\,b");
    let twice = Measurement(once.as_str()).escape();
    assert_eq!(twice, r"a\\,b");

    let clean = Measurement("ab").escape();
    assert_eq!(clean, "ab");
    assert_eq!(Measurement(clean.as_str()).escape(), "ab");
}

#[test]
fn test_round_trip_split_on_spaces() {
    let line = Timestamp::Seconds(99)
        .into_query("m")
        .add_tag("t", Type::Text("v".into()))
        .add_field("f", Type::SignedInteger(1))
        .build()
        .unwrap()
        .get();
    assert_eq!(line, "m,t=v f=1i 99");

    let first = line.find(' ').unwrap();
    let last = line.rfind(' ').unwrap();
    assert_eq!(&line[..first], "m,t=v");
    assert_eq!(&line[first + 1..last], "f=1i");
    assert_eq!(&line[last + 1..], "99");
}

#[test]
fn test_type_raw_text() {
    assert_eq!(Type::Boolean(true).to_text(), "true");
    assert_eq!(Type::Boolean(false).to_text(), "false");
    assert_eq!(Type::Float(1.5f64.to_string()).to_text(), "1.5");
    assert_eq!(Type::SignedInteger(-3).to_text(), "-3");
    assert_eq!(Type::UnsignedInteger(7).to_text(), "7");
    assert_eq!(Type::Text("plain text".into()).to_text(), "plain text");
}

#[test]
fn test_timestamp_nanos() {
    assert_eq!(Timestamp::Hours(2).nanos(), 7_200_000_000_000u128);
    assert_eq!(Timestamp::Minutes(2).nanos(), 120_000_000_000u128);
    assert_eq!(Timestamp::Seconds(2).nanos(), 2_000_000_000u128);
    assert_eq!(Timestamp::Milliseconds(2).nanos(), 2_000_000u128);
    assert_eq!(Timestamp::Microseconds(2).nanos(), 2_000u128);
    assert_eq!(Timestamp::Nanoseconds(1).nanos(), 1u128);
}

#[test]
fn test_timestamp_checked_nanos_overflow() {
    assert_eq!(Timestamp::Hours(1).checked_nanos(), Some(3_600_000_000_000u128));
    assert_eq!(Timestamp::Hours(u128::MAX).checked_nanos(), None);
    assert_eq!(Timestamp::Nanoseconds(u128::MAX).checked_nanos(), Some(u128::MAX));
}

#[test]
fn test_precision_tokens() {
    assert_eq!(Timestamp::Nanoseconds(0).precision(), "ns");
    assert_eq!(Timestamp::Microseconds(0).precision(), "u");
    assert_eq!(Timestamp::Milliseconds(0).precision(), "ms");
    assert_eq!(Timestamp::Seconds(0).precision(), "s");
    assert_eq!(Timestamp::Minutes(0).precision(), "m");
    assert_eq!(Timestamp::Hours(0).precision(), "h");

    let query = Timestamp::Seconds(5)
        .into_query("m")
        .add_field("f", Type::Boolean(true));
    assert_eq!(query.get_precision(), "s");
}

#[derive(Debug, PartialEq)]
struct WeatherReading {
    time: DateTime<Utc>,
    humidity: i32,
    pressure: i32,
    wind_strength: Option<u64>,
}

impl InfluxDbWriteable for WeatherReading {
    type Error = influxdb::Error;

    fn try_into_query(self, name: &str) -> Result<WriteQuery, Self::Error> {
        let timestamp = Timestamp::Nanoseconds(self.time.timestamp_nanos_opt().unwrap() as u128);
        // `humidity` is deliberately left off the wire.
        Ok(timestamp
            .into_query(name)
            .add_tag_opt("wind_strength", self.wind_strength.map(Type::UnsignedInteger))
            .add_field("pressure", Type::SignedInteger(self.pressure as i64)))
    }
}

#[test]
fn test_build_query() {
    let weather_reading = WeatherReading {
        time: Utc.timestamp_nanos(Timestamp::Hours(1).nanos() as i64),
        humidity: 30,
        pressure: 100,
        wind_strength: Some(5),
    };
    let query = weather_reading.try_into_query("weather_reading").unwrap();
    let query = query.build().unwrap();
    assert_eq!(
        query.get(),
        "weather_reading,wind_strength=5 pressure=100i 3600000000000"
    );
}

#[test]
fn test_free_builder_functions() {
    let wq = influxdb::write_query(Timestamp::Hours(3), "m").add_field("f", Type::Boolean(false));
    assert_eq!(wq.build().unwrap(), "m f=false 3");

    let rq = influxdb::raw_read_query("SELECT * FROM weather");
    assert_eq!(rq.build().unwrap(), "SELECT * FROM weather");
}
