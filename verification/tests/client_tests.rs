use influxdb::compat::{
    InfluxDbClient, InfluxDbQuery, InfluxDbType, InfluxDbWriteQuery, Timestamp as CompatTimestamp,
};
use influxdb::{check_database_error, check_status, Client, Error, InfluxVersion1};

#[test]
fn mod_test_fn_database() {
    let client: Client<InfluxVersion1> = Client::new("http://localhost:8068", "database");
    assert_eq!(client.database_name(), "database");
    assert_eq!(client.database_url(), "http://localhost:8068");
}

#[test]
fn mod_test_with_auth() {
    let client: Client<InfluxVersion1> = Client::new("http://localhost:8068", "database");
    assert_eq!(client.parameters.len(), 1);
    assert_eq!(
        client.parameters.iter().find(|p| p.0 == "db").map(|p| p.1.as_str()),
        Some("database")
    );

    let with_auth = client.with_auth("username", "password");
    assert_eq!(with_auth.parameters.len(), 3);
    assert_eq!(
        with_auth.parameters.iter().find(|p| p.0 == "db").map(|p| p.1.as_str()),
        Some("database")
    );
    assert_eq!(
        with_auth.parameters.iter().find(|p| p.0 == "u").map(|p| p.1.as_str()),
        Some("username")
    );
    assert_eq!(
        with_auth.parameters.iter().find(|p| p.0 == "p").map(|p| p.1.as_str()),
        Some("password")
    );

    let client: Client<InfluxVersion1> = Client::new("http://localhost:8068", "database");
    let with_token = client.with_token("token");
    assert_eq!(with_token.parameters.len(), 1);
    assert_eq!(with_token.token.unwrap(), "token");
}

#[test]
fn test_fn_database() {
    let client: Client<InfluxVersion1> = Client::new("http://localhost:8068", "database");
    assert_eq!("database", client.database_name());
}

#[test]
fn test_with_auth() {
    let client: Client<InfluxVersion1> = Client::new("http://localhost:8068", "database");
    assert_eq!(client.url, "http://localhost:8068");
    assert!(client.token.is_none());
    assert!(client.parameters.iter().all(|p| p.0 != "u" && p.0 != "p"));

    let with_auth = client.with_auth("username", "password");
    assert_eq!(
        with_auth.parameters.iter().find(|p| p.0 == "u").map(|p| p.1.as_str()),
        Some("username")
    );
    assert_eq!(
        with_auth.parameters.iter().find(|p| p.0 == "p").map(|p| p.1.as_str()),
        Some("password")
    );
}

#[test]
fn test_with_auth_twice_overwrites() {
    let client: Client<InfluxVersion1> = Client::new("http://localhost:8068", "database");
    let client = client.with_auth("first", "one").with_auth("second", "two");
    assert_eq!(client.parameters.len(), 3);
    assert_eq!(
        client.parameters.iter().find(|p| p.0 == "u").map(|p| p.1.as_str()),
        Some("second")
    );
    assert_eq!(
        client.parameters.iter().find(|p| p.0 == "p").map(|p| p.1.as_str()),
        Some("two")
    );
}

#[test]
fn test_with_http_client_swaps_handle() {
    let client: Client<InfluxVersion1> = Client::new("http://localhost:8086", "test");
    let client = client.with_http_client(());
    assert_eq!(client.database_name(), "test");
}

#[test]
fn test_read_query_route() {
    assert!(influxdb::read_query_uses_get("SELECT * FROM weather"));
    assert!(influxdb::read_query_uses_get("SHOW MEASUREMENTS"));
    assert!(!influxdb::read_query_uses_get("select * from weather"));
    assert!(!influxdb::read_query_uses_get("DROP MEASUREMENT weather"));
}

#[test]
fn test_auth_header() {
    let client: Client<InfluxVersion1> = Client::new("http://localhost:8086", "test");
    assert!(client.auth_header().is_none());
    let client = client.with_token("abc");
    assert_eq!(client.auth_header().unwrap(), "Token abc");
}

#[test]
fn test_check_status_bounds() {
    assert!(check_status(200).is_ok());
    assert!(check_status(299).is_ok());
    assert_eq!(check_status(404), Err(Error::ApiError(404)));
    assert_eq!(check_status(199), Err(Error::ApiError(199)));
    assert_eq!(check_status(500), Err(Error::ApiError(500)));
}

#[test]
fn test_check_database_error_sniffs_both_spellings() {
    assert!(check_database_error("all fine here").is_ok());
    let err = check_database_error(r#"{"error": "boom"}"#).unwrap_err();
    assert_eq!(
        err,
        Error::DatabaseError {
            error: r#"influxdb error: {"error": "boom"}"#.into()
        }
    );
    assert!(check_database_error(r#"{"Error": "boom"}"#).is_err());
}

#[test]
fn test_error_messages() {
    assert_eq!(
        Error::InvalidQueryError { error: "no fields".into() }.message(),
        "query is invalid: no fields"
    );
    assert_eq!(
        Error::ApiError(404).message(),
        "API error with a status code: 404"
    );
    assert_eq!(
        Error::ConnectionError { error: "refused".into() }.message(),
        "connection error: refused"
    );
    assert_eq!(
        Error::DatabaseError { error: "boom".into() }.message(),
        "InfluxDB encountered the following error: boom"
    );
    assert_eq!(
        Error::UrlConstructionError { error: "bad".into() }.message(),
        "Failed to build URL: bad"
    );
    assert_eq!(
        Error::ProtocolError { error: "cut".into() }.message(),
        "http protocol error: cut"
    );
    assert_eq!(
        Error::DeserializationError { error: "shape".into() }.message(),
        "http protocol error: shape"
    );
}

#[test]
fn test_format_for_timestamp_now() {
    assert!(CompatTimestamp::Now.to_text() == "");
}

#[test]
fn main_test_write_builder_empty_query() {
    let query = InfluxDbQuery::write("marina_3").build();

    assert!(query.is_err(), "Query was not empty");
}

#[test]
fn main_test_write_builder_single_field() {
    let query = InfluxDbQuery::write("marina_3")
        .add_field("water_level", "2")
        .build();

    assert!(query.is_ok(), "Query was empty");
    assert_eq!(query.unwrap(), "marina_3, water_level=2 time");
}

#[test]
fn main_test_write_builder_multiple_fields() {
    let query = InfluxDbQuery::write("marina_3")
        .add_field("water_level", "2")
        .add_field("boat_count", "31")
        .add_field("algae_content", "0.85")
        .build();

    assert!(query.is_ok(), "Query was empty");
    assert_eq!(
        query.unwrap(),
        "marina_3, water_level=2,boat_count=31,algae_content=0.85 time"
    );
}

#[test]
fn main_test_write_builder_only_tags() {
    let query = InfluxDbQuery::write("marina_3")
        .add_tag("marina_manager", "Smith")
        .build();

    assert!(query.is_err(), "Query missing one or more fields");
}

#[test]
fn main_test_write_builder_full_query() {
    let query = InfluxDbQuery::write("marina_3")
        .add_field("water_level", "2")
        .add_field("boat_count", "31")
        .add_field("algae_content", "0.85")
        .add_tag("marina_manager", "Smith")
        .add_tag("manager_to_the_marina_manager", "Jonson")
        .build();

    assert!(query.is_ok(), "Query was empty");
    assert_eq!(
        query.unwrap(),
        "marina_3,marina_manager=Smith,manager_to_the_marina_manager=Jonson water_level=2,boat_count=31,algae_content=0.85 time"
    );
}

#[test]
fn test_prefixed_write_builder() {
    let query = InfluxDbWriteQuery::new(CompatTimestamp::Hours(11), "weather")
        .add_field("temperature", InfluxDbType::SignedInteger(82))
        .build();

    assert!(query.is_ok(), "Query was empty");
    assert_eq!(query.unwrap(), "weather temperature=82 11");
}

#[test]
fn test_prefixed_write_builder_quotes_text() {
    let query = InfluxDbWriteQuery::new(CompatTimestamp::Hours(11), "weather")
        .add_field("temperature", InfluxDbType::SignedInteger(82))
        .add_tag("location", InfluxDbType::Text("us-midwest".into()))
        .add_tag("season", InfluxDbType::Text("summer".into()))
        .build();

    assert!(query.is_ok(), "Query was empty");
    assert_eq!(
        query.unwrap(),
        "weather,location=\"us-midwest\",season=\"summer\" temperature=82 11"
    );
}

#[test]
fn test_prefixed_write_builder_now_has_no_literal() {
    let query = InfluxDbWriteQuery::new(CompatTimestamp::Now, "weather")
        .add_field("temperature", InfluxDbType::Float(82.0f64.to_string()))
        .build();

    assert_eq!(query.unwrap(), "weather temperature=82");
}

#[test]
fn test_get_precision_modifier() {
    let now = InfluxDbWriteQuery::new(CompatTimestamp::Now, "weather");
    assert_eq!(now.get_precision_modifier(), "");

    let hours = InfluxDbWriteQuery::new(CompatTimestamp::Hours(11), "weather");
    assert_eq!(hours.get_precision_modifier(), "&precision=h");

    let millis = InfluxDbWriteQuery::new(CompatTimestamp::Milliseconds(11), "weather");
    assert_eq!(millis.get_precision_modifier(), "&precision=ms");
}

#[test]
fn test_prefixed_read_query() {
    let query = influxdb::compat::InfluxDbReadQuery::new("SELECT * FROM aachen")
        .add_query("SELECT * FROM cologne");
    assert_eq!(query.queries.len(), 2);
    assert_eq!(query.queries[0], "SELECT * FROM aachen");
    assert_eq!(query.queries[1], "SELECT * FROM cologne");
}

#[test]
fn test_prefixed_client() {
    let client = InfluxDbClient::new("http://localhost:8086", "test");
    assert_eq!(client.url, "http://localhost:8086");
    assert_eq!(client.database, "test");
}
