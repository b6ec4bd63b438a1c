use data_feed::alpha_vantage::AlphaVantageDataFeed;
use data_feed::decimal::{parse_decimal, Decimal};
use data_feed::error::{FeedError, Field};
use data_feed::json::Json;
use data_feed::local_time::LocalDateTime;
use data_feed::price_point::PricePoint;
use data_feed::response::RawRecord;
use data_feed::series::{assemble, Update};
use data_feed::traits::DataFeed;
use data_feed::zone::{Instant, Resolution, Zone};

fn float(number: &Decimal) -> f64 {
    number.to_text().parse().expect("a float")
}

fn feed() -> AlphaVantageDataFeed {
    AlphaVantageDataFeed::new(String::from("demo"))
}

fn response(zone: &str, records: &[(&str, &str)]) -> String {
    let series: Vec<String> =
        records.iter().map(|(key, fields)| format!("{:?}: {}", key, fields)).collect();
    format!(
        "{{\"Meta Data\": {{\"6. Time Zone\": {:?}}}, \"Time Series (5min)\": {{{}}}}}",
        zone,
        series.join(", ")
    )
}

const PLAIN: &str = r#"{"1. open": "1.5", "2. high": "2.5", "3. low": "0.5", "4. close": "2", "5. volume": "10"}"#;
const MIXED: &str = r#"{"open": "190.12", "high": 191.0, "low": "189.50", "close": 190.80, "volume": "1000000"}"#;

#[test]
fn the_feed_keeps_its_key() {
    let feed = AlphaVantageDataFeed::new(String::from("abc123"));
    assert_eq!(feed.apikey, "abc123");
}

#[test]
fn the_address_holds_the_symbol_and_the_key() {
    let feed = AlphaVantageDataFeed::new(String::from("abc123"));
    assert_eq!(
        feed.request_url("IBM"),
        "https://www.alphavantage.co/query?function=TIME_SERIES_INTRADAY&symbol=IBM&interval=5min&apikey=abc123"
    );
    assert_eq!(
        AlphaVantageDataFeed::new(String::new()).request_url(""),
        "https://www.alphavantage.co/query?function=TIME_SERIES_INTRADAY&symbol=&interval=5min&apikey="
    );
}

#[test]
fn a_record_in_the_spring_gap_is_left_out_and_its_sibling_kept() {
    let text = response(
        "US/Eastern",
        &[("2024-03-10 02:30:00", PLAIN), ("2024-03-10 09:30:00", MIXED)],
    );
    let update = feed().update(&text).expect("an update");
    assert_eq!(update.prices.len(), 1);
    let point = &update.prices[0];
    assert_eq!(float(&point.open), 19012e-2);
    assert_eq!(float(&point.high), 1910e-1);
    assert_eq!(float(&point.low), 18950e-2);
    assert_eq!(float(&point.close), 1908e-1);
    assert_eq!(point.volume, 1000000);
    assert_eq!(point.timestamp.instant, Instant { utc_seconds: 1710077400, offset_seconds: -14400 });
    assert_eq!(point.timestamp.zone.name(), "US/Eastern");
    assert_eq!(update.dropped.len(), 1);
    assert_eq!(update.dropped[0].timestamp, "2024-03-10 02:30:00");
    assert_eq!(update.dropped[0].resolution, Resolution::Missing);
}

#[test]
fn a_response_of_one_record_in_the_gap_gives_no_points_and_one_note() {
    let text = response("US/Eastern", &[("2024-03-10 02:30:00", MIXED)]);
    let update = feed().update(&text).expect("an update");
    assert!(update.prices.is_empty());
    assert_eq!(update.dropped.len(), 1);
}

#[test]
fn a_record_in_the_autumn_fold_is_left_out_with_both_its_instants() {
    let text = response(
        "US/Eastern",
        &[
            ("2024-11-03 00:55:00", PLAIN),
            ("2024-11-03 01:30:00", MIXED),
            ("2024-11-03 02:00:00", PLAIN),
        ],
    );
    let update = feed().update(&text).expect("an update");
    assert_eq!(update.prices.len(), 2);
    assert_eq!(update.prices[0].timestamp.instant.utc_seconds, 1730609700);
    assert_eq!(update.prices[0].timestamp.instant.offset_seconds, -14400);
    assert_eq!(update.prices[1].timestamp.instant.utc_seconds, 1730617200);
    assert_eq!(update.prices[1].timestamp.instant.offset_seconds, -18000);
    for point in &update.prices {
        assert_ne!(point.timestamp.instant.utc_seconds, 1730611800);
        assert_ne!(point.timestamp.instant.utc_seconds, 1730615400);
        assert_eq!(float(&point.open), 15e-1);
    }
    assert_eq!(update.dropped.len(), 1);
    assert_eq!(update.dropped[0].timestamp, "2024-11-03 01:30:00");
    assert_eq!(
        update.dropped[0].resolution,
        Resolution::Ambiguous(
            Instant { utc_seconds: 1730611800, offset_seconds: -14400 },
            Instant { utc_seconds: 1730615400, offset_seconds: -18000 },
        )
    );
}

#[test]
fn points_and_notes_together_are_as_many_as_the_records() {
    let keys = [
        "2024-03-10 01:55:00", "2024-03-10 02:00:00", "2024-03-10 02:05:00",
        "2024-03-10 02:55:00", "2024-03-10 03:00:00", "2024-11-03 00:30:00",
        "2024-11-03 01:00:00", "2024-11-03 01:59:59", "2024-11-03 02:00:00",
        "2024-07-04 12:00:00",
    ];
    let records: Vec<(&str, &str)> = keys.iter().map(|key| (*key, PLAIN)).collect();
    let update = feed().update(&response("US/Eastern", &records)).expect("an update");
    assert_eq!(update.prices.len(), 5);
    assert_eq!(update.dropped.len(), 5);
    assert_eq!(update.prices.len(), keys.len() - update.dropped.len());
    let update = feed().update(&response("UTC", &records)).expect("an update");
    assert_eq!(update.prices.len(), 10);
    assert!(update.dropped.is_empty());
}

#[test]
fn an_empty_series_gives_an_empty_update() {
    let update = feed().update(&response("US/Eastern", &[])).expect("an update");
    assert!(update.prices.is_empty());
    assert!(update.dropped.is_empty());
}

#[test]
fn a_response_without_its_time_series_fails_whole() {
    let text = r#"{"Meta Data": {"6. Time Zone": "US/Eastern"}}"#;
    assert!(matches!(feed().update(text), Err(FeedError::UnrecognizedResponseShape)));
}

#[test]
fn a_time_zone_that_is_not_known_fails_whole() {
    let text = response("Not/AZone", &[("2024-03-10 09:30:00", MIXED)]);
    match feed().update(&text) {
        Err(FeedError::UnknownTimezone { name }) => assert_eq!(name, "Not/AZone"),
        _ => panic!("an unknown time zone"),
    }
    let text = response("Not/AZone", &[]);
    assert!(matches!(feed().update(&text), Err(FeedError::UnknownTimezone { .. })));
}

#[test]
fn a_malformed_number_comes_before_an_unknown_time_zone() {
    let text = response(
        "Not/AZone",
        &[("2024-03-10 09:30:00", r#"{"open": "x", "high": 1, "low": 1, "close": 1, "volume": 1}"#)],
    );
    match feed().update(&text) {
        Err(FeedError::MalformedNumber { timestamp, field }) => {
            assert_eq!(timestamp, "2024-03-10 09:30:00");
            assert_eq!(field, Field::Open);
        }
        _ => panic!("a malformed number"),
    }
}

#[test]
fn a_key_out_of_layout_fails_whole() {
    let text = response(
        "US/Eastern",
        &[("2024-03-10 09:30:00", PLAIN), ("2024-03-10T09:35:00", PLAIN), ("bad", PLAIN)],
    );
    match feed().update(&text) {
        Err(FeedError::MalformedTimestamp { timestamp }) => {
            assert_eq!(timestamp, "2024-03-10T09:35:00")
        }
        _ => panic!("a malformed timestamp"),
    }
}

#[test]
fn a_price_out_of_range_fails_whole_and_before_the_zone_and_the_keys() {
    let huge = r#"{"open": "1e999", "high": 1, "low": 1, "close": 1, "volume": 1}"#;
    for (zone, key) in [
        ("US/Eastern", "2024-03-10 09:30:00"),
        ("US/Eastern", "2024-03-10 02:30:00"),
        ("US/Eastern", "not a time"),
        ("Not/AZone", "2024-03-10 09:30:00"),
    ] {
        match feed().update(&response(zone, &[(key, huge)])) {
            Err(FeedError::MalformedNumber { timestamp, field }) => {
                assert_eq!(timestamp, key);
                assert_eq!(field, Field::Open);
            }
            _ => panic!("a malformed number"),
        }
    }
}

#[test]
fn a_price_of_many_digits_is_kept() {
    let long = r#"{"open": "20000000000000000000", "high": "1.00000000000000000000", "low": "0.000000000000000000000000000001", "close": "123456789012345678901234567890.5", "volume": 1}"#;
    let update = feed().update(&response("UTC", &[("2024-03-10 09:30:00", long)])).expect("an update");
    assert_eq!(update.prices.len(), 1);
    assert_eq!(float(&update.prices[0].open), 2e19);
    assert_eq!(float(&update.prices[0].high), 1.0);
    assert_eq!(float(&update.prices[0].low), 1e-30);
    assert_eq!(float(&update.prices[0].close), 123456789012345678901234567890.5);
}

#[test]
fn a_figure_reads_the_same_as_a_number_and_as_a_string() {
    let literals = ["190.12", "-3", "2.5e3", "190.80", "20000000000000000000", "1e21", "0.1", "0"];
    for literal in literals {
        let as_number = format!(
            "{{\"open\": {0}, \"high\": {0}, \"low\": {0}, \"close\": {0}, \"volume\": 1}}",
            literal
        );
        let as_string = format!(
            "{{\"open\": \"{0}\", \"high\": \"{0}\", \"low\": \"{0}\", \"close\": \"{0}\", \"volume\": \"1\"}}",
            literal
        );
        let key = "2024-03-10 09:30:00";
        let first = feed().update(&response("UTC", &[(key, as_number.as_str())])).expect("an update");
        let second = feed().update(&response("UTC", &[(key, as_string.as_str())])).expect("an update");
        assert_eq!(float(&first.prices[0].open), float(&second.prices[0].open), "reading {}", literal);
        assert_eq!(float(&first.prices[0].open), literal.parse::<f64>().unwrap());
        assert_eq!(first.prices[0].volume, second.prices[0].volume);
    }
}

#[test]
fn what_is_no_document_is_a_transport_failure() {
    for text in ["", "<html>Service Unavailable</html>", "{\"Meta Data\": "] {
        assert!(matches!(feed().update(text), Err(FeedError::TransportFailure)));
    }
}

#[test]
fn a_document_is_taken_as_its_text_is() {
    let text = response("Europe/Paris", &[("2024-01-15 12:00:00", PLAIN)]);
    let document = Json::parse(&text).expect("a document");
    let update = AlphaVantageDataFeed::update_from_document(&document).expect("an update");
    assert_eq!(update.prices.len(), 1);
    assert_eq!(
        update.prices[0].timestamp.instant,
        Instant { utc_seconds: 1705316400, offset_seconds: 3600 }
    );
    assert!(matches!(
        AlphaVantageDataFeed::update_from_document(&Json::Null),
        Err(FeedError::UnrecognizedResponseShape)
    ));
}

fn raw(key: &str, volume: i64) -> RawRecord {
    RawRecord {
        timestamp: String::from(key),
        open: parse_decimal("1").unwrap(),
        high: parse_decimal("2").unwrap(),
        low: parse_decimal("3").unwrap(),
        close: parse_decimal("4").unwrap(),
        volume,
    }
}

#[test]
fn records_come_out_in_their_order() {
    let zone = Zone::named("US/Eastern").unwrap();
    let records = vec![
        raw("2024-07-04 12:10:00", 3),
        raw("2024-03-10 02:30:00", 9),
        raw("2024-07-04 12:00:00", 1),
        raw("2024-07-04 12:05:00", 2),
    ];
    let Update { prices, dropped } = assemble(&zone, &records).ok().expect("an update");
    let volumes: Vec<i64> = prices.iter().map(|point| point.volume).collect();
    assert_eq!(volumes, vec![3, 1, 2]);
    assert_eq!(dropped.len(), 1);
    assert_eq!(dropped[0].timestamp, "2024-03-10 02:30:00");
    let without: Vec<RawRecord> =
        vec![raw("2024-07-04 12:10:00", 3), raw("2024-07-04 12:00:00", 1), raw("2024-07-04 12:05:00", 2)];
    let alone = assemble(&zone, &without).ok().expect("an update");
    assert_eq!(alone.prices.len(), prices.len());
    for (with, without) in prices.iter().zip(alone.prices.iter()) {
        assert_eq!(with.volume, without.volume);
        assert_eq!(with.timestamp.instant, without.timestamp.instant);
    }
}

fn wire(points: &[PricePoint], locals: &[&str]) -> String {
    let records: Vec<(String, String)> = points
        .iter()
        .zip(locals)
        .map(|(point, local)| {
            let fields = format!(
                "{{\"1. open\": {:?}, \"2. high\": {:?}, \"3. low\": {:?}, \"4. close\": {:?}, \"5. volume\": {}}}",
                point.open.to_text(),
                point.high.to_text(),
                point.low.to_text(),
                point.close.to_text(),
                point.volume
            );
            (String::from(*local), fields)
        })
        .collect();
    let borrowed: Vec<(&str, &str)> =
        records.iter().map(|(key, fields)| (key.as_str(), fields.as_str())).collect();
    response(points[0].timestamp.zone.name(), &borrowed)
}

#[test]
fn points_put_back_on_the_wire_decode_to_themselves() {
    let locals = ["2024-03-08 19:50:00", "2024-03-08 19:55:00", "2024-03-11 09:30:00"];
    let records: Vec<(&str, &str)> = vec![(locals[0], MIXED), (locals[1], PLAIN), (locals[2], MIXED)];
    let first = feed().update(&response("US/Eastern", &records)).expect("an update");
    assert_eq!(first.prices.len(), 3);
    let second = feed().update(&wire(&first.prices, &locals)).expect("an update");
    assert_eq!(second.prices.len(), 3);
    for (before, after) in first.prices.iter().zip(second.prices.iter()) {
        assert_eq!(float(&before.open), float(&after.open));
        assert_eq!(float(&before.high), float(&after.high));
        assert_eq!(float(&before.low), float(&after.low));
        assert_eq!(float(&before.close), float(&after.close));
        assert_eq!(before.volume, after.volume);
        assert_eq!(before.timestamp.instant, after.timestamp.instant);
        assert_eq!(before.timestamp.zone.name(), after.timestamp.zone.name());
    }
    for (point, local) in first.prices.iter().zip(locals) {
        let reading = LocalDateTime::parse(local).expect("a local time");
        assert_eq!(point.timestamp.zone.resolve(&reading), Resolution::Single(point.timestamp.instant));
    }
}
