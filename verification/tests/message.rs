use rtl433_parser::json::{Member, Number};
use rtl433_parser::binary64::Binary64;
use rtl433_parser::message::{decode, Members, Name, RawMessage};
use rtl433_parser::timestamp::Timestamp;

fn noon() -> Timestamp {
    Timestamp::new(1_700_000_000, 0).unwrap()
}

fn no_members() -> Members {
    Members {
        time: None,
        model: None,
        id: None,
        channel: None,
        temperature_c: None,
        humidity: None,
        battery_ok: None,
        test: None,
        mic: None,
    }
}

fn text(s: &str) -> Option<Member> {
    Some(Member::Text(s.to_string()))
}

fn integer(n: i64) -> Option<Member> {
    Some(Member::Number(Number { integer: Some(n), binary64: Some(Binary64 { bits: (n as f64).to_bits() }) }))
}

fn fraction(x: f64) -> Option<Member> {
    Some(Member::Number(Number { integer: None, binary64: Some(Binary64 { bits: x.to_bits() }) }))
}

#[test]
fn members_that_are_all_absent_decode() {
    let raw = decode(&no_members()).unwrap();
    assert_eq!(
        raw,
        RawMessage {
            time: None,
            model: String::new(),
            id: None,
            channel: None,
            temperature_c: None,
            humidity: None,
            battery_ok: None,
            test: None,
            mic: String::new(),
        }
    );
}

#[test]
fn members_that_are_all_present_decode() {
    let members = Members {
        time: text("2023-04-15 14:32:56"),
        model: text("Acurite-5n1"),
        id: integer(1234),
        channel: integer(-3),
        temperature_c: fraction(21.5),
        humidity: integer(47),
        battery_ok: integer(1),
        test: text("No"),
        mic: text("CRC"),
    };
    let raw = decode(&members).unwrap();
    assert_eq!(raw.time, Some("2023-04-15 14:32:56".to_string()));
    assert_eq!(raw.model, "Acurite-5n1");
    assert_eq!(raw.id, Some(1234));
    assert_eq!(raw.channel, Some(-3));
    assert_eq!(raw.temperature_c, Some(Binary64 { bits: 21.5f64.to_bits() }));
    assert_eq!(raw.humidity, Some(47));
    assert_eq!(raw.battery_ok, Some(Binary64 { bits: 1.0f64.to_bits() }));
    assert_eq!(raw.test, Some("No".to_string()));
    assert_eq!(raw.mic, "CRC");
}

#[test]
fn null_stands_for_an_absent_optional_field() {
    let members = Members {
        time: Some(Member::Null),
        id: Some(Member::Null),
        channel: Some(Member::Null),
        temperature_c: Some(Member::Null),
        humidity: Some(Member::Null),
        battery_ok: Some(Member::Null),
        test: Some(Member::Null),
        ..no_members()
    };
    let raw = decode(&members).unwrap();
    assert_eq!(raw.time, None);
    assert_eq!(raw.id, None);
    assert_eq!(raw.channel, None);
    assert_eq!(raw.temperature_c, None);
    assert_eq!(raw.humidity, None);
    assert_eq!(raw.battery_ok, None);
    assert_eq!(raw.test, None);
}

#[test]
fn null_does_not_stand_for_a_text() {
    let members = Members { model: Some(Member::Null), ..no_members() };
    assert_eq!(decode(&members), Err(Name::Model));
    let members = Members { mic: Some(Member::Null), ..no_members() };
    assert_eq!(decode(&members), Err(Name::Mic));
}

#[test]
fn each_mistyped_member_is_named() {
    let wrong = || Some(Member::Other);
    assert_eq!(decode(&Members { time: wrong(), ..no_members() }), Err(Name::Time));
    assert_eq!(decode(&Members { model: wrong(), ..no_members() }), Err(Name::Model));
    assert_eq!(decode(&Members { id: wrong(), ..no_members() }), Err(Name::Id));
    assert_eq!(decode(&Members { channel: wrong(), ..no_members() }), Err(Name::Channel));
    assert_eq!(
        decode(&Members { temperature_c: wrong(), ..no_members() }),
        Err(Name::TemperatureC)
    );
    assert_eq!(decode(&Members { humidity: wrong(), ..no_members() }), Err(Name::Humidity));
    assert_eq!(decode(&Members { battery_ok: wrong(), ..no_members() }), Err(Name::BatteryOk));
    assert_eq!(decode(&Members { test: wrong(), ..no_members() }), Err(Name::Test));
    assert_eq!(decode(&Members { mic: wrong(), ..no_members() }), Err(Name::Mic));
}

#[test]
fn the_first_mistyped_member_is_named() {
    let members = Members { mic: Some(Member::Other), id: text("7"), humidity: text("47"), ..no_members() };
    assert_eq!(decode(&members), Err(Name::Id));
}

#[test]
fn a_number_with_a_fraction_is_no_integer() {
    assert_eq!(decode(&Members { humidity: fraction(47.5), ..no_members() }), Err(Name::Humidity));
    assert_eq!(decode(&Members { id: fraction(1.0), ..no_members() }), Err(Name::Id));
}

#[test]
fn a_number_is_no_text_and_a_text_is_no_number() {
    assert_eq!(decode(&Members { time: integer(1681569176), ..no_members() }), Err(Name::Time));
    assert_eq!(decode(&Members { test: integer(1), ..no_members() }), Err(Name::Test));
    assert_eq!(
        decode(&Members { temperature_c: text("21.5"), ..no_members() }),
        Err(Name::TemperatureC)
    );
}

#[test]
fn a_whole_number_stands_for_a_binary64() {
    let raw = decode(&Members { temperature_c: integer(21), ..no_members() }).unwrap();
    assert_eq!(raw.temperature_c, Some(Binary64 { bits: 21.0f64.to_bits() }));
}

#[test]
fn names_are_those_of_the_json_members() {
    assert_eq!(Name::Time.json_name(), "time");
    assert_eq!(Name::Model.json_name(), "model");
    assert_eq!(Name::Id.json_name(), "id");
    assert_eq!(Name::Channel.json_name(), "channel");
    assert_eq!(Name::TemperatureC.json_name(), "temperature_C");
    assert_eq!(Name::Humidity.json_name(), "humidity");
    assert_eq!(Name::BatteryOk.json_name(), "battery_ok");
    assert_eq!(Name::Test.json_name(), "test");
    assert_eq!(Name::Mic.json_name(), "mic");
}

#[test]
fn expectations_are_in_words() {
    assert_eq!(Name::Time.expectation(), "a string or null");
    assert_eq!(Name::Test.expectation(), "a string or null");
    assert_eq!(Name::Model.expectation(), "a string");
    assert_eq!(Name::Mic.expectation(), "a string");
    assert_eq!(Name::Id.expectation(), "an integer or null");
    assert_eq!(Name::Channel.expectation(), "an integer or null");
    assert_eq!(Name::Humidity.expectation(), "an integer or null");
    assert_eq!(Name::TemperatureC.expectation(), "a number or null");
    assert_eq!(Name::BatteryOk.expectation(), "a number or null");
}

#[test]
fn normalizing_reads_the_time_and_the_test_flag() {
    let raw = RawMessage {
        time: Some("2023-04-15 14:32:56".to_string()),
        model: "Acurite-5n1".to_string(),
        id: Some(1234),
        channel: Some(2),
        temperature_c: Some(Binary64 { bits: 21.5f64.to_bits() }),
        humidity: Some(47),
        battery_ok: Some(Binary64 { bits: 1.0f64.to_bits() }),
        test: Some("Yes".to_string()),
        mic: "CRC".to_string(),
    };
    let normalized = raw.normalize_at(noon());
    assert_eq!(normalized.warning, None);
    let message = normalized.message;
    assert_eq!(message.time, Timestamp::new(1681569176, 0).unwrap());
    assert_eq!(message.model, "Acurite-5n1");
    assert_eq!(message.id, Some(1234));
    assert_eq!(message.channel, Some(2));
    assert_eq!(message.temperature_c, Some(Binary64 { bits: 21.5f64.to_bits() }));
    assert_eq!(message.humidity, Some(47));
    assert_eq!(message.battery_ok, Some(Binary64 { bits: 1.0f64.to_bits() }));
    assert_eq!(message.test, Some(true));
    assert_eq!(message.mic, "CRC");
}

#[test]
fn normalizing_never_fails() {
    let raw = RawMessage {
        time: Some("not-a-date".to_string()),
        model: String::new(),
        id: None,
        channel: None,
        temperature_c: None,
        humidity: None,
        battery_ok: None,
        test: Some("maybe".to_string()),
        mic: String::new(),
    };
    let normalized = raw.normalize_at(noon());
    assert_eq!(normalized.warning, Some("Unknown timestamp format: not-a-date".to_string()));
    assert_eq!(normalized.message.time, noon());
    assert_eq!(normalized.message.test, None);
}

#[test]
fn normalizing_asks_the_clock_for_a_missing_time() {
    let raw = decode(&no_members()).unwrap();
    let before = chrono::Utc::now().timestamp();
    let normalized = raw.normalize();
    let after = chrono::Utc::now().timestamp();
    assert_eq!(normalized.warning, None);
    let seconds = normalized.message.time.seconds();
    assert!(before <= seconds && seconds <= after);
}
