//! The report of one message: a few lines of text for a reader.

use crate::binary64::Binary64;
use crate::decimal::{decimal_text, format_decimal};
use crate::message::{MessageView, RTL433Message};
use crate::text::texts;
use vstd::prelude::*;
use vstd::string::*;

verus! {

/// What the first line of a report opens with, before the model.
pub const HEADER_OPENS: &'static str = "Received message from model: ";

/// What stands between the model and the time in the first line.
pub const HEADER_JOINS: &'static str = " at ";

/// What the line of the temperature opens with.
pub const TEMPERATURE_OPENS: &'static str = "  Temperature: ";

/// The unit behind the temperature, degrees Celsius.
pub const TEMPERATURE_CLOSES: &'static str = "\u{b0}C";

/// What the line of the humidity opens with.
pub const HUMIDITY_OPENS: &'static str = "  Humidity: ";

/// The unit behind the humidity.
pub const HUMIDITY_CLOSES: &'static str = "%";

/// What the line of the test flag opens with.
pub const TEST_OPENS: &'static str = "  Is test: ";

/// The first line: the model and the time.
pub open spec fn header_line(model: Seq<char>, time: Seq<char>) -> Seq<char> {
    HEADER_OPENS@ + model + HEADER_JOINS@ + time
}

/// The line of the temperature, with one digit behind the point.
pub open spec fn temperature_line(temperature: Binary64) -> Seq<char> {
    TEMPERATURE_OPENS@ + temperature.one_decimal() + TEMPERATURE_CLOSES@
}

/// The line of the humidity, a whole number of per cent.
pub open spec fn humidity_line(humidity: i64) -> Seq<char> {
    HUMIDITY_OPENS@ + decimal_text(humidity as int) + HUMIDITY_CLOSES@
}

/// The line of the test flag.
pub open spec fn test_line(test: bool) -> Seq<char> {
    TEST_OPENS@ + if test {
        "true"@
    } else {
        "false"@
    }
}

/// The line `line` where `present` holds, and no line where it does not.
pub open spec fn line_if(present: bool, line: Seq<char>) -> Seq<Seq<char>> {
    if present {
        seq![line]
    } else {
        Seq::empty()
    }
}

/// The lines of the report of `message`: the header, a line for each of the
/// temperature, the humidity and the test flag that the message has, and an
/// empty line.
pub open spec fn report_lines(message: MessageView) -> Seq<Seq<char>> {
    seq![header_line(message.model, message.time.text())] + line_if(
        message.temperature_c is Some,
        temperature_line(message.temperature_c->0),
    ) + line_if(message.humidity is Some, humidity_line(message.humidity->0)) + line_if(
        message.test is Some,
        test_line(message.test->0),
    ) + seq![Seq::empty()]
}

/// Writes the report of `message`.
pub fn report(message: &RTL433Message) -> (lines: Vec<String>)
    ensures
        texts(lines@) == report_lines(message@),
{
    let mut lines: Vec<String> = Vec::new();
    let time = message.time.to_text();
    let header = String::from_str(HEADER_OPENS).concat(message.model.as_str()).concat(
        HEADER_JOINS,
    ).concat(time.as_str());
    lines.push(header);
    assert(texts(lines@) =~= seq![header_line(message@.model, message@.time.text())]);
    if let Some(temperature) = message.temperature_c {
        let number = temperature.to_one_decimal();
        let line = String::from_str(TEMPERATURE_OPENS).concat(number.as_str()).concat(
            TEMPERATURE_CLOSES,
        );
        lines.push(line);
    }
    let ghost upto_temperature = seq![header_line(message@.model, message@.time.text())]
        + line_if(message@.temperature_c is Some, temperature_line(message@.temperature_c->0));
    assert(texts(lines@) =~= upto_temperature);
    if let Some(humidity) = message.humidity {
        let number = format_decimal(humidity);
        let line = String::from_str(HUMIDITY_OPENS).concat(number.as_str()).concat(
            HUMIDITY_CLOSES,
        );
        lines.push(line);
    }
    let ghost upto_humidity = upto_temperature + line_if(
        message@.humidity is Some,
        humidity_line(message@.humidity->0),
    );
    assert(texts(lines@) =~= upto_humidity);
    if let Some(test) = message.test {
        let word = if test {
            "true"
        } else {
            "false"
        };
        let line = String::from_str(TEST_OPENS).concat(word);
        lines.push(line);
    }
    let ghost upto_test = upto_humidity + line_if(
        message@.test is Some,
        test_line(message@.test->0),
    );
    assert(texts(lines@) =~= upto_test);
    lines.push(String::new());
    assert(texts(lines@) =~= upto_test + seq![Seq::<char>::empty()]);
    lines
}

} // verus!
