//! The message of one sensor reading and how it is made from JSON members.

use crate::binary64::Binary64;
use crate::json::{entries_view, find_member, member_of, Member, MemberView};
use crate::text::{optional_string, optional_text};
use crate::timestamp::{
    deserialize_timestamp, deserialize_timestamp_at, instant_for, warning_for, TimeField,
    Timestamp,
};
use crate::yes_no::{deserialize_yes_no, yes_no};
use vstd::prelude::*;

verus! {

/// One decoded radio transmission of a sensor.
#[derive(Clone, Debug, PartialEq, Eq)]
pub struct RTL433Message {
    /// When the message was received.
    pub time: Timestamp,
    /// The kind of sensor, empty where the message names none.
    pub model: String,
    pub id: Option<i64>,
    pub channel: Option<i64>,
    /// Degrees Celsius.
    pub temperature_c: Option<Binary64>,
    /// Per cent of relative humidity.
    pub humidity: Option<i64>,
    pub battery_ok: Option<Binary64>,
    pub test: Option<bool>,
    /// The integrity check that the message went through, empty where it
    /// names none.
    pub mic: String,
}

/// A message with its texts as sequences of characters.
pub struct MessageView {
    pub time: Timestamp,
    pub model: Seq<char>,
    pub id: Option<i64>,
    pub channel: Option<i64>,
    pub temperature_c: Option<Binary64>,
    pub humidity: Option<i64>,
    pub battery_ok: Option<Binary64>,
    pub test: Option<bool>,
    pub mic: Seq<char>,
}

impl View for RTL433Message {
    type V = MessageView;

    open spec fn view(&self) -> MessageView {
        MessageView {
            time: self.time,
            model: self.model@,
            id: self.id,
            channel: self.channel,
            temperature_c: self.temperature_c,
            humidity: self.humidity,
            battery_ok: self.battery_ok,
            test: self.test,
            mic: self.mic@,
        }
    }
}

/// The names of the members that make a message.
#[derive(Clone, Copy, Debug, PartialEq, Eq, Structural)]
pub enum Name {
    Time,
    Model,
    Id,
    Channel,
    TemperatureC,
    Humidity,
    BatteryOk,
    Test,
    Mic,
}

/// What a JSON object holds under each of the nine names, `None` where it has
/// no member of that name. Members of other names are of no account.
#[derive(Clone, Debug, PartialEq, Eq)]
pub struct Members {
    pub time: Option<Member>,
    pub model: Option<Member>,
    pub id: Option<Member>,
    pub channel: Option<Member>,
    pub temperature_c: Option<Member>,
    pub humidity: Option<Member>,
    pub battery_ok: Option<Member>,
    pub test: Option<Member>,
    pub mic: Option<Member>,
}

/// The nine members with their texts as sequences of characters.
pub struct MembersView {
    pub time: Option<MemberView>,
    pub model: Option<MemberView>,
    pub id: Option<MemberView>,
    pub channel: Option<MemberView>,
    pub temperature_c: Option<MemberView>,
    pub humidity: Option<MemberView>,
    pub battery_ok: Option<MemberView>,
    pub test: Option<MemberView>,
    pub mic: Option<MemberView>,
}

impl View for Members {
    type V = MembersView;

    open spec fn view(&self) -> MembersView {
        MembersView {
            time: crate::json::optional_member(self.time),
            model: crate::json::optional_member(self.model),
            id: crate::json::optional_member(self.id),
            channel: crate::json::optional_member(self.channel),
            temperature_c: crate::json::optional_member(self.temperature_c),
            humidity: crate::json::optional_member(self.humidity),
            battery_ok: crate::json::optional_member(self.battery_ok),
            test: crate::json::optional_member(self.test),
            mic: crate::json::optional_member(self.mic),
        }
    }
}

impl Name {
    /// The name under which a JSON object holds the member. The temperature
    /// goes by `temperature_C`, every other member by the name of its field.
    pub open spec fn spec_json_name(self) -> Seq<char> {
        match self {
            Name::Time => "time"@,
            Name::Model => "model"@,
            Name::Id => "id"@,
            Name::Channel => "channel"@,
            Name::TemperatureC => "temperature_C"@,
            Name::Humidity => "humidity"@,
            Name::BatteryOk => "battery_ok"@,
            Name::Test => "test"@,
            Name::Mic => "mic"@,
        }
    }

    /// The name under which a JSON object holds the member.
    pub fn json_name(self) -> (name: &'static str)
        ensures
            name@ == self.spec_json_name(),
    {
        match self {
            Name::Time => "time",
            Name::Model => "model",
            Name::Id => "id",
            Name::Channel => "channel",
            Name::TemperatureC => "temperature_C",
            Name::Humidity => "humidity",
            Name::BatteryOk => "battery_ok",
            Name::Test => "test",
            Name::Mic => "mic",
        }
    }

    /// What the member must hold to stand for its field, in words.
    pub open spec fn spec_expectation(self) -> Seq<char> {
        match self {
            Name::Time | Name::Test => "a string or null"@,
            Name::Model | Name::Mic => "a string"@,
            Name::Id | Name::Channel | Name::Humidity => "an integer or null"@,
            Name::TemperatureC | Name::BatteryOk => "a number or null"@,
        }
    }

    /// What the member must hold to stand for its field, in words.
    pub fn expectation(self) -> (words: &'static str)
        ensures
            words@ == self.spec_expectation(),
    {
        match self {
            Name::Time | Name::Test => "a string or null",
            Name::Model | Name::Mic => "a string",
            Name::Id | Name::Channel | Name::Humidity => "an integer or null",
            Name::TemperatureC | Name::BatteryOk => "a number or null",
        }
    }
}

/// The nine members as the members of an object hold them.
pub open spec fn known_members(entries: Seq<(Seq<char>, Seq<char>)>) -> MembersView {
    MembersView {
        time: member_of(entries, Name::Time.spec_json_name()),
        model: member_of(entries, Name::Model.spec_json_name()),
        id: member_of(entries, Name::Id.spec_json_name()),
        channel: member_of(entries, Name::Channel.spec_json_name()),
        temperature_c: member_of(entries, Name::TemperatureC.spec_json_name()),
        humidity: member_of(entries, Name::Humidity.spec_json_name()),
        battery_ok: member_of(entries, Name::BatteryOk.spec_json_name()),
        test: member_of(entries, Name::Test.spec_json_name()),
        mic: member_of(entries, Name::Mic.spec_json_name()),
    }
}

/// Reads the nine members out of the members of an object, each given by its
/// name and the JSON text of its value.
pub fn read_members(entries: &Vec<(String, String)>) -> (members: Members)
    ensures
        members@ == known_members(entries_view(entries@)),
{
    Members {
        time: find_member(entries, Name::Time.json_name()),
        model: find_member(entries, Name::Model.json_name()),
        id: find_member(entries, Name::Id.json_name()),
        channel: find_member(entries, Name::Channel.json_name()),
        temperature_c: find_member(entries, Name::TemperatureC.json_name()),
        humidity: find_member(entries, Name::Humidity.json_name()),
        battery_ok: find_member(entries, Name::BatteryOk.json_name()),
        test: find_member(entries, Name::Test.json_name()),
        mic: find_member(entries, Name::Mic.json_name()),
    }
}

/// Whether a member can stand for an optional text: it is absent, `null` or
/// a string.
pub open spec fn holds_optional_text(member: Option<MemberView>) -> bool {
    member is None || member == Some(MemberView::Null) || member matches Some(MemberView::Text(_))
}

/// The optional text that a member stands for.
pub open spec fn optional_text_of(member: Option<MemberView>) -> Option<Seq<char>> {
    match member {
        Some(MemberView::Text(s)) => Some(s),
        _ => None,
    }
}

/// Whether a member can stand for a text: it is absent or a string.
pub open spec fn holds_text(member: Option<MemberView>) -> bool {
    member is None || member matches Some(MemberView::Text(_))
}

/// The text that a member stands for, empty where the member is absent.
pub open spec fn text_of(member: Option<MemberView>) -> Seq<char> {
    match member {
        Some(MemberView::Text(s)) => s,
        _ => Seq::empty(),
    }
}

/// Whether a member can stand for an optional integer: it is absent, `null`
/// or a whole number that an `i64` holds.
pub open spec fn holds_integer(member: Option<MemberView>) -> bool {
    ||| member is None
    ||| member == Some(MemberView::Null)
    ||| member matches Some(MemberView::Number(n)) && n.integer is Some
}

/// The optional integer that a member stands for.
pub open spec fn integer_of(member: Option<MemberView>) -> Option<i64> {
    match member {
        Some(MemberView::Number(n)) => n.integer,
        _ => None,
    }
}

/// Whether a member can stand for an optional binary64 number: it is absent,
/// `null` or a number.
pub open spec fn holds_binary64(member: Option<MemberView>) -> bool {
    ||| member is None
    ||| member == Some(MemberView::Null)
    ||| member matches Some(MemberView::Number(n)) && n.binary64 is Some
}

/// The optional binary64 number that a member stands for.
pub open spec fn binary64_of(member: Option<MemberView>) -> Option<Binary64> {
    match member {
        Some(MemberView::Number(n)) => n.binary64,
        _ => None,
    }
}

/// The first member, in the order of the message's fields, that cannot stand
/// for its field.
pub open spec fn first_mistyped(members: MembersView) -> Option<Name> {
    if !holds_optional_text(members.time) {
        Some(Name::Time)
    } else if !holds_text(members.model) {
        Some(Name::Model)
    } else if !holds_integer(members.id) {
        Some(Name::Id)
    } else if !holds_integer(members.channel) {
        Some(Name::Channel)
    } else if !holds_binary64(members.temperature_c) {
        Some(Name::TemperatureC)
    } else if !holds_integer(members.humidity) {
        Some(Name::Humidity)
    } else if !holds_binary64(members.battery_ok) {
        Some(Name::BatteryOk)
    } else if !holds_optional_text(members.test) {
        Some(Name::Test)
    } else if !holds_text(members.mic) {
        Some(Name::Mic)
    } else {
        None
    }
}

/// Whether the members have the shape of a message: each can stand for its
/// field.
pub open spec fn record_shaped(members: MembersView) -> bool {
    first_mistyped(members) is None
}

/// A message as its members hold it, before the time and the test flag are
/// read out of their texts.
#[derive(Clone, Debug, PartialEq, Eq)]
pub struct RawMessage {
    pub time: Option<String>,
    pub model: String,
    pub id: Option<i64>,
    pub channel: Option<i64>,
    pub temperature_c: Option<Binary64>,
    pub humidity: Option<i64>,
    pub battery_ok: Option<Binary64>,
    pub test: Option<String>,
    pub mic: String,
}

/// A raw message with its texts as sequences of characters.
pub struct RawMessageView {
    pub time: Option<Seq<char>>,
    pub model: Seq<char>,
    pub id: Option<i64>,
    pub channel: Option<i64>,
    pub temperature_c: Option<Binary64>,
    pub humidity: Option<i64>,
    pub battery_ok: Option<Binary64>,
    pub test: Option<Seq<char>>,
    pub mic: Seq<char>,
}

impl View for RawMessage {
    type V = RawMessageView;

    open spec fn view(&self) -> RawMessageView {
        RawMessageView {
            time: optional_string(self.time),
            model: self.model@,
            id: self.id,
            channel: self.channel,
            temperature_c: self.temperature_c,
            humidity: self.humidity,
            battery_ok: self.battery_ok,
            test: optional_string(self.test),
            mic: self.mic@,
        }
    }
}

/// The raw message that record-shaped members hold. An optional field is
/// there exactly where its member holds a value; the model and the integrity
/// check are empty where their members are absent.
pub open spec fn raw_message(members: MembersView) -> RawMessageView {
    RawMessageView {
        time: optional_text_of(members.time),
        model: text_of(members.model),
        id: integer_of(members.id),
        channel: integer_of(members.channel),
        temperature_c: binary64_of(members.temperature_c),
        humidity: integer_of(members.humidity),
        battery_ok: binary64_of(members.battery_ok),
        test: optional_text_of(members.test),
        mic: text_of(members.mic),
    }
}

/// Reads a member as an optional text; `None` where it cannot stand for one.
fn read_optional_text(member: &Option<Member>) -> (r: Option<Option<String>>)
    ensures
        r is Some <==> holds_optional_text(crate::json::optional_member(*member)),
        r matches Some(text) ==> optional_string(text) == optional_text_of(
            crate::json::optional_member(*member),
        ),
{
    match member {
        None => Some(None),
        Some(Member::Null) => Some(None),
        Some(Member::Text(s)) => Some(Some(s.clone())),
        Some(_) => None,
    }
}

/// Reads a member as a text; `None` where it cannot stand for one.
fn read_text(member: &Option<Member>) -> (r: Option<String>)
    ensures
        r is Some <==> holds_text(crate::json::optional_member(*member)),
        r matches Some(text) ==> text@ == text_of(crate::json::optional_member(*member)),
{
    match member {
        None => Some(String::new()),
        Some(Member::Text(s)) => Some(s.clone()),
        Some(_) => None,
    }
}

/// Reads a member as an optional integer; `None` where it cannot stand for
/// one.
fn read_integer(member: &Option<Member>) -> (r: Option<Option<i64>>)
    ensures
        r is Some <==> holds_integer(crate::json::optional_member(*member)),
        r matches Some(n) ==> n == integer_of(crate::json::optional_member(*member)),
{
    match member {
        None => Some(None),
        Some(Member::Null) => Some(None),
        Some(Member::Number(n)) => match n.integer {
            Some(i) => Some(Some(i)),
            None => None,
        },
        Some(_) => None,
    }
}

/// Reads a member as an optional binary64 number; `None` where it cannot
/// stand for one.
fn read_binary64(member: &Option<Member>) -> (r: Option<Option<Binary64>>)
    ensures
        r is Some <==> holds_binary64(crate::json::optional_member(*member)),
        r matches Some(x) ==> x == binary64_of(crate::json::optional_member(*member)),
{
    match member {
        None => Some(None),
        Some(Member::Null) => Some(None),
        Some(Member::Number(n)) => match n.binary64 {
            Some(x) => Some(Some(x)),
            None => None,
        },
        Some(_) => None,
    }
}

/// Decodes the nine members into a raw message. This succeeds exactly on
/// record-shaped members, whichever of them are absent; where it fails it
/// names the first member that does not fit.
pub fn decode(members: &Members) -> (r: Result<RawMessage, Name>)
    ensures
        match r {
            Ok(raw) => record_shaped(members@) && raw@ == raw_message(members@),
            Err(name) => first_mistyped(members@) == Some(name),
        },
{
    let time = match read_optional_text(&members.time) {
        Some(time) => time,
        None => {
            return Err(Name::Time);
        },
    };
    let model = match read_text(&members.model) {
        Some(model) => model,
        None => {
            return Err(Name::Model);
        },
    };
    let id = match read_integer(&members.id) {
        Some(id) => id,
        None => {
            return Err(Name::Id);
        },
    };
    let channel = match read_integer(&members.channel) {
        Some(channel) => channel,
        None => {
            return Err(Name::Channel);
        },
    };
    let temperature_c = match read_binary64(&members.temperature_c) {
        Some(temperature_c) => temperature_c,
        None => {
            return Err(Name::TemperatureC);
        },
    };
    let humidity = match read_integer(&members.humidity) {
        Some(humidity) => humidity,
        None => {
            return Err(Name::Humidity);
        },
    };
    let battery_ok = match read_binary64(&members.battery_ok) {
        Some(battery_ok) => battery_ok,
        None => {
            return Err(Name::BatteryOk);
        },
    };
    let test = match read_optional_text(&members.test) {
        Some(test) => test,
        None => {
            return Err(Name::Test);
        },
    };
    let mic = match read_text(&members.mic) {
        Some(mic) => mic,
        None => {
            return Err(Name::Mic);
        },
    };
    Ok(RawMessage { time, model, id, channel, temperature_c, humidity, battery_ok, test, mic })
}

/// A message and the warning that came with reading its time.
#[derive(Clone, Debug, PartialEq, Eq)]
pub struct Normalized {
    pub message: RTL433Message,
    pub warning: Option<String>,
}

/// A normalized message with its texts as sequences of characters.
pub struct NormalizedView {
    pub message: MessageView,
    pub warning: Option<Seq<char>>,
}

impl View for Normalized {
    type V = NormalizedView;

    open spec fn view(&self) -> NormalizedView {
        NormalizedView { message: self.message@, warning: optional_string(self.warning) }
    }
}

/// The message that a raw message becomes when the clock shows `now`. The
/// time is the instant that the raw time names, else `now`; the test flag is
/// what the raw flag stands for; all else is carried over unchanged.
pub open spec fn normalized(raw: RawMessageView, now: Timestamp) -> NormalizedView {
    NormalizedView {
        message: MessageView {
            time: match instant_for(raw.time) {
                Some(t) => t,
                None => now,
            },
            model: raw.model,
            id: raw.id,
            channel: raw.channel,
            temperature_c: raw.temperature_c,
            humidity: raw.humidity,
            battery_ok: raw.battery_ok,
            test: yes_no(raw.test),
            mic: raw.mic,
        },
        warning: warning_for(raw.time),
    }
}

/// No member has to be there: members that are all absent have the shape of
/// a message.
pub proof fn lemma_no_member_is_needed(members: MembersView)
    requires
        members.time is None,
        members.model is None,
        members.id is None,
        members.channel is None,
        members.temperature_c is None,
        members.humidity is None,
        members.battery_ok is None,
        members.test is None,
        members.mic is None,
    ensures
        record_shaped(members),
{
}

/// Reading keeps what is there. Each optional field of the message is
/// present exactly where its member holds a value, and holds that value; the
/// model and the integrity check are the texts of their members, and empty
/// where those are absent.
pub proof fn lemma_reading_keeps_what_is_there(members: MembersView, now: Timestamp)
    requires
        record_shaped(members),
    ensures
        ({
            let message = normalized(raw_message(members), now).message;
            &&& forall|v: i64|
                message.id == Some(v) <==> (members.id matches Some(MemberView::Number(n))
                    && n.integer == Some(v))
            &&& forall|v: i64|
                message.channel == Some(v) <==> (members.channel matches Some(
                    MemberView::Number(n),
                ) && n.integer == Some(v))
            &&& forall|v: i64|
                message.humidity == Some(v) <==> (members.humidity matches Some(
                    MemberView::Number(n),
                ) && n.integer == Some(v))
            &&& forall|x: Binary64|
                message.temperature_c == Some(x) <==> (members.temperature_c matches Some(
                    MemberView::Number(n),
                ) && n.binary64 == Some(x))
            &&& forall|x: Binary64|
                message.battery_ok == Some(x) <==> (members.battery_ok matches Some(
                    MemberView::Number(n),
                ) && n.binary64 == Some(x))
            &&& forall|flag: bool|
                message.test == Some(flag) <==> (members.test matches Some(MemberView::Text(s))
                    && yes_no(Some(s)) == Some(flag))
            &&& forall|text: Seq<char>|
                members.model == Some(MemberView::Text(text)) ==> message.model == text
            &&& members.model is None ==> message.model == Seq::<char>::empty()
            &&& forall|text: Seq<char>|
                members.mic == Some(MemberView::Text(text)) ==> message.mic == text
            &&& members.mic is None ==> message.mic == Seq::<char>::empty()
        }),
{
}

/// The text of an optional string.
fn as_text(text: &Option<String>) -> (r: Option<&str>)
    ensures
        optional_text(r) == optional_string(*text),
{
    match text {
        Some(s) => Some(s.as_str()),
        None => None,
    }
}

impl RawMessage {
    /// Puts the message together from its time and what the raw message
    /// holds beside it.
    fn complete(self, field: TimeField) -> (r: Normalized)
        ensures
            r@ == (NormalizedView {
                message: MessageView {
                    time: field.time,
                    model: self.model@,
                    id: self.id,
                    channel: self.channel,
                    temperature_c: self.temperature_c,
                    humidity: self.humidity,
                    battery_ok: self.battery_ok,
                    test: yes_no(optional_string(self.test)),
                    mic: self.mic@,
                },
                warning: optional_string(field.warning),
            }),
    {
        let test = deserialize_yes_no(as_text(&self.test));
        Normalized {
            message: RTL433Message {
                time: field.time,
                model: self.model,
                id: self.id,
                channel: self.channel,
                temperature_c: self.temperature_c,
                humidity: self.humidity,
                battery_ok: self.battery_ok,
                test,
                mic: self.mic,
            },
            warning: field.warning,
        }
    }

    /// Normalizes the message at a moment when the clock shows `now`. There
    /// is no raw message for which this fails.
    pub fn normalize_at(self, now: Timestamp) -> (r: Normalized)
        ensures
            r@ == normalized(self@, now),
    {
        let field = deserialize_timestamp_at(as_text(&self.time), now);
        self.complete(field)
    }

    /// Normalizes the message, asking the clock only where the raw time names
    /// no instant. There is no raw message for which this fails.
    pub fn normalize(self) -> (r: Normalized)
        ensures
            exists|now: Timestamp| now.wf() && r@ == #[trigger] normalized(self@, now),
    {
        let field = deserialize_timestamp(as_text(&self.time));
        let ghost now = choose|now: Timestamp|
            now.wf() && #[trigger] field.settles(optional_string(self.time), now);
        let ghost raw = self@;
        let r = self.complete(field);
        assert(r@ == normalized(raw, now));
        r
    }
}

} // verus!
