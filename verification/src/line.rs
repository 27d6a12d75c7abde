//! What becomes of one line of input: a message to report, or a rejection to
//! log.

use crate::json::{parse_object, parsed_object};
use crate::message::{
    decode, first_mistyped, known_members, normalized, raw_message, read_members, record_shaped,
    Members, Name, Normalized, NormalizedView, RawMessage, RawMessageView,
};
use crate::report::{report, report_lines};
use crate::text::texts;
use crate::timestamp::Timestamp;
use vstd::prelude::*;
use vstd::string::*;

verus! {

/// Why a line gives no message.
#[derive(Clone, Debug, PartialEq, Eq)]
pub enum Fault {
    /// The line is no JSON text, or a JSON text that holds no object; the
    /// parser's words say where and why.
    Parse(String),
    /// The member of this name cannot stand for its field.
    Mistyped(Name),
}

/// A fault with its text as a sequence of characters.
pub enum FaultView {
    Parse(Seq<char>),
    Mistyped(Name),
}

impl View for Fault {
    type V = FaultView;

    open spec fn view(&self) -> FaultView {
        match self {
            Fault::Parse(words) => FaultView::Parse(words@),
            Fault::Mistyped(name) => FaultView::Mistyped(*name),
        }
    }
}

/// What the description of a mistyped member opens with, before its name.
pub const MISTYPED_OPENS: &'static str = "invalid type: member `";

/// What stands between the name of a mistyped member and what was expected.
pub const MISTYPED_JOINS: &'static str = "` must be ";

impl FaultView {
    /// The fault in words: the parser's own, or the name of the mistyped
    /// member and what it must hold.
    pub open spec fn description(self) -> Seq<char> {
        match self {
            FaultView::Parse(words) => words,
            FaultView::Mistyped(name) => MISTYPED_OPENS@ + name.spec_json_name() + MISTYPED_JOINS@
                + name.spec_expectation(),
        }
    }
}

impl Fault {
    /// Describes the fault in words.
    pub fn describe(&self) -> (words: String)
        ensures
            words@ == self@.description(),
    {
        match self {
            Fault::Parse(words) => words.clone(),
            Fault::Mistyped(name) => String::from_str(MISTYPED_OPENS).concat(
                name.json_name(),
            ).concat(MISTYPED_JOINS).concat(name.expectation()),
        }
    }
}

/// The fault of a line, if it has one: what stands between the line and a
/// message.
pub open spec fn line_fault(line: Seq<char>) -> Option<FaultView> {
    match parsed_object(line) {
        Err(words) => Some(FaultView::Parse(words)),
        Ok(entries) => match first_mistyped(known_members(entries)) {
            Some(name) => Some(FaultView::Mistyped(name)),
            None => None,
        },
    }
}

/// Whether a line is malformed: it gives no message.
pub open spec fn malformed(line: Seq<char>) -> bool {
    line_fault(line) is Some
}

/// The raw message that a line without fault holds.
pub open spec fn line_raw(line: Seq<char>) -> RawMessageView {
    raw_message(known_members(parsed_object(line)->Ok_0))
}

/// The message that a line without fault gives when the clock shows `now`.
pub open spec fn line_message(line: Seq<char>, now: Timestamp) -> NormalizedView {
    normalized(line_raw(line), now)
}

/// Parses a line and reads the nine members out of the object it holds.
pub fn parse_members(line: &str) -> (r: Result<Members, Fault>)
    ensures
        match r {
            Ok(members) => parsed_object(line@) matches Ok(entries) && members@ == known_members(
                entries,
            ),
            Err(fault) => parsed_object(line@) matches Err(words) && fault@ == FaultView::Parse(
                words,
            ),
        },
{
    match parse_object(line) {
        Err(words) => Err(Fault::Parse(words)),
        Ok(entries) => Ok(read_members(&entries)),
    }
}

/// What became of a line.
#[derive(Clone, Debug, PartialEq, Eq)]
pub enum LineOutcome {
    /// The line gave a message.
    Message(Normalized),
    /// The line gave none, for this fault.
    Rejected { fault: Fault, raw: String },
}

/// An outcome with its texts as sequences of characters.
pub enum LineOutcomeView {
    Message(NormalizedView),
    Rejected { fault: FaultView, raw: Seq<char> },
}

impl View for LineOutcome {
    type V = LineOutcomeView;

    open spec fn view(&self) -> LineOutcomeView {
        match self {
            LineOutcome::Message(normalized) => LineOutcomeView::Message(normalized@),
            LineOutcome::Rejected { fault, raw } => LineOutcomeView::Rejected {
                fault: fault@,
                raw: raw@,
            },
        }
    }
}

/// What the log says first of a rejected line, before the fault.
pub const FAILED_TO_PARSE: &'static str = "Failed to parse JSON: ";

/// What the log says of a rejected line between the fault and the line
/// itself.
pub const RAW_LINE: &'static str = "; raw line: ";

/// What the log says of a line that could not be read.
pub const ERROR_READING: &'static str = "Error reading line: ";

impl LineOutcomeView {
    /// Whether this is the outcome owed for `line` when the clock shows `now`.
    /// A line without fault gives its message. A line with a fault is
    /// rejected for that fault and kept as it came.
    pub open spec fn answers(self, line: Seq<char>, now: Timestamp) -> bool {
        match self {
            LineOutcomeView::Message(normalized) => line_fault(line) is None && normalized
                == line_message(line, now),
            LineOutcomeView::Rejected { fault, raw } => line_fault(line) == Some(fault) && raw
                == line,
        }
    }

    /// The lines owed to the log: the warning of a message, if it has one;
    /// for a rejected line one line that holds the fault in words and the
    /// line as it came.
    pub open spec fn log_lines(self) -> Seq<Seq<char>> {
        match self {
            LineOutcomeView::Message(normalized) => match normalized.warning {
                Some(warning) => seq![warning],
                None => Seq::empty(),
            },
            LineOutcomeView::Rejected { fault, raw } => seq![
                FAILED_TO_PARSE@ + fault.description() + RAW_LINE@ + raw,
            ],
        }
    }

    /// The lines owed to the reader: the report of a message, and nothing
    /// for a rejected line.
    pub open spec fn output_lines(self) -> Seq<Seq<char>> {
        match self {
            LineOutcomeView::Message(normalized) => report_lines(normalized.message),
            LineOutcomeView::Rejected { .. } => Seq::empty(),
        }
    }
}

/// Whether `outcome` is owed for `line` at some moment of the clock.
pub open spec fn answered(outcome: LineOutcomeView, line: Seq<char>) -> bool {
    exists|now: Timestamp| now.wf() && #[trigger] outcome.answers(line, now)
}

/// Every line has its outcome, and which of the two it is does not hang on
/// the clock: a line gives a message exactly where it holds a JSON object
/// whose members have the shape of a message.
pub proof fn lemma_well_formed_lines_give_messages(
    outcome: LineOutcomeView,
    line: Seq<char>,
    now: Timestamp,
)
    requires
        outcome.answers(line, now),
    ensures
        outcome is Message <==> !malformed(line),
        !malformed(line) <==> (parsed_object(line) matches Ok(entries) && record_shaped(
            known_members(entries),
        )),
{
}

/// A malformed line gives the reader nothing and the log one line, which
/// tells the fault and ends with the line as it came.
pub proof fn lemma_rejection_echoes_the_line(
    outcome: LineOutcomeView,
    line: Seq<char>,
    now: Timestamp,
)
    requires
        outcome.answers(line, now),
        malformed(line),
    ensures
        outcome.output_lines().len() == 0,
        outcome.log_lines() == seq![
            FAILED_TO_PARSE@ + line_fault(line)->0.description() + RAW_LINE@ + line,
        ],
{
}

/// Parses a line and decodes the raw message that it holds. This succeeds
/// on every line without fault; a line with a fault is refused for it.
pub fn decode_line(line: &str) -> (r: Result<RawMessage, Fault>)
    ensures
        match r {
            Ok(raw) => line_fault(line@) is None && raw@ == line_raw(line@),
            Err(fault) => line_fault(line@) == Some(fault@),
        },
{
    match parse_members(line) {
        Err(fault) => Err(fault),
        Ok(members) => match decode(&members) {
            Ok(raw) => Ok(raw),
            Err(name) => Err(Fault::Mistyped(name)),
        },
    }
}

/// Processes one line at a moment when the clock shows `now`.
pub fn process_json_line_at(line: &str, now: Timestamp) -> (outcome: LineOutcome)
    ensures
        outcome@.answers(line@, now),
{
    match decode_line(line) {
        Ok(raw) => LineOutcome::Message(raw.normalize_at(now)),
        Err(fault) => LineOutcome::Rejected { fault, raw: String::from_str(line) },
    }
}

/// Processes one line, asking the clock only where the line gives a message
/// whose time it does not name.
pub fn process_json_line(line: &str) -> (outcome: LineOutcome)
    ensures
        answered(outcome@, line@),
{
    match decode_line(line) {
        Ok(raw) => {
            let normalized = raw.normalize();
            let outcome = LineOutcome::Message(normalized);
            proof {
                let now = choose|now: Timestamp|
                    now.wf() && normalized@ == #[trigger] crate::message::normalized(raw@, now);
                assert(now.wf() && outcome@.answers(line@, now));
            }
            outcome
        },
        Err(fault) => {
            let outcome = LineOutcome::Rejected { fault, raw: String::from_str(line) };
            proof {
                Timestamp::lemma_at_holds(0, 0);
                assert(outcome@.answers(line@, Timestamp::at(0, 0)));
            }
            outcome
        },
    }
}

impl LineOutcome {
    /// The lines for the log.
    pub fn log(&self) -> (lines: Vec<String>)
        ensures
            texts(lines@) == self@.log_lines(),
    {
        let mut lines: Vec<String> = Vec::new();
        match self {
            LineOutcome::Message(normalized) => {
                if let Some(warning) = &normalized.warning {
                    lines.push(warning.clone());
                }
            },
            LineOutcome::Rejected { fault, raw } => {
                let words = fault.describe();
                lines.push(
                    String::from_str(FAILED_TO_PARSE).concat(words.as_str()).concat(
                        RAW_LINE,
                    ).concat(raw.as_str()),
                );
            },
        }
        assert(texts(lines@) =~= self@.log_lines());
        lines
    }

    /// The lines for the reader.
    pub fn output(&self) -> (lines: Vec<String>)
        ensures
            texts(lines@) == self@.output_lines(),
    {
        match self {
            LineOutcome::Message(normalized) => report(&normalized.message),
            LineOutcome::Rejected { .. } => {
                let lines: Vec<String> = Vec::new();
                assert(texts(lines@) =~= self@.output_lines());
                lines
            },
        }
    }
}

/// The line for the log when a line of input could not be read, for the
/// reason that `reason` gives.
pub fn read_error_line(reason: &str) -> (line: String)
    ensures
        line@ == ERROR_READING@ + reason@,
{
    String::from_str(ERROR_READING).concat(reason)
}

/// The outcomes of `outcomes`, each with its texts as sequences of
/// characters.
pub open spec fn outcome_views(outcomes: Seq<LineOutcome>) -> Seq<LineOutcomeView> {
    Seq::new(outcomes.len(), |i: int| outcomes[i]@)
}

/// Whether `outcomes` holds, in the order of the lines, the outcome owed for
/// each line of `lines`.
pub open spec fn answer_in_order(outcomes: Seq<LineOutcomeView>, lines: Seq<Seq<char>>) -> bool {
    &&& outcomes.len() == lines.len()
    &&& forall|i: int| 0 <= i < lines.len() ==> answered(#[trigger] outcomes[i], lines[i])
}

/// Processes the lines of an input one after the other. No line stops the
/// rest: each has its outcome, at its place.
pub fn process_lines(lines: &Vec<String>) -> (outcomes: Vec<LineOutcome>)
    ensures
        answer_in_order(outcome_views(outcomes@), texts(lines@)),
{
    let mut outcomes: Vec<LineOutcome> = Vec::new();
    let mut i: usize = 0;
    while i < lines.len()
        invariant
            i <= lines@.len(),
            outcomes@.len() == i,
            forall|k: int| 0 <= k < i ==> answered((#[trigger] outcomes@[k])@, lines@[k]@),
        decreases lines@.len() - i,
    {
        let outcome = process_json_line(lines[i].as_str());
        outcomes.push(outcome);
        i += 1;
    }
    outcomes
}

/// How many of `lines` are malformed.
pub open spec fn malformed_among(lines: Seq<Seq<char>>) -> nat
    decreases lines.len(),
{
    if lines.len() == 0 {
        0
    } else {
        malformed_among(lines.drop_last()) + if malformed(lines.last()) {
            1nat
        } else {
            0nat
        }
    }
}

/// How many of `outcomes` are messages, each of which is owed one report.
pub open spec fn messages_among(outcomes: Seq<LineOutcomeView>) -> nat
    decreases outcomes.len(),
{
    if outcomes.len() == 0 {
        0
    } else {
        messages_among(outcomes.drop_last()) + if outcomes.last() is Message {
            1nat
        } else {
            0nat
        }
    }
}

/// How many of `outcomes` are rejections, each of which is owed one entry
/// of the log.
pub open spec fn rejections_among(outcomes: Seq<LineOutcomeView>) -> nat
    decreases outcomes.len(),
{
    if outcomes.len() == 0 {
        0
    } else {
        rejections_among(outcomes.drop_last()) + if outcomes.last() is Rejected {
            1nat
        } else {
            0nat
        }
    }
}

/// Of the lines of an input, the malformed ones are rejected and the others
/// give a message, each at its place: with `n` lines of which `m` are
/// malformed there are `n - m` messages and `m` rejections. A rejection
/// gives the reader nothing and the log one line; a message gives the reader
/// a report.
pub proof fn lemma_messages_and_rejections(
    outcomes: Seq<LineOutcomeView>,
    lines: Seq<Seq<char>>,
)
    requires
        answer_in_order(outcomes, lines),
    ensures
        messages_among(outcomes) + malformed_among(lines) == lines.len(),
        rejections_among(outcomes) == malformed_among(lines),
        forall|i: int|
            0 <= i < lines.len() ==> ((#[trigger] outcomes[i]) is Rejected <==> malformed(
                lines[i],
            )),
        forall|i: int|
            0 <= i < lines.len() && malformed(lines[i]) ==> (#[trigger] outcomes[i]).output_lines().len()
                == 0 && outcomes[i].log_lines().len() == 1,
        forall|i: int|
            0 <= i < lines.len() && !malformed(lines[i]) ==> (#[trigger] outcomes[i]).output_lines().len()
                >= 2,
    decreases lines.len(),
{
    assert forall|i: int| 0 <= i < lines.len() implies ((#[trigger] outcomes[i]) is Rejected
        <==> malformed(lines[i])) by {
        assert(answered(outcomes[i], lines[i]));
    }
    if lines.len() > 0 {
        let front = lines.drop_last();
        let before = outcomes.drop_last();
        assert forall|i: int| 0 <= i < front.len() implies answered(
            #[trigger] before[i],
            front[i],
        ) by {
            assert(answered(outcomes[i], lines[i]));
        }
        lemma_messages_and_rejections(before, front);
    }
}

} // verus!
