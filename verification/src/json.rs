//! Reading a JSON text and the members of the object it holds.
//!
//! The JSON grammar is `serde_json`'s. What a message needs of a line is
//! little: that it holds an object, and for a handful of names what the
//! member of that name holds. Only those members are read; the value under
//! any other name is passed over unread.

use crate::binary64::Binary64;
use vstd::prelude::*;
use vstd::string::*;

verus! {

/// A JSON number, in the two forms in which it can be taken: as a whole
/// number, where it is one that an `i64` holds, and as a number in IEEE 754
/// binary64.
#[derive(Clone, Copy, Debug, PartialEq, Eq, Structural)]
pub struct Number {
    pub integer: Option<i64>,
    pub binary64: Option<Binary64>,
}

/// What a member of a JSON object holds, as far as a message reads it.
#[derive(Clone, Debug, PartialEq, Eq)]
pub enum Member {
    /// The JSON `null`.
    Null,
    /// A string.
    Text(String),
    /// A number.
    Number(Number),
    /// A boolean, an array or an object, or a value that the parser
    /// refuses to read, such as a number beyond every range.
    Other,
}

/// A member with its text as a sequence of characters.
pub enum MemberView {
    Null,
    Text(Seq<char>),
    Number(Number),
    Other,
}

impl View for Member {
    type V = MemberView;

    open spec fn view(&self) -> MemberView {
        match self {
            Member::Null => MemberView::Null,
            Member::Text(s) => MemberView::Text(s@),
            Member::Number(n) => MemberView::Number(*n),
            Member::Other => MemberView::Other,
        }
    }
}

/// What an optional member holds, its text as a sequence of characters.
pub open spec fn optional_member(member: Option<Member>) -> Option<MemberView> {
    match member {
        Some(m) => Some(m@),
        None => None,
    }
}

/// The members of a JSON object, each with its name and the JSON text of its
/// value, as sequences of characters.
pub open spec fn entries_view(entries: Seq<(String, String)>) -> Seq<(Seq<char>, Seq<char>)> {
    Seq::new(entries.len(), |i: int| (entries[i].0@, entries[i].1@))
}

/// What `serde_json` makes of the text `line` when it is asked for an
/// object: the members of the object, each with its name and the JSON text
/// of its value as it stands in the line, or else the parser's words. The
/// member values are not read at this point. Of two members of one name only
/// the text's last is among the members.
pub uninterp spec fn parsed_object(line: Seq<char>) -> Result<
    Seq<(Seq<char>, Seq<char>)>,
    Seq<char>,
>;

/// What `serde_json` reads from `text`, the JSON text of one value: a
/// `null`, a string, a number, or something else, be it a boolean, an array,
/// an object or a text that the parser refuses.
pub uninterp spec fn parsed_value(text: Seq<char>) -> MemberView;

/// Calls `serde_json::from_str` for a map from names to
/// `serde_json::value::RawValue`, and hands out each member's name with the
/// text of its value. An error is handed out in the words of its `Display`.
/// What comes back is a function of the line.
#[verifier::external_body]
pub(crate) fn parse_object(line: &str) -> (r: Result<Vec<(String, String)>, String>)
    ensures
        match r {
            Ok(entries) => parsed_object(line@) == Ok::<_, Seq<char>>(entries_view(entries@)),
            Err(words) => parsed_object(line@) == Err::<Seq<(Seq<char>, Seq<char>)>, _>(words@),
        },
{
    match serde_json::from_str::<
        std::collections::BTreeMap<String, Box<serde_json::value::RawValue>>,
    >(line) {
        Ok(members) => Ok(
            members.into_iter().map(|(name, value)| (name, value.get().to_string())).collect(),
        ),
        Err(error) => Err(error.to_string()),
    }
}

/// Calls `serde_json::from_str` for a `serde_json::Value` and hands out what
/// the value holds, as far as a message reads it. What comes back is a
/// function of the text.
#[verifier::external_body]
pub(crate) fn parse_value(text: &str) -> (member: Member)
    ensures
        member@ == parsed_value(text@),
{
    match serde_json::from_str::<serde_json::Value>(text) {
        Ok(serde_json::Value::Null) => Member::Null,
        Ok(serde_json::Value::String(text)) => Member::Text(text),
        Ok(serde_json::Value::Number(n)) => Member::Number(
            Number {
                integer: n.as_i64(),
                binary64: n.as_f64().map(|x| Binary64 { bits: x.to_bits() }),
            },
        ),
        Ok(_) => Member::Other,
        Err(_) => Member::Other,
    }
}

/// The text of the value of the first member called `name`.
pub open spec fn member_text(entries: Seq<(Seq<char>, Seq<char>)>, name: Seq<char>) -> Option<
    Seq<char>,
>
    decreases entries.len(),
{
    if entries.len() == 0 {
        None
    } else if entries[0].0 == name {
        Some(entries[0].1)
    } else {
        member_text(entries.skip(1), name)
    }
}

/// What the member called `name` holds, where there is one.
pub open spec fn member_of(entries: Seq<(Seq<char>, Seq<char>)>, name: Seq<char>) -> Option<
    MemberView,
> {
    match member_text(entries, name) {
        Some(text) => Some(parsed_value(text)),
        None => None,
    }
}

/// Finds the member called `name` and reads its value. The values of the
/// other members stay unread.
pub fn find_member(entries: &Vec<(String, String)>, name: &str) -> (member: Option<Member>)
    ensures
        optional_member(member) == member_of(entries_view(entries@), name@),
{
    let wanted = String::from_str(name);
    let ghost all = entries_view(entries@);
    let mut i: usize = 0;
    assert(all.skip(0) =~= all);
    while i < entries.len()
        invariant
            i <= entries@.len(),
            all == entries_view(entries@),
            wanted@ == name@,
            member_text(all, name@) == member_text(all.skip(i as int), name@),
        decreases entries@.len() - i,
    {
        let ghost rest = all.skip(i as int);
        assert(rest[0] == all[i as int]);
        assert(rest.skip(1) =~= all.skip(i + 1));
        if entries[i].0 == wanted {
            return Some(parse_value(entries[i].1.as_str()));
        }
        i += 1;
    }
    None
}

} // verus!
