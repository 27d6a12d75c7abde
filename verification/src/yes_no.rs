//! Flags written as words: yes and no, true and false, one and zero.

use crate::text::{is_word, optional_text, spells_word};
use vstd::prelude::*;

verus! {

/// Whether `text` affirms: `yes` or `true` in any mix of cases, or `1`.
pub open spec fn affirms(text: Seq<char>) -> bool {
    ||| spells_word(text, "yes"@, "YES"@)
    ||| spells_word(text, "true"@, "TRUE"@)
    ||| text == "1"@
}

/// Whether `text` denies: `no` or `false` in any mix of cases, or `0`.
pub open spec fn denies(text: Seq<char>) -> bool {
    ||| spells_word(text, "no"@, "NO"@)
    ||| spells_word(text, "false"@, "FALSE"@)
    ||| text == "0"@
}

/// The flag that an optional text stands for. A text that neither affirms
/// nor denies stands for none, as an absent text does.
pub open spec fn yes_no(text: Option<Seq<char>>) -> Option<bool> {
    match text {
        Some(s) => if affirms(s) {
            Some(true)
        } else if denies(s) {
            Some(false)
        } else {
            None
        },
        None => None,
    }
}

/// No text both affirms and denies.
pub proof fn lemma_never_both(text: Seq<char>)
    ensures
        !(affirms(text) && denies(text)),
{
    reveal_strlit("yes");
    reveal_strlit("YES");
    reveal_strlit("true");
    reveal_strlit("TRUE");
    reveal_strlit("1");
    reveal_strlit("no");
    reveal_strlit("NO");
    reveal_strlit("false");
    reveal_strlit("FALSE");
    reveal_strlit("0");
    if affirms(text) && denies(text) {
        assert(text.len() == 1);
        assert(text[0] == '1' && text[0] == '0');
    }
}

/// Reads a flag from an optional text. Nothing is an error here: what is
/// not understood is left unknown.
pub fn deserialize_yes_no(text: Option<&str>) -> (flag: Option<bool>)
    ensures
        flag == yes_no(optional_text(text)),
{
    proof {
        reveal_strlit("yes");
        reveal_strlit("YES");
        reveal_strlit("true");
        reveal_strlit("TRUE");
        reveal_strlit("1");
        reveal_strlit("no");
        reveal_strlit("NO");
        reveal_strlit("false");
        reveal_strlit("FALSE");
        reveal_strlit("0");
    }
    match text {
        None => None,
        Some(s) => {
            assert(spells_word(s@, "1"@, "1"@) == (s@ =~= "1"@));
            assert(spells_word(s@, "0"@, "0"@) == (s@ =~= "0"@));
            if is_word(s, "yes", "YES") || is_word(s, "true", "TRUE") || is_word(s, "1", "1") {
                Some(true)
            } else if is_word(s, "no", "NO") || is_word(s, "false", "FALSE") || is_word(
                s,
                "0",
                "0",
            ) {
                Some(false)
            } else {
                None
            }
        },
    }
}

} // verus!
