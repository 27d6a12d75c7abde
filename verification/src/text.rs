//! Helpers on texts: optional texts, ASCII texts read byte by byte, and
//! words compared without regard to case.

use vstd::prelude::*;
use vstd::string::*;
use vstd::utf8::*;

verus! {

/// Whether `bytes` holds the characters of `text`, one byte for each.
pub open spec fn writes_ascii(bytes: Seq<u8>, text: Seq<char>) -> bool {
    &&& bytes.len() == text.len()
    &&& forall|k: int| 0 <= k < text.len() ==> (#[trigger] bytes[k]) as int == text[k] as int
}

/// The bytes of `text` where all of it is ASCII, and nothing where it is not.
pub fn ascii_bytes(text: &str) -> (r: Option<&[u8]>)
    ensures
        r is Some <==> is_ascii_chars(text@),
        r matches Some(bytes) ==> writes_ascii(bytes@, text@),
{
    if text.is_ascii() {
        let bytes = text.as_bytes();
        proof {
            is_ascii_spec_bytes(text);
            assert forall|k: int| 0 <= k < text@.len() implies (#[trigger] bytes@[k]) as int
                == text@[k] as int by {
                assert('\0' <= text@[k] <= '\u{7f}');
                assert(bytes@[k] == text@[k] as u8);
            }
        }
        Some(bytes)
    } else {
        None
    }
}

/// What an optional text holds, as a sequence of characters.
pub open spec fn optional_text(text: Option<&str>) -> Option<Seq<char>> {
    match text {
        Some(s) => Some(s@),
        None => None,
    }
}

/// What an optional string holds, as a sequence of characters.
pub open spec fn optional_string(text: Option<String>) -> Option<Seq<char>> {
    match text {
        Some(s) => Some(s@),
        None => None,
    }
}

/// The lines of `lines`, each as a sequence of characters.
pub open spec fn texts(lines: Seq<String>) -> Seq<Seq<char>> {
    Seq::new(lines.len(), |i: int| lines[i]@)
}

/// Whether `text` is the word that `lower` writes in small letters and
/// `upper` in capitals, each letter in either case.
pub open spec fn spells_word(text: Seq<char>, lower: Seq<char>, upper: Seq<char>) -> bool {
    &&& text.len() == lower.len()
    &&& forall|i: int|
        0 <= i < text.len() ==> (#[trigger] text[i]) == lower[i] || text[i] == upper[i]
}

/// Compares `text` with a word given in both cases.
pub(crate) fn is_word(text: &str, lower: &str, upper: &str) -> (r: bool)
    requires
        lower@.len() == upper@.len(),
    ensures
        r == spells_word(text@, lower@, upper@),
{
    let n = lower.unicode_len();
    if text.unicode_len() != n {
        return false;
    }
    let mut i: usize = 0;
    while i < n
        invariant
            i <= n,
            n == text@.len(),
            n == lower@.len(),
            n == upper@.len(),
            forall|k: int| 0 <= k < i ==> (#[trigger] text@[k]) == lower@[k] || text@[k] == upper@[k],
        decreases n - i,
    {
        let c = text.get_char(i);
        if c != lower.get_char(i) && c != upper.get_char(i) {
            return false;
        }
        i += 1;
    }
    true
}

} // verus!
