//! Names that become parts of object-store and file paths.

use crate::text::{chars_of, same_text};
use vstd::prelude::*;

verus! {

/// The most characters of a name.
pub const MAX_NAME_CHARS: usize = 128;

/// Whether a character may stand in a name.
pub open spec fn name_char(c: char) -> bool {
    ('a' <= c && c <= 'z') || ('A' <= c && c <= 'Z') || ('0' <= c && c <= '9') || c == '-' || c
        == '_' || c == '.'
}

/// Whether a text is a name: 1 to 128 ASCII letters, digits, dots, hyphens or underscores, and
/// neither of the relative path components.
pub open spec fn is_name(text: Seq<char>) -> bool {
    &&& 0 < text.len() <= MAX_NAME_CHARS
    &&& text != "."@
    &&& text != ".."@
    &&& forall|i: int| 0 <= i < text.len() ==> name_char(#[trigger] text[i])
}

/// A text is not a name.
#[derive(Debug)]
pub struct InvalidName {
    /// What was to be named.
    pub kind: String,
}

fn follows_rules(value: &str) -> (r: bool)
    ensures
        r == is_name(value@),
{
    if same_text(value, ".") || same_text(value, "..") {
        return false;
    }
    let chars = chars_of(value);
    if chars.len() == 0 || chars.len() > MAX_NAME_CHARS {
        return false;
    }
    let mut i: usize = 0;
    while i < chars.len()
        invariant
            chars@ == value@,
            i <= chars.len(),
            forall|k: int| 0 <= k < i ==> name_char(#[trigger] chars@[k]),
        decreases chars.len() - i,
    {
        let c: char = chars[i];
        if !(('a' <= c && c <= 'z') || ('A' <= c && c <= 'Z') || ('0' <= c && c <= '9') || c == '-'
            || c == '_' || c == '.') {
            return false;
        }
        i += 1;
    }
    true
}

/// Accepts a name of something.
pub fn validate_name(value: &str, kind: &str) -> (r: Result<(), InvalidName>)
    ensures
        r is Ok <==> is_name(value@),
        r matches Err(e) ==> e.kind@ == kind@,
{
    if follows_rules(value) {
        Ok(())
    } else {
        Err(InvalidName { kind: kind.to_string() })
    }
}

/// Accepts an identifier of something, which is a name.
pub fn validate_identifier(value: &str, kind: &str) -> (r: Result<(), InvalidName>)
    ensures
        r is Ok <==> is_name(value@),
        r matches Err(e) ==> e.kind@ == kind@,
{
    validate_name(value, kind)
}

/// A name holds no path separator, and is no way out of its directory.
pub proof fn names_stay_in_their_directory(text: Seq<char>)
    requires
        is_name(text),
    ensures
        text.len() > 0,
        !text.contains('/'),
        !text.contains('\\'),
        text != "."@,
        text != ".."@,
{
    assert forall|i: int| 0 <= i < text.len() implies text[i] != '/' && text[i] != '\\' by {
        assert(name_char(text[i]));
    }
}

/// A name has from one to 128 characters, each a letter, a digit, a dash, an underscore or a dot,
/// and is neither the directory itself nor the one above.
pub proof fn names_are_plain(text: Seq<char>)
    ensures
        is_name(text) <==> {
            &&& 1 <= text.len() <= 128
            &&& text != "."@
            &&& text != ".."@
            &&& forall|i: int|
                0 <= i < text.len() ==> {
                    let c = #[trigger] text[i];
                    ||| 'a' <= c && c <= 'z'
                    ||| 'A' <= c && c <= 'Z'
                    ||| '0' <= c && c <= '9'
                    ||| c == '-'
                    ||| c == '_'
                    ||| c == '.'
                }
        },
{
    if is_name(text) {
        assert forall|i: int| 0 <= i < text.len() implies ({
            let c = #[trigger] text[i];
            ||| 'a' <= c && c <= 'z'
            ||| 'A' <= c && c <= 'Z'
            ||| '0' <= c && c <= '9'
            ||| c == '-'
            ||| c == '_'
            ||| c == '.'
        }) by {
            assert(name_char(text[i]));
        }
    }
}

} // verus!
