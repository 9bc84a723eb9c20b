//! Documents that must hold no secrets, and lists of results.

use crate::faults;
use crate::text;
use crate::text::{ascii_lowercase, contains, same_text};
use vstd::prelude::*;

verus! {

/// A member of an object.
pub struct Member {
    pub name: String,
    pub value: Document,
}

/// A document.
pub enum Document {
    /// A number, a truth value, or nothing.
    Plain,
    Text(String),
    Array(Vec<Document>),
    Object(Vec<Member>),
}

/// What looks like a secret.
#[derive(Debug, Clone, Copy, PartialEq, Eq, Structural)]
pub enum Secret {
    Field,
    Value,
}

/// Whether a name looks like that of a secret.
pub open spec fn names_secret(name: Seq<char>) -> bool {
    let lower = text::lower_text(name);
    ||| text::contains_text(lower, "secret"@)
    ||| text::contains_text(lower, "credential"@)
    ||| text::contains_text(lower, "access_key"@)
    ||| text::contains_text(lower, "signed_url"@)
    ||| text::contains_text(lower, "token"@)
}

/// Whether a text looks like a secret.
pub open spec fn holds_secret(value: Seq<char>) -> bool {
    let lower = text::lower_text(value);
    text::contains_text(lower, "x-amz-signature="@) || text::contains_text(lower, "aws_secret_access_key"@)
}

/// The first thing in a document that looks like a secret.
pub open spec fn secret_in(document: Document) -> Option<Secret>
    decreases document, 0int,
{
    match document {
        Document::Plain => None,
        Document::Text(value) => faults::unless(!holds_secret(value@), Secret::Value),
        Document::Array(values) => secret_among(values@, 0),
        Document::Object(members) => secret_within(members@, 0),
    }
}

/// The first thing from a position of an array on that looks like a secret.
pub open spec fn secret_among(values: Seq<Document>, from: int) -> Option<Secret>
    decreases values, values.len() - from,
{
    if 0 <= from < values.len() {
        faults::first(secret_in(values[from]), secret_among(values, from + 1))
    } else {
        None
    }
}

/// The first thing from a member of an object on that looks like a secret.
pub open spec fn secret_within(members: Seq<Member>, from: int) -> Option<Secret>
    decreases members, members.len() - from,
{
    if 0 <= from < members.len() {
        faults::first(
            faults::unless(!names_secret(members[from].name@), Secret::Field),
            faults::first(secret_in(members[from].value), secret_within(members, from + 1)),
        )
    } else {
        None
    }
}

fn is_secret_name(name: &str) -> (r: bool)
    ensures
        r == names_secret(name@),
{
    let lower = ascii_lowercase(name);
    contains(lower.as_str(), "secret") || contains(lower.as_str(), "credential") || contains(
        lower.as_str(),
        "access_key",
    ) || contains(lower.as_str(), "signed_url") || contains(lower.as_str(), "token")
}

fn is_secret_text(value: &str) -> (r: bool)
    ensures
        r == holds_secret(value@),
{
    let lower = ascii_lowercase(value);
    contains(lower.as_str(), "x-amz-signature=") || contains(
        lower.as_str(),
        "aws_secret_access_key",
    )
}

/// Refuses a document that holds something that looks like a secret.
pub fn reject_secrets(document: &Document) -> (r: Result<(), Secret>)
    ensures
        r is Ok <==> secret_in(*document) is None,
        r matches Err(e) ==> secret_in(*document) == Some(e),
    decreases document,
{
    match document {
        Document::Plain => Ok(()),
        Document::Text(value) => {
            if is_secret_text(value.as_str()) {
                Err(Secret::Value)
            } else {
                Ok(())
            }
        },
        Document::Array(values) => {
            let mut i: usize = 0;
            while i < values.len()
                invariant
                    i <= values.len(),
                    *document == Document::Array(*values),
                    secret_in(*document) == secret_among(values@, i as int),
                decreases values.len() - i,
            {
                assert(decreases_to!(*document => values@[i as int]));
                if let Err(secret) = reject_secrets(&values[i]) {
                    return Err(secret);
                }
                i += 1;
            }
            Ok(())
        },
        Document::Object(members) => {
            let mut i: usize = 0;
            while i < members.len()
                invariant
                    i <= members.len(),
                    *document == Document::Object(*members),
                    secret_in(*document) == secret_within(members@, i as int),
                decreases members.len() - i,
            {
                if is_secret_name(members[i].name.as_str()) {
                    return Err(Secret::Field);
                }
                assert(decreases_to!(*document => members@[i as int].value));
                if let Err(secret) = reject_secrets(&members[i].value) {
                    return Err(secret);
                }
                i += 1;
            }
            Ok(())
        },
    }
}

/// What is wrong with the list of the results of a run.
#[derive(Debug, Clone, Copy, PartialEq, Eq, Structural)]
pub enum ListingFault {
    /// A path is listed twice.
    Duplicate,
    /// There are more or fewer results than the list has.
    Count,
    /// The result at a position is not there.
    Missing(usize),
}

/// Whether no path is listed twice.
pub open spec fn listed_once(paths: Seq<Seq<char>>) -> bool {
    forall|i: int, j: int| 0 <= i < j < paths.len() ==> paths[i] != paths[j]
}

/// Whether the results before a position are there, and the one at it is not.
pub open spec fn first_missing(present: Seq<bool>, i: int) -> bool {
    0 <= i < present.len() && !present[i] && forall|k: int| 0 <= k < i ==> present[k]
}

/// Checks the list of results against the results that are there.
pub fn check_listing(listed: &Vec<String>, found: usize, present: &Vec<bool>) -> (r: Result<
    (),
    ListingFault,
>)
    requires
        present.len() == listed.len(),
    ensures
        r == Err::<(), ListingFault>(ListingFault::Duplicate) <==> !listed_once(
            text::texts(listed@),
        ),
        r == Err::<(), ListingFault>(ListingFault::Count) <==> listed_once(text::texts(listed@))
            && found != listed.len(),
        r matches Err(ListingFault::Missing(i)) ==> listed_once(text::texts(listed@)) && found
            == listed.len() && first_missing(present@, i as int),
        r is Ok <==> listed_once(text::texts(listed@)) && found == listed.len() && forall|k: int|
            0 <= k < present.len() ==> present@[k],
{
    let ghost paths = text::texts(listed@);
    let mut i: usize = 0;
    while i < listed.len()
        invariant
            paths == text::texts(listed@),
            i <= listed.len(),
            forall|a: int, b: int| 0 <= a < b < i ==> paths[a] != paths[b],
        decreases listed.len() - i,
    {
        let mut j: usize = 0;
        while j < i
            invariant
                paths == text::texts(listed@),
                j <= i < listed.len(),
                forall|a: int| 0 <= a < j ==> paths[a] != paths[i as int],
            decreases i - j,
        {
            if same_text(listed[j].as_str(), listed[i].as_str()) {
                assert(paths[j as int] == paths[i as int]);
                return Err(ListingFault::Duplicate);
            }
            j += 1;
        }
        i += 1;
    }
    assert(listed_once(paths));
    if found != listed.len() {
        return Err(ListingFault::Count);
    }
    let mut k: usize = 0;
    while k < present.len()
        invariant
            k <= present.len(),
            forall|a: int| 0 <= a < k ==> present@[a],
            listed_once(text::texts(listed@)),
            found == listed.len(),
        decreases present.len() - k,
    {
        if !present[k] {
            return Err(ListingFault::Missing(k));
        }
        k += 1;
    }
    Ok(())
}

/// A document without secrets has none in its parts.
pub proof fn parts_hold_no_secrets(document: Document)
    requires
        secret_in(document) is None,
    ensures
        document matches Document::Array(values) ==> forall|i: int|
            0 <= i < values@.len() ==> secret_in(#[trigger] values@[i]) is None,
        document matches Document::Object(members) ==> forall|i: int|
            0 <= i < members@.len() ==> !names_secret((#[trigger] members@[i]).name@) && secret_in(
                members@[i].value,
            ) is None,
{
    if let Document::Array(values) = document {
        assert forall|i: int| 0 <= i < values@.len() implies secret_in(#[trigger] values@[i])
            is None by {
            none_among(values@, 0, i);
        }
    }
    if let Document::Object(members) = document {
        assert forall|i: int| 0 <= i < members@.len() implies !names_secret(
            (#[trigger] members@[i]).name@,
        ) && secret_in(members@[i].value) is None by {
            none_within(members@, 0, i);
        }
    }
}

proof fn none_among(values: Seq<Document>, from: int, i: int)
    requires
        0 <= from <= i < values.len(),
        secret_among(values, from) is None,
    ensures
        secret_in(values[i]) is None,
    decreases i - from,
{
    if from < i {
        none_among(values, from + 1, i);
    }
}

proof fn none_within(members: Seq<Member>, from: int, i: int)
    requires
        0 <= from <= i < members.len(),
        secret_within(members, from) is None,
    ensures
        !names_secret(members[i].name@),
        secret_in(members[i].value) is None,
    decreases i - from,
{
    if from < i {
        none_within(members, from + 1, i);
    }
}

/// A document is published only where no field is named like a secret and no text holds a signature
/// or a key, however deep they lie.
pub proof fn secrets_are_named(name: Seq<char>, value: Seq<char>)
    ensures
        names_secret(name) <==> {
            ||| text::contains_text(text::lower_text(name), "secret"@)
            ||| text::contains_text(text::lower_text(name), "credential"@)
            ||| text::contains_text(text::lower_text(name), "access_key"@)
            ||| text::contains_text(text::lower_text(name), "signed_url"@)
            ||| text::contains_text(text::lower_text(name), "token"@)
        },
        holds_secret(value) <==> {
            ||| text::contains_text(text::lower_text(value), "x-amz-signature="@)
            ||| text::contains_text(text::lower_text(value), "aws_secret_access_key"@)
        },
{
}

/// A text that holds a secret is refused, wherever it stands.
pub proof fn secret_texts_are_refused(document: Document)
    ensures
        document matches Document::Text(value) ==> (secret_in(document) is Some <==> holds_secret(
            value@,
        )),
        document is Plain ==> secret_in(document) is None,
{
}

} // verus!
