//! The line encoder shared by the four sources: the pieces of a measurement
//! line and the functions that write them.
//!
//! A line reads `measurement,tag=value,.. field=value,.. timestamp`: the
//! measurement name and the tags up to the first space, the fields up to the
//! second, then the Unix time in milliseconds. An integer field carries the
//! suffix `i`; a float field carries none.

use vstd::prelude::*;
use crate::text::{decimal, push_decimal};

verus! {

/// One tag: `key=value`.
pub open spec fn tag(key: Seq<char>, value: Seq<char>) -> Seq<char> {
    key + "="@ + value
}

/// One integer field: `key=<decimal>i`.
pub open spec fn integer_field(key: Seq<char>, value: nat) -> Seq<char> {
    key + "="@ + decimal(value) + "i"@
}

/// One float field: `key=<text>`, where `text` is the number as written out
/// by whoever took the reading.
pub open spec fn float_field(key: Seq<char>, text: Seq<char>) -> Seq<char> {
    key + "="@ + text
}

/// A whole line, from the measurement name to the timestamp.
pub open spec fn measurement(
    name: Seq<char>,
    tags: Seq<char>,
    fields: Seq<char>,
    timestamp: nat,
) -> Seq<char> {
    name + ","@ + tags + " "@ + fields + " "@ + decimal(timestamp)
}

/// Appends the tag `key=value` to `out`.
pub fn push_tag(out: &mut String, key: &str, value: &str)
    ensures
        final(out)@ == old(out)@ + tag(key@, value@),
{
    out.append(key);
    out.append("=");
    out.append(value);
    assert(out@ =~= old(out)@ + tag(key@, value@));
}

/// Appends the integer field `key=<value>i` to `out`.
pub fn push_integer_field(out: &mut String, key: &str, value: u64)
    ensures
        final(out)@ == old(out)@ + integer_field(key@, value as nat),
{
    out.append(key);
    out.append("=");
    push_decimal(out, value as u128);
    out.append("i");
    assert(out@ =~= old(out)@ + integer_field(key@, value as nat));
}

/// Appends the float field `key=<text>` to `out`.
pub fn push_float_field(out: &mut String, key: &str, text: &str)
    ensures
        final(out)@ == old(out)@ + float_field(key@, text@),
{
    out.append(key);
    out.append("=");
    out.append(text);
    assert(out@ =~= old(out)@ + float_field(key@, text@));
}

/// Puts a line together from its parts.
pub fn encode(name: &str, tags: &str, fields: &str, timestamp: u128) -> (line: String)
    ensures
        line@ == measurement(name@, tags@, fields@, timestamp as nat),
{
    let mut line = String::from_str(name);
    line.append(",");
    line.append(tags);
    line.append(" ");
    line.append(fields);
    line.append(" ");
    push_decimal(&mut line, timestamp);
    line
}

/// A text with a timestamp at its end.
pub open spec fn stamped(head: Seq<char>, timestamp: nat) -> Seq<char> {
    head + decimal(timestamp)
}

/// Whether two lines are the same but for the timestamp at their end.
pub open spec fn same_but_for_timestamp(first: Seq<char>, second: Seq<char>) -> bool {
    exists|head: Seq<char>, at: nat, then: nat|
        #![trigger stamped(head, at), stamped(head, then)]
        first == stamped(head, at) && second == stamped(head, then)
}

/// Two lines of one measurement with the same tags and fields are the same
/// but for their timestamps, and the same where these agree.
pub proof fn lemma_same_but_for_timestamp(
    name: Seq<char>,
    tags: Seq<char>,
    fields: Seq<char>,
    at: nat,
    then: nat,
)
    ensures
        same_but_for_timestamp(
            measurement(name, tags, fields, at),
            measurement(name, tags, fields, then),
        ),
        at == then ==> measurement(name, tags, fields, at) == measurement(name, tags, fields, then),
{
    let head = name + ","@ + tags + " "@ + fields + " "@;
    assert(measurement(name, tags, fields, at) == stamped(head, at));
    assert(measurement(name, tags, fields, then) == stamped(head, then));
}

} // verus!
