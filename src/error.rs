//! What a store operation can report instead of a record.

use vstd::prelude::*;
use vstd::string::StringExecFns;

verus! {

#[derive(Clone, Debug, PartialEq, Eq)]
pub enum Error {
    /// No record has the identifier; the message names it.
    NotFound { msg: String },
    /// The encoded record is longer than a map slot holds.
    RecordTooLarge,
    /// The stored bytes under the identifier do not decode to a record.
    CorruptRecord,
    /// The counter is at its largest value and cannot issue another identifier.
    IdsExhausted,
    /// The counter's region holds a cell of a layout this library cannot read,
    /// or has no room for a new one.
    CounterInitFailed,
    /// The memory or a region holds a structure of another layout, which
    /// opening would fail on.
    IncompatibleLayout,
}

/// `n` written in decimal digits.
pub open spec fn decimal(n: u64) -> Seq<char>
    decreases n,
{
    let digit = seq!['0', '1', '2', '3', '4', '5', '6', '7', '8', '9'][(n % 10) as int];
    if n < 10 {
        seq![digit]
    } else {
        decimal(n / 10).push(digit)
    }
}

/// The message of a `NotFound` for a record of kind `kind` and identifier `id`.
pub open spec fn not_found_text(kind: Seq<char>, id: u64) -> Seq<char> {
    kind + " with the id "@ + decimal(id) + " does not exist"@
}

/// Relies on `u64`'s `Display`, through `to_string`: decimal digits, no sign
/// and no leading zeros.
#[verifier::external_body]
fn decimal_text(id: u64) -> (r: String)
    ensures
        r@ == decimal(id),
{
    id.to_string()
}

/// The `NotFound` error for a record of kind `kind` and identifier `id`.
pub fn not_found(kind: &str, id: u64) -> (r: Error)
    ensures
        r matches Error::NotFound { msg } && msg@ == not_found_text(kind@, id),
{
    let digits = decimal_text(id);
    let mut msg = kind.to_owned();
    msg.append(" with the id ");
    msg.append(digits.as_str());
    msg.append(" does not exist");
    Error::NotFound { msg }
}

} // verus!
