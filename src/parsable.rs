//! The textual grammar of identifiers, and the state that parsers carry.

use vstd::prelude::*;

verus! {

/// State during parsing: every parser is passed a mutable reference to it.
pub struct State<'a, C> {
    pub ctx: &'a mut C,
}

/// Whether `c` is alphabetic, as `char::is_alphabetic` decides.
pub uninterp spec fn is_letter(c: char) -> bool;

/// Whether `c` is alphanumeric, as `char::is_alphanumeric` decides.
pub uninterp spec fn is_letter_or_digit(c: char) -> bool;

/// Relies on `char::is_alphabetic`.
#[verifier::external_body]
fn char_is_alphabetic(c: char) -> (r: bool)
    ensures
        r == is_letter(c),
{
    c.is_alphabetic()
}

/// Relies on `char::is_alphanumeric`.
#[verifier::external_body]
fn char_is_alphanumeric(c: char) -> (r: bool)
    ensures
        r == is_letter_or_digit(c),
{
    c.is_alphanumeric()
}

/// A character that may follow the first letter of an identifier.
pub open spec fn is_id_char(c: char) -> bool {
    is_letter_or_digit(c) || c == '_'
}

/// Parses an identifier at the start of `input`: a letter, followed by as many
/// letters, digits and underscores as follow it. Returns the number of
/// characters it takes up, or `None` where `input` does not start with a letter.
pub fn parse_id(input: &[char]) -> (r: Option<usize>)
    ensures
        r is None <==> (input@.len() == 0 || !is_letter(input@[0])),
        r is Some ==> 1 <= r->Some_0 <= input@.len(),
        r is Some ==> forall|i: int| 1 <= i < r->Some_0 ==> is_id_char(#[trigger] input@[i]),
        r is Some ==> (r->Some_0 == input@.len() || !is_id_char(input@[r->Some_0 as int])),
{
    if input.len() == 0 || !char_is_alphabetic(input[0]) {
        return None;
    }
    let mut n: usize = 1;
    while n < input.len()
        invariant
            1 <= n <= input@.len(),
            is_letter(input@[0]),
            forall|i: int| 1 <= i < n ==> is_id_char(#[trigger] input@[i]),
        decreases input@.len() - n,
    {
        let c = input[n];
        if !(char_is_alphanumeric(c) || c == '_') {
            return Some(n);
        }
        n = n + 1;
    }
    Some(n)
}

} // verus!
