//! Small traits shared by IR entities: checking, naming and sharing.

use vstd::prelude::*;

verus! {

/// Check and ensure correctness.
pub trait Verify {
    /// What the check consults.
    type Context;
    /// What a failed check reports.
    type Error;

    fn verify(&self, ctx: &Self::Context) -> Result<(), Self::Error>;
}

/// Relies on `String::push_str`: appends `t` at the end of `s`.
#[verifier::external_body]
fn push_str(s: &mut String, t: &str)
    ensures
        final(s)@ == old(s)@ + t@,
{
    s.push_str(t);
}

/// The unique name of an entity: its given name, an underscore and its id,
/// or the id alone where it has no given name.
pub fn unique_name_of(given: Option<String>, id: String) -> (r: String)
    ensures
        given is None ==> r@ == id@,
        given is Some ==> r@ == given->Some_0@ + seq!['_'] + id@,
{
    match given {
        Some(g) => {
            let mut s = g;
            proof {
                reveal_strlit("_");
            }
            push_str(&mut s, "_");
            push_str(&mut s, id.as_str());
            s
        },
        None => id,
    }
}

/// Anything that has a name.
pub trait Named {
    /// Where ids are assigned.
    type Context;

    /// A (not necessarily unique) name.
    fn given_name(&self, ctx: &Self::Context) -> Option<String>;

    /// A unique (within the context) id.
    fn id(&self, ctx: &Self::Context) -> String;

    /// A unique name: the given name and the id, joined by an underscore.
    fn unique_name(&self, ctx: &Self::Context) -> String {
        unique_name_of(self.given_name(ctx), self.id(ctx))
    }
}

/// For reference-counted containers, share data by increasing the reference
/// count, as `Rc::clone` does, under a less ambiguous name.
pub trait RcShare: Sized {
    /// Share this object with someone else by increasing the reference count.
    fn share(&self) -> Self;
}

} // verus!
