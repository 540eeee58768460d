//! The pages and values of the introductory routes.

use vstd::prelude::*;
use vstd::string::StringExecFns;

verus! {

/// The page that `GET /` serves.
pub fn handler() -> (page: &'static str)
    ensures
        page@ == "<h1>🌎 Hello, World!</h1>"@,
{
    "<h1>🌎 Hello, World!</h1>"
}

/// The page that the placeholder user routes serve.
pub fn dummy_handler() -> (page: &'static str)
    ensures
        page@ == "<h1>🤪 Dummy Handler</h1>"@,
{
    "<h1>🤪 Dummy Handler</h1>"
}

/// A value without fields; as JSON it is the empty object.
#[derive(Clone, Copy, Debug)]
pub struct Dummy {}

impl Dummy {
    /// The one value of this type.
    pub fn new() -> (d: Dummy)
        ensures
            d == (Dummy {}),
    {
        Dummy {}
    }

    /// The name of this value's type.
    pub fn to_string(&self) -> (s: String)
        ensures
            s@ == "Dummy"@,
    {
        String::from_str("Dummy")
    }
}

} // verus!
