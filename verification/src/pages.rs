//! The plain page texts the base routes answer with.

use vstd::prelude::*;

use vstd::string::StringExecFns;

verus! {

/// The optional name a greeting route is asked for.
#[derive(Debug, Clone, PartialEq)]
pub struct HelloParams {
    pub name: Option<String>,
}

/// The name a greeting addresses: the one asked for, or `Doe`.
pub open spec fn spec_greeting_name(params: HelloParams) -> Seq<char> {
    match params.name {
        Some(name) => name@,
        None => "Doe"@,
    }
}

/// The HTML greeting: `<p>Hello {name}!</p>`.
pub fn hello_html(params: &HelloParams) -> (r: String)
    ensures
        r@ == "<p>Hello "@ + spec_greeting_name(*params) + "!</p>"@,
{
    let name: &str = match &params.name {
        Some(name) => name.as_str(),
        None => "Doe",
    };
    String::from_str("<p>Hello ").concat(name).concat("!</p>")
}

/// The plain greeting: `Hello {name}!`.
pub fn hello_plain(name: &String) -> (r: String)
    ensures
        r@ == "Hello "@ + name@ + "!"@,
{
    String::from_str("Hello ").concat(name.as_str()).concat("!")
}

/// What the index route answers.
pub fn index() -> (r: String)
    ensures
        r@ == "Hello, World!"@,
{
    "Hello, World!".to_owned()
}

} // verus!
