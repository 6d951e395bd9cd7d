//! Component systems and script classes: the scene-camera and JavaScript
//! systems, and the `Person` class exposed to scripts.

use vstd::prelude::*;

verus! {

/// Moves scene cameras from mouse input; it holds no state.
pub struct SceneCameraComponentSystem {}

/// Runs the JavaScript script of each entity; it holds no state.
pub struct JavaScriptScriptComponentSystem {}

impl JavaScriptScriptComponentSystem {
    pub fn new() -> (r: JavaScriptScriptComponentSystem) {
        JavaScriptScriptComponentSystem {}
    }
}

/// The character of a decimal digit.
pub open spec fn digit_char(d: nat) -> char {
    (48 + d) as char
}

/// The decimal text of a natural number, without leading zeros.
pub open spec fn decimal(n: nat) -> Seq<char>
    decreases n,
{
    if n < 10 {
        seq![digit_char(n)]
    } else {
        decimal(n / 10).push(digit_char(n % 10))
    }
}

/// Calls `ToString::to_string` on a `u8`, whose `Display` writes it in decimal.
#[verifier::external_body]
fn u8_to_string(n: u8) -> (s: String)
    ensures
        s@ == decimal(n as nat),
{
    n.to_string()
}

/// The oldest age a `Person` may have.
pub const MAX_PERSON_AGE: u32 = 150;

/// Why a `Person` cannot be constructed.
#[derive(Clone, Copy, PartialEq, Eq, Structural, Debug)]
pub enum PersonError {
    /// The age is above `MAX_PERSON_AGE`.
    InvalidAge(u32),
}

/// A person, as the example script class defines one.
pub struct Person {
    name: String,
    age: u8,
}

impl Person {
    pub closed spec fn spec_name(&self) -> Seq<char> {
        self.name@
    }

    pub closed spec fn spec_age(&self) -> u8 {
        self.age
    }

    /// Constructs a person from the constructor's arguments; an age above
    /// 150 is refused.
    pub fn constructor(name: String, age: u32) -> (r: Result<Person, PersonError>)
        ensures
            age <= MAX_PERSON_AGE ==> (r matches Ok(p) && p.spec_name() == name@ && p.spec_age() == age),
            age > MAX_PERSON_AGE ==> r == Err::<Person, PersonError>(PersonError::InvalidAge(age)),
    {
        if age > MAX_PERSON_AGE {
            return Err(PersonError::InvalidAge(age));
        }
        Ok(Person { name, age: age as u8 })
    }

    /// The greeting `say_hello` prints: "Hello {age}-year-old {name}!".
    pub fn say_hello(&self) -> (r: String)
        ensures
            r@ == "Hello "@ + decimal(self.spec_age() as nat) + "-year-old "@ + self.spec_name() + "!"@,
    {
        let mut s = String::from_str("Hello ");
        let age_text = u8_to_string(self.age);
        s.append(age_text.as_str());
        s.append("-year-old ");
        s.append(self.name.as_str());
        s.append("!");
        s
    }
}

} // verus!
