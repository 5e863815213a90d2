use vstd::prelude::*;

use crate::text::{replace_all, replace_spec};

verus! {

/// The situations in which the assistant falls back to a generic answer.
#[derive(Debug, Hash, PartialEq, Eq, Structural, Clone, Copy)]
pub enum FallbackType {
    NotUnderstood,
    NotInstalled,
    NotLoaded,
    NotEnabled,
    BadSkill,
    ErrorOnSkill,
    ErrorOnCore,
    ErrorOnNetwork,
    ErrorOnOther,
    ErrorOnUnknown,
    ErrorOnTimeout,
}

/// A handler for one kind of fallback, implemented by the fallbacks that
/// the assistant registers.
pub trait FallbackHandler {
    /// The kind of fallback this handler answers.
    fn fallback_type(&self) -> FallbackType;

    /// Answers the fallback for `message`.
    fn run(&self, message: &str, args: &[String]);
}

/// The position of the first registered handler for `wanted`, if any.
pub fn select_fallback(registered: &Vec<FallbackType>, wanted: FallbackType) -> (r: Option<usize>)
    ensures
        match r {
            Some(i) => i < registered.len() && registered@[i as int] == wanted && forall|j: int|
                0 <= j < i ==> registered@[j] != wanted,
            None => forall|j: int| 0 <= j < registered.len() ==> registered@[j] != wanted,
        },
{
    let mut i: usize = 0;
    while i < registered.len()
        invariant
            i <= registered.len(),
            forall|j: int| 0 <= j < i ==> registered@[j] != wanted,
        decreases registered.len() - i,
    {
        if registered[i] == wanted {
            return Some(i);
        }
        i += 1;
    }
    None
}

/// The message a handler gets: the one given, or the empty text.
pub fn fallback_message(message: Option<&str>) -> (r: &str)
    ensures
        match message {
            Some(m) => r@ == m@,
            None => r@ == Seq::<char>::empty(),
        },
{
    match message {
        Some(m) => m,
        None => {
            let e = "";
            proof {
                reveal_strlit("");
            }
            e
        },
    }
}

/// A fallback's answer: its template with each `{}` replaced by the message.
pub fn fill_message(template: &str, message: &str) -> (r: String)
    ensures
        r@ == replace_spec(template@, "{}"@, message@),
{
    replace_all(template, "{}", message)
}

} // verus!
