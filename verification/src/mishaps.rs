//! The ways in which processing a message can fail.

use crate::text::{from_chars, push_str};
use vstd::prelude::*;

verus! {

#[derive(Debug)]
pub enum Mishap {
    /// The content of a message part could not be decoded.
    Email(String),
    /// A header field holds a value that cannot be used.
    EmailField(String),
    /// An allow-list is configured and the message names no sender.
    MissingSender,
    /// The sender's domain matches no entry of the allow-list.
    Unauthorised(String),
    /// A configured path template cannot take the date of the message.
    Naming,
}

impl Mishap {
    /// What `message` returns.
    pub open spec fn spec_message(&self) -> Seq<char> {
        match self {
            Mishap::Email(cause) => cause@,
            Mishap::EmailField(field) => "Bad email field: "@ + field@,
            Mishap::MissingSender => "No FROM address found"@,
            Mishap::Unauthorised(sender) => "Sender "@ + sender@
                + " not in allowed list of domains"@,
            Mishap::Naming => "A path template cannot take the date"@,
        }
    }

    /// A description of the failure for the user.
    pub fn message(&self) -> (r: String)
        ensures
            r@ == self.spec_message(),
    {
        let mut out: Vec<char> = Vec::new();
        match self {
            Mishap::Email(cause) => {
                push_str(&mut out, cause.as_str());
            },
            Mishap::EmailField(field) => {
                push_str(&mut out, "Bad email field: ");
                push_str(&mut out, field.as_str());
            },
            Mishap::MissingSender => {
                push_str(&mut out, "No FROM address found");
            },
            Mishap::Unauthorised(sender) => {
                push_str(&mut out, "Sender ");
                push_str(&mut out, sender.as_str());
                push_str(&mut out, " not in allowed list of domains");
            },
            Mishap::Naming => {
                push_str(&mut out, "A path template cannot take the date");
            },
        }
        from_chars(&out)
    }
}

} // verus!
