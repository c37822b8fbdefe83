//! The sign-up form: what a submission leads to before anything is sent.
use vstd::prelude::*;
use crate::codec::{chars_of, same_chars};
use crate::validator::{aggregate, lines_of, InsertableUser, Validate};

verus! {

/// The sign-up form takes no properties.
#[derive(Clone, Copy, Debug, PartialEq, Eq, Structural)]
pub struct Props;

/// The message shown when the two passwords differ.
pub const PASSWORD_MISMATCH_MESSAGE: &'static str = "The passwords do not match, please try again.";

/// What a submission of the sign-up form leads to.
#[derive(Clone, Debug)]
pub enum SignUpStep {
    /// Show this error; no request is sent.
    ShowError(String),
    /// Clear both password inputs and show the mismatch message.
    PasswordMismatch,
    /// Send the new account to the server.
    Send(InsertableUser),
}

/// Decides what a submission leads to: the rule violations if any, else a
/// mismatch if the confirmation differs from the password, else the request.
pub fn submit_form(payload: InsertableUser, confirmation: &str) -> (r: SignUpStep)
    ensures
        payload.violations().len() > 0 ==> (r matches SignUpStep::ShowError(m) && m@ == lines_of(
            aggregate(payload.violations()),
        )),
        payload.violations().len() == 0 && payload.password@ != confirmation@ ==> r
            is PasswordMismatch,
        payload.violations().len() == 0 && payload.password@ == confirmation@ ==> (r matches SignUpStep::Send(
            p,
        ) && p.login@ == payload.login@ && p.name@ == payload.name@ && p.password@
            == payload.password@),
{
    match payload.validate() {
        Err(m) => SignUpStep::ShowError(m.to_text()),
        Ok(()) => {
            let a = chars_of(payload.password.as_str());
            let b = chars_of(confirmation);
            if same_chars(&a, &b) {
                SignUpStep::Send(payload)
            } else {
                SignUpStep::PasswordMismatch
            }
        },
    }
}

} // verus!
