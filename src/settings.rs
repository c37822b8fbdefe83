//! The settings form: what a profile submission leads to before anything
//! is sent.
use vstd::prelude::*;
use crate::validator::{aggregate, lines_of, UpdatableUser, Validate};

verus! {

/// The settings form takes no properties.
#[derive(Clone, Copy, Debug, PartialEq, Eq, Structural)]
pub struct Props;

/// What a submission of the settings form leads to.
#[derive(Clone, Debug)]
pub enum SettingsStep {
    /// Show this error; no request is sent.
    ShowError(String),
    /// Send the updated profile to the server.
    Send(UpdatableUser),
}

/// Decides what a profile submission leads to: the rule violations if any,
/// else the request.
pub fn submit_form(payload: UpdatableUser) -> (r: SettingsStep)
    ensures
        payload.violations().len() > 0 ==> (r matches SettingsStep::ShowError(m) && m@ == lines_of(
            aggregate(payload.violations()),
        )),
        payload.violations().len() == 0 ==> (r matches SettingsStep::Send(p) && p.id == payload.id
            && p.name@ == payload.name@ && p.pfp == payload.pfp),
{
    match payload.validate() {
        Err(m) => SettingsStep::ShowError(m.to_text()),
        Ok(()) => SettingsStep::Send(payload),
    }
}

} // verus!
