//! Content of the notifications dispatched out of band: the mail built
//! for an invitation. Delivery itself is a collaborator outside the
//! library; here only the pure content is computed — recipient, subject
//! and body markup — so each is pinned exactly.

use vstd::prelude::*;
use vstd::string::StringExecFns;
use crate::model::LedgerError;

verus! {

/// A notification task handed to the mail dispatcher.
#[derive(Debug, PartialEq, Eq)]
pub enum Task {
    Invite { inviter: String, email: String, invitation_token: String },
}

impl Task {
    /// Who raised the invitation.
    pub open spec fn spec_inviter(self) -> Seq<char> {
        match self {
            Task::Invite { inviter, .. } => inviter@,
        }
    }

    /// Who the notification goes to.
    pub open spec fn spec_email(self) -> Seq<char> {
        match self {
            Task::Invite { email, .. } => email@,
        }
    }

    /// The token the recipient redeems.
    pub open spec fn spec_token(self) -> Seq<char> {
        match self {
            Task::Invite { invitation_token, .. } => invitation_token@,
        }
    }
}

/// Input of the invitation mutation: the address to invite.
#[derive(Clone, Debug, PartialEq, Eq)]
pub struct InvitationInput {
    pub email: String,
}

/// The markup of an invitation mail body.
pub open spec fn invite_markup(inviter: Seq<char>, token: Seq<char>) -> Seq<char> {
    "<html><body><p>"@ + inviter + " has invited you to join. Your invitation token is "@ + token
        + "</p></body></html>"@
}

/// Render the intermediate markup for a task.
pub fn generate_intermidiate(task: &Task) -> (r: Result<String, LedgerError>)
    ensures
        match r {
            Ok(s) => s@ == invite_markup(task.spec_inviter(), task.spec_token()),
            Err(_) => false,
        },
{
    match task {
        Task::Invite { inviter, invitation_token, .. } => {
            let mut s = String::from_str("<html><body><p>");
            s.append(inviter.as_str());
            s.append(" has invited you to join. Your invitation token is ");
            s.append(invitation_token.as_str());
            s.append("</p></body></html>");
            Ok(s)
        },
    }
}

/// Turn the intermediate markup into the mail's final body. The markup
/// already is the body, unchanged.
pub fn generate_html(intermediate: &str) -> (r: Result<String, LedgerError>)
    ensures
        match r {
            Ok(s) => s@ == intermediate@,
            Err(_) => false,
        },
{
    Ok(String::from_str(intermediate))
}

/// The recipient address of a task.
pub fn email_for_task(task: &Task) -> (r: String)
    ensures
        r@ == task.spec_email(),
{
    match task {
        Task::Invite { email, .. } => email.clone(),
    }
}

/// The mail subject of a task.
pub fn subject_for_task(task: &Task) -> (r: String)
    ensures
        r@ == "You have been invited"@,
{
    match task {
        Task::Invite { .. } => String::from_str("You have been invited"),
    }
}

/// Build the mail task for an invitation.
pub fn invite_task(input: &InvitationInput, inviter: &str, token: &str) -> (t: Task)
    ensures
        t.spec_inviter() == inviter@,
        t.spec_email() == input.email@,
        t.spec_token() == token@,
{
    Task::Invite {
        inviter: String::from_str(inviter),
        email: input.email.clone(),
        invitation_token: String::from_str(token),
    }
}

} // verus!
