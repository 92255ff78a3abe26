//! The sign-in form: what submitting sends, and how the server's replies
//! and the two-factor prompt change what the form shows.

use vstd::prelude::*;
use crate::model::opt_view;
use crate::text::{chars_of, string_of};

verus! {

/// The server's answer to a sign-in request.
#[derive(Debug, PartialEq)]
pub enum LoginReply {
    /// Signed in; the session is kept by the caller.
    Success,
    /// A second factor is needed, under this ticket.
    Mfa { ticket: String },
    /// The account is disabled.
    Disabled,
    /// The request failed, with this message.
    Failed { message: String },
}

/// What happens on the sign-in screen.
#[derive(Debug, PartialEq)]
pub enum LoginEvent {
    /// The form is submitted (Enter or the Login button).
    Submit,
    /// The answer to a sign-in with email and password.
    Reply(LoginReply),
    /// The two-factor code is submitted.
    SubmitMfa,
    /// The answer to a sign-in with the two-factor code.
    MfaReply(LoginReply),
    /// The two-factor prompt is closed or left with Back.
    CloseMfa,
}

/// What the screen asks of the outside after an event.
#[derive(Debug, PartialEq)]
pub enum LoginAction {
    Nothing,
    /// Sign in with email and password, naming the client.
    SendLogin { email: String, password: String, friendly_name: String },
    /// Sign in with the two-factor ticket and code, naming the client.
    SendMfa { ticket: String, code: String, friendly_name: String },
    /// Keep the session of the last successful reply.
    StoreSession,
}

/// The sign-in form.
#[derive(Debug, PartialEq)]
pub struct Login {
    pub email: String,
    pub password: String,
    pub error: Option<String>,
    pub mfa_ticket: Option<String>,
    pub mfa_value: String,
    pub mfa_error: Option<String>,
}

/// The form as plain values: email, password, error, ticket, code, code
/// error.
pub type LoginV = (Seq<char>, Seq<char>, Option<Seq<char>>, Option<Seq<char>>, Seq<char>, Option<Seq<char>>);

impl View for Login {
    type V = LoginV;

    open spec fn view(&self) -> LoginV {
        (self.email@, self.password@, opt_view(self.error), opt_view(self.mfa_ticket), self.mfa_value@, opt_view(self.mfa_error))
    }
}

/// An action as plain values.
pub enum LoginActionV {
    Nothing,
    SendLogin { email: Seq<char>, password: Seq<char>, friendly_name: Seq<char> },
    SendMfa { ticket: Seq<char>, code: Seq<char>, friendly_name: Seq<char> },
    StoreSession,
}

impl View for LoginAction {
    type V = LoginActionV;

    open spec fn view(&self) -> LoginActionV {
        match self {
            LoginAction::Nothing => LoginActionV::Nothing,
            LoginAction::SendLogin { email, password, friendly_name } => LoginActionV::SendLogin {
                email: email@,
                password: password@,
                friendly_name: friendly_name@,
            },
            LoginAction::SendMfa { ticket, code, friendly_name } => LoginActionV::SendMfa {
                ticket: ticket@,
                code: code@,
                friendly_name: friendly_name@,
            },
            LoginAction::StoreSession => LoginActionV::StoreSession,
        }
    }
}

/// The name the client signs in under.
pub open spec fn client_name() -> Seq<char> {
    seq!['E', 'r', 'm', 'i', 'n', 'e']
}

/// The error shown for a disabled account.
pub open spec fn disabled_message() -> Seq<char> {
    seq!['D', 'i', 's', 'a', 'b', 'l', 'e', 'd', ' ', 'A', 'c', 'c', 'o', 'u', 'n', 't']
}

/// The form with the two-factor prompt closed and cleared.
pub open spec fn mfa_cleared(f: LoginV) -> LoginV {
    (f.0, f.1, f.2, None, seq![], None)
}

/// The form and action after `e`:
/// - submitting with an empty email or password does nothing, otherwise
///   signs in with them;
/// - a success keeps the session, a ticket opens the two-factor prompt, a
///   disabled account or a failure shows its message;
/// - submitting the code signs in with the ticket and code while the prompt
///   is open; a success closes and clears the prompt and keeps the session,
///   a failure shows its message in the prompt;
/// - closing the prompt clears it.
pub open spec fn spec_login_step(f: LoginV, e: &LoginEvent) -> (LoginV, LoginActionV) {
    match e {
        LoginEvent::Submit => if f.0.len() == 0 || f.1.len() == 0 {
            (f, LoginActionV::Nothing)
        } else {
            (f, LoginActionV::SendLogin { email: f.0, password: f.1, friendly_name: client_name() })
        },
        LoginEvent::Reply(r) => match r {
            LoginReply::Success => (f, LoginActionV::StoreSession),
            LoginReply::Mfa { ticket } => ((f.0, f.1, f.2, Some(ticket@), f.4, f.5), LoginActionV::Nothing),
            LoginReply::Disabled => ((f.0, f.1, Some(disabled_message()), f.3, f.4, f.5), LoginActionV::Nothing),
            LoginReply::Failed { message } => ((f.0, f.1, Some(message@), f.3, f.4, f.5), LoginActionV::Nothing),
        },
        LoginEvent::SubmitMfa => match f.3 {
            Some(t) => (f, LoginActionV::SendMfa { ticket: t, code: f.4, friendly_name: client_name() }),
            None => (f, LoginActionV::Nothing),
        },
        LoginEvent::MfaReply(r) => match r {
            LoginReply::Failed { message } => ((f.0, f.1, f.2, f.3, f.4, Some(message@)), LoginActionV::Nothing),
            _ => (mfa_cleared(f), LoginActionV::StoreSession),
        },
        LoginEvent::CloseMfa => (mfa_cleared(f), LoginActionV::Nothing),
    }
}

fn client_name_string() -> (r: String)
    ensures
        r@ == client_name(),
{
    let s = "Ermine";
    proof {
        reveal_strlit("Ermine");
    }
    string_of(chars_of(s).as_slice())
}

impl Login {
    /// An empty form.
    pub fn new() -> (r: Login)
        ensures
            r@ == (Seq::<char>::empty(), Seq::<char>::empty(), None::<Seq<char>>, None::<Seq<char>>, Seq::<char>::empty(), None::<Seq<char>>),
    {
        Login {
            email: String::new(),
            password: String::new(),
            error: None,
            mfa_ticket: None,
            mfa_value: String::new(),
            mfa_error: None,
        }
    }

    /// Handles `e`, and says what the outside is to do. The answer to a
    /// two-factor sign-in is never another request for a factor nor a
    /// disabled account.
    pub fn step(&mut self, e: LoginEvent) -> (r: LoginAction)
        requires
            e is MfaReply ==> (e->MfaReply_0 is Success || e->MfaReply_0 is Failed),
        ensures
            (final(self)@, r@) == spec_login_step(old(self)@, &e),
    {
        match e {
            LoginEvent::Submit => {
                if self.email.as_str().is_empty() || self.password.as_str().is_empty() {
                    LoginAction::Nothing
                } else {
                    LoginAction::SendLogin {
                        email: self.email.clone(),
                        password: self.password.clone(),
                        friendly_name: client_name_string(),
                    }
                }
            },
            LoginEvent::Reply(r) => match r {
                LoginReply::Success => LoginAction::StoreSession,
                LoginReply::Mfa { ticket } => {
                    self.mfa_ticket = Some(ticket);
                    LoginAction::Nothing
                },
                LoginReply::Disabled => {
                    let m = "Disabled Account";
                    proof {
                        reveal_strlit("Disabled Account");
                    }
                    self.error = Some(string_of(chars_of(m).as_slice()));
                    LoginAction::Nothing
                },
                LoginReply::Failed { message } => {
                    self.error = Some(message);
                    LoginAction::Nothing
                },
            },
            LoginEvent::SubmitMfa => match &self.mfa_ticket {
                Some(t) => LoginAction::SendMfa {
                    ticket: t.clone(),
                    code: self.mfa_value.clone(),
                    friendly_name: client_name_string(),
                },
                None => LoginAction::Nothing,
            },
            LoginEvent::MfaReply(r) => match r {
                LoginReply::Failed { message } => {
                    self.mfa_error = Some(message);
                    LoginAction::Nothing
                },
                _ => {
                    self.mfa_ticket = None;
                    self.mfa_value = String::new();
                    self.mfa_error = None;
                    proof {
                        assert(self.mfa_value@ =~= Seq::<char>::empty());
                    }
                    LoginAction::StoreSession
                },
            },
            LoginEvent::CloseMfa => {
                self.mfa_ticket = None;
                self.mfa_value = String::new();
                self.mfa_error = None;
                LoginAction::Nothing
            },
        }
    }
}

/// Submitting with an empty email or password sends nothing and leaves the
/// form as it is.
pub proof fn law_incomplete_submit_sends_nothing(f: LoginV)
    requires
        f.0.len() == 0 || f.1.len() == 0,
    ensures
        spec_login_step(f, &LoginEvent::Submit) == (f, LoginActionV::Nothing),
{
}

/// Closing the two-factor prompt leaves nothing of it: a later code submit
/// sends nothing.
pub proof fn law_closed_prompt_sends_nothing(f: LoginV)
    ensures
        spec_login_step(f, &LoginEvent::CloseMfa).0.3 is None,
        spec_login_step(spec_login_step(f, &LoginEvent::CloseMfa).0, &LoginEvent::SubmitMfa).1 == LoginActionV::Nothing,
{
}

} // verus!
