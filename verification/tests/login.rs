use stoat_components::login::{LoginAction, LoginEvent, Login, LoginReply};

fn filled() -> Login {
    let mut f = Login::new();
    f.email = "me@example.com".to_string();
    f.password = "hunter2".to_string();
    f
}

#[test]
fn submit_needs_email_and_password() {
    let mut f = Login::new();
    f.email = "me@example.com".to_string();
    assert_eq!(f.step(LoginEvent::Submit), LoginAction::Nothing);
    let mut f = filled();
    assert_eq!(
        f.step(LoginEvent::Submit),
        LoginAction::SendLogin {
            email: "me@example.com".to_string(),
            password: "hunter2".to_string(),
            friendly_name: "Ermine".to_string()
        }
    );
}

#[test]
fn replies_update_the_form() {
    let mut f = filled();
    assert_eq!(f.step(LoginEvent::Reply(LoginReply::Success)), LoginAction::StoreSession);
    assert_eq!(f.step(LoginEvent::Reply(LoginReply::Disabled)), LoginAction::Nothing);
    assert_eq!(f.error, Some("Disabled Account".to_string()));
    f.step(LoginEvent::Reply(LoginReply::Failed { message: "Account: bad".to_string() }));
    assert_eq!(f.error, Some("Account: bad".to_string()));
}

#[test]
fn two_factor_flow() {
    let mut f = filled();
    assert_eq!(f.step(LoginEvent::SubmitMfa), LoginAction::Nothing);
    f.step(LoginEvent::Reply(LoginReply::Mfa { ticket: "t1".to_string() }));
    assert_eq!(f.mfa_ticket, Some("t1".to_string()));
    f.mfa_value = "123456".to_string();
    assert_eq!(
        f.step(LoginEvent::SubmitMfa),
        LoginAction::SendMfa { ticket: "t1".to_string(), code: "123456".to_string(), friendly_name: "Ermine".to_string() }
    );
    f.step(LoginEvent::MfaReply(LoginReply::Failed { message: "2FA: wrong".to_string() }));
    assert_eq!(f.mfa_error, Some("2FA: wrong".to_string()));
    assert_eq!(f.step(LoginEvent::MfaReply(LoginReply::Success)), LoginAction::StoreSession);
    assert_eq!(f.mfa_ticket, None);
    assert_eq!(f.mfa_value, "");
    assert_eq!(f.mfa_error, None);
}

#[test]
fn closing_the_prompt_clears_it() {
    let mut f = filled();
    f.step(LoginEvent::Reply(LoginReply::Mfa { ticket: "t1".to_string() }));
    f.mfa_value = "1".to_string();
    assert_eq!(f.step(LoginEvent::CloseMfa), LoginAction::Nothing);
    assert_eq!(f.mfa_ticket, None);
    assert_eq!(f.mfa_value, "");
    assert_eq!(f.step(LoginEvent::SubmitMfa), LoginAction::Nothing);
}
