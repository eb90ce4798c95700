use akc::password::{PasswordDialog, PasswordError, Prompt, Step};

fn read_with(
    provided: Option<String>,
    confirm: bool,
    mut prompt: impl FnMut(&str) -> Result<String, String>,
) -> Result<String, PasswordError> {
    let (mut dialog, mut step) = PasswordDialog::start(provided, confirm);
    loop {
        match step {
            Step::Done(outcome) => return outcome,
            Step::Ask(p) => {
                let answer = prompt(p.text()).ok();
                step = dialog.answer(answer);
            }
        }
    }
}

#[test]
fn supplied_password_preserves_whitespace_without_prompting() {
    let password = read_with(Some(" pass ".into()), true, |_| panic!()).unwrap();
    assert_eq!(password.as_str(), " pass ");
}

#[test]
fn interactive_confirmation() {
    let mut calls = 0;
    let password = read_with(None, true, |_| {
        calls += 1;
        Ok(" pass ".into())
    })
    .unwrap();
    assert_eq!(password.as_str(), " pass ");
    assert_eq!(calls, 2);
}

#[test]
fn mismatched_confirmation_is_rejected() {
    let mut answers = ["first", "second"].into_iter();
    assert!(read_with(None, true, |_| Ok(answers.next().unwrap().into())).is_err());
}

#[test]
fn empty_and_failed_input_are_rejected() {
    assert!(read_with(Some(String::new()), false, |_| panic!()).is_err());
    assert!(read_with(None, false, |_| Err("no terminal".to_string())).is_err());
}

#[test]
fn existing_password_only_prompts_once() {
    let mut calls = 0;
    read_with(None, false, |_| {
        calls += 1;
        Ok("password".into())
    })
    .unwrap();
    assert_eq!(calls, 1);
}

#[test]
fn dialogue_errors_are_precise() {
    let mut answers = ["first", "second"].into_iter();
    assert_eq!(
        read_with(None, true, |_| Ok(answers.next().unwrap().into())),
        Err(PasswordError::Mismatch)
    );
    assert_eq!(read_with(None, true, |_| Ok(String::new())), Err(PasswordError::Empty));
    assert_eq!(read_with(Some(String::new()), true, |_| panic!()), Err(PasswordError::Empty));
    assert_eq!(read_with(None, true, |_| Err("eof".into())), Err(PasswordError::ReadFailed));
}

#[test]
fn prompts_are_asked_in_order() {
    let mut seen: Vec<String> = Vec::new();
    let r = read_with(None, true, |p| {
        seen.push(p.to_string());
        Ok("pw".into())
    });
    assert_eq!(r, Ok("pw".to_string()));
    assert_eq!(seen, vec!["Password: ".to_string(), "Confirm password: ".to_string()]);
    assert_eq!(Prompt::Password.text(), "Password: ");
}

#[test]
fn finished_dialogue_reports_it() {
    let (dialog, _) = PasswordDialog::start(Some("x".into()), false);
    assert!(dialog.is_finished());
    let (dialog, step) = PasswordDialog::start(None, false);
    assert!(!dialog.is_finished());
    assert!(matches!(step, Step::Ask(Prompt::Password)));
}
