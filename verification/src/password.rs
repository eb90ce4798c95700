//! The password dialogue: a supplied password is taken as it is; otherwise the
//! user is prompted, and, for a new keychain, prompted again to confirm.
//! The dialogue is a state machine; prompting is left to the caller.
use vstd::prelude::*;

verus! {

/// Why no password came out of the dialogue.
#[derive(Debug, Clone, Copy, PartialEq, Eq, Structural)]
pub enum PasswordError {
    /// The password is empty.
    Empty,
    /// The confirmation differs from the password.
    Mismatch,
    /// The prompt could not be read.
    ReadFailed,
}

/// The two prompts of the dialogue.
#[derive(Debug, Clone, Copy, PartialEq, Eq, Structural)]
pub enum Prompt {
    /// `Password: `
    Password,
    /// `Confirm password: `
    Confirm,
}

impl Prompt {
    /// The text shown for this prompt.
    pub fn text(&self) -> (s: &'static str)
        ensures
            s@ == self.text_spec(),
    {
        match self {
            Prompt::Password => "Password: ",
            Prompt::Confirm => "Confirm password: ",
        }
    }

    pub open spec fn text_spec(&self) -> Seq<char> {
        match self {
            Prompt::Password => "Password: "@,
            Prompt::Confirm => "Confirm password: "@,
        }
    }
}

/// Where the dialogue stands.
pub enum DialogState {
    AwaitingPassword,
    AwaitingConfirmation(Seq<char>),
    Finished,
}

/// What the dialogue asks for next, as its caller sees it.
pub enum StepSpec {
    Ask(Prompt),
    Done(Result<Seq<char>, PasswordError>),
}

/// What the dialogue asks for next.
pub enum Step {
    /// Show this prompt and hand the answer to [`PasswordDialog::answer`].
    Ask(Prompt),
    /// The dialogue is over, with this outcome.
    Done(Result<String, PasswordError>),
}

impl View for Step {
    type V = StepSpec;

    open spec fn view(&self) -> StepSpec {
        match self {
            Step::Ask(p) => StepSpec::Ask(*p),
            Step::Done(Ok(s)) => StepSpec::Done(Ok(s@)),
            Step::Done(Err(e)) => StepSpec::Done(Err(*e)),
        }
    }
}

enum Stage {
    AwaitingPassword,
    AwaitingConfirmation(String),
    Finished,
}

/// The state of a password dialogue.
pub struct PasswordDialog {
    confirm: bool,
    stage: Stage,
}

/// The outcome for a password that was given or typed: refused when empty.
pub open spec fn checked_password(p: Seq<char>) -> StepSpec {
    if p.len() == 0 {
        StepSpec::Done(Err(PasswordError::Empty))
    } else {
        StepSpec::Done(Ok(p))
    }
}

impl PasswordDialog {
    #[verifier::type_invariant]
    closed spec fn typed_password_not_empty(self) -> bool {
        self.stage matches Stage::AwaitingConfirmation(p) ==> p@.len() > 0
    }

    /// Where the dialogue stands.
    pub closed spec fn state(&self) -> DialogState {
        match self.stage {
            Stage::AwaitingPassword => DialogState::AwaitingPassword,
            Stage::AwaitingConfirmation(p) => DialogState::AwaitingConfirmation(p@),
            Stage::Finished => DialogState::Finished,
        }
    }

    /// Whether the typed password must be confirmed.
    pub closed spec fn confirms(&self) -> bool {
        self.confirm
    }

    /// Starts a dialogue. A provided password is checked and taken as it is,
    /// without any prompt; otherwise the first prompt is asked for.
    pub fn start(provided: Option<String>, confirm: bool) -> (r: (PasswordDialog, Step))
        ensures
            r.0.confirms() == confirm,
            r.1@ matches StepSpec::Done(Ok(p)) ==> p.len() > 0,
            provided matches Some(p) ==> (p@.len() > 0 ==> r.1@ == StepSpec::Done(Ok(p@))),
            provided matches Some(p) ==> (p@.len() == 0 ==> r.1@ == StepSpec::Done(Err(PasswordError::Empty))),
            match provided {
                Some(p) => r.1@ == checked_password(p@) && r.0.state() is Finished,
                None => r.1@ == StepSpec::Ask(Prompt::Password) && r.0.state() is AwaitingPassword,
            },
    {
        match provided {
            Some(p) => {
                let step = if p.as_str().is_empty() {
                    Step::Done(Err(PasswordError::Empty))
                } else {
                    Step::Done(Ok(p))
                };
                (PasswordDialog { confirm, stage: Stage::Finished }, step)
            },
            None => (PasswordDialog { confirm, stage: Stage::AwaitingPassword }, Step::Ask(Prompt::Password)),
        }
    }

    /// Whether the dialogue is over.
    pub fn is_finished(&self) -> (r: bool)
        ensures
            r == self.state() is Finished,
    {
        match self.stage {
            Stage::Finished => true,
            _ => false,
        }
    }

    /// Hands over the answer to the last prompt (`None` when it could not be
    /// read) and tells what comes next.
    pub fn answer(&mut self, input: Option<String>) -> (r: Step)
        requires
            !(old(self).state() is Finished),
        ensures
            final(self).confirms() == old(self).confirms(),
            r@ matches StepSpec::Done(Ok(p)) ==> p.len() > 0,
            old(self).state() is AwaitingPassword ==> (input matches Some(p) ==> (p@.len() > 0 && !old(
                self,
            ).confirms() ==> r@ == StepSpec::Done(Ok(p@)))),
            old(self).state() is AwaitingPassword ==> (input matches Some(p) ==> (p@.len() == 0 ==> r@
                == StepSpec::Done(Err(PasswordError::Empty)))),
            match (old(self).state(), input) {
                (DialogState::AwaitingPassword, None) => r@ == StepSpec::Done(Err(PasswordError::ReadFailed))
                    && final(self).state() is Finished,
                (DialogState::AwaitingPassword, Some(p)) => if p@.len() > 0 && old(self).confirms() {
                    r@ == StepSpec::Ask(Prompt::Confirm) && final(self).state() == DialogState::AwaitingConfirmation(p@)
                } else {
                    r@ == checked_password(p@) && final(self).state() is Finished
                },
                (DialogState::AwaitingConfirmation(first), None) => r@ == StepSpec::Done(Err(PasswordError::ReadFailed))
                    && final(self).state() is Finished,
                (DialogState::AwaitingConfirmation(first), Some(c)) => final(self).state() is Finished && r@ == (if c@ == first {
                    StepSpec::Done(Ok(first))
                } else {
                    StepSpec::Done(Err(PasswordError::Mismatch))
                }),
                (DialogState::Finished, _) => false,
            },
    {
        proof {
            use_type_invariant(&*self);
        }
        let mut stage = Stage::Finished;
        std::mem::swap(&mut stage, &mut self.stage);
        match stage {
            Stage::AwaitingPassword => match input {
                None => Step::Done(Err(PasswordError::ReadFailed)),
                Some(p) => {
                    if p.as_str().is_empty() {
                        Step::Done(Err(PasswordError::Empty))
                    } else if self.confirm {
                        self.stage = Stage::AwaitingConfirmation(p);
                        Step::Ask(Prompt::Confirm)
                    } else {
                        Step::Done(Ok(p))
                    }
                },
            },
            Stage::AwaitingConfirmation(first) => match input {
                None => Step::Done(Err(PasswordError::ReadFailed)),
                Some(c) => {
                    if c == first {
                        Step::Done(Ok(first))
                    } else {
                        Step::Done(Err(PasswordError::Mismatch))
                    }
                },
            },
            Stage::Finished => Step::Done(Err(PasswordError::ReadFailed)),
        }
    }
}

/// A given or typed password is refused exactly when it is empty, and every
/// non-empty password comes out unchanged.
pub proof fn law_password_refused_only_when_empty(p: Seq<char>)
    ensures
        checked_password(p) == StepSpec::Done(Err(PasswordError::Empty)) <==> p.len() == 0,
        p.len() > 0 ==> checked_password(p) == StepSpec::Done(Ok(p)),
        checked_password(p) matches StepSpec::Done(Ok(q)) ==> q == p,
{
}

} // verus!
