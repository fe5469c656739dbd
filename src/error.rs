use vstd::prelude::*;

verus! {

/// The two kinds of failure: a malformed script, or a failed read.
#[derive(Clone, Copy, Debug, PartialEq, Eq, Structural)]
pub enum ApplicationErrorKind {
    Input,
    Io,
}

/// The word that names a kind of failure.
pub open spec fn kind_name(kind: ApplicationErrorKind) -> Seq<char> {
    match kind {
        ApplicationErrorKind::Input => seq!['i', 'n', 'p', 'u', 't'],
        ApplicationErrorKind::Io => seq!['i', 'o'],
    }
}

/// What an error holds: its kind and a human readable explanation.
pub struct ApplicationErrorView {
    pub kind: ApplicationErrorKind,
    pub message: Seq<char>,
}

#[derive(Clone, Debug)]
pub struct ApplicationError {
    message: String,
    kind: ApplicationErrorKind,
}

impl View for ApplicationError {
    type V = ApplicationErrorView;

    closed spec fn view(&self) -> ApplicationErrorView {
        ApplicationErrorView { kind: self.kind, message: self.message@ }
    }
}

impl ApplicationErrorKind {
    /// The word that names this kind.
    pub fn name(&self) -> (r: String)
        ensures
            r@ == kind_name(*self),
    {
        match self {
            ApplicationErrorKind::Input => {
                let r = String::from_str("input");
                proof {
                    reveal_strlit("input");
                }
                r
            },
            ApplicationErrorKind::Io => {
                let r = String::from_str("io");
                proof {
                    reveal_strlit("io");
                }
                r
            },
        }
    }
}

impl ApplicationError {
    fn new(message: &str, kind: ApplicationErrorKind) -> (r: Self)
        ensures
            r@ == (ApplicationErrorView { kind, message: message@ }),
    {
        Self { message: message.to_owned(), kind }
    }

    /// An error in the mission script.
    pub fn input(explanation: &str) -> (r: Self)
        ensures
            r@ == (ApplicationErrorView { kind: ApplicationErrorKind::Input, message: explanation@ }),
    {
        Self::new(explanation, ApplicationErrorKind::Input)
    }

    /// A failure to read the mission script.
    pub fn io(explanation: &str) -> (r: Self)
        ensures
            r@ == (ApplicationErrorView { kind: ApplicationErrorKind::Io, message: explanation@ }),
    {
        Self::new(explanation, ApplicationErrorKind::Io)
    }

    pub fn kind(&self) -> (r: ApplicationErrorKind)
        ensures
            r == self@.kind,
    {
        self.kind
    }

    pub fn message(&self) -> (r: &str)
        ensures
            r@ == self@.message,
    {
        self.message.as_str()
    }

    /// The error as one line: the kind's name, a semicolon and a space, and
    /// the explanation.
    pub fn describe(&self) -> (r: String)
        ensures
            r@ == kind_name(self@.kind) + seq![';', ' '] + self@.message,
    {
        let r = self.kind.name();
        let r = r.concat("; ");
        proof {
            reveal_strlit("; ");
        }
        let r = r.concat(self.message.as_str());
        r
    }
}

} // verus!
