use vstd::prelude::*;
use vstd::string::StringExecFns;
use vstd::std_specs::convert::FromSpecImpl;

verus! {

#[verifier::external_type_specification]
#[verifier::external_body]
pub struct ExIoError(std::io::Error);

/// Why the terminal could not be used.
#[derive(Debug)]
pub enum TerminalError {
    IoError(std::io::Error),
    UnsupportedTerminal,
}

/// Calls std's `Display` for an `io::Error`, which gives the error's
/// message. Nothing is claimed of the text.
#[verifier::external_body]
fn io_error_text(e: &std::io::Error) -> String {
    format!("{}", e)
}

impl TerminalError {
    /// The error's message: `IO error: ` and the I/O error's own text, or
    /// `Unsupported terminal`.
    pub fn to_string(&self) -> (s: String)
        ensures
            match self {
                TerminalError::IoError(_) => s@.len() >= 10 && s@.subrange(0, 10) == "IO error: "@,
                TerminalError::UnsupportedTerminal => s@ == "Unsupported terminal"@,
            },
    {
        match self {
            TerminalError::IoError(e) => {
                let mut s = String::from_str("IO error: ");
                let t = io_error_text(e);
                s.append(t.as_str());
                proof {
                    reveal_strlit("IO error: ");
                    assert(s@.subrange(0, 10) =~= "IO error: "@);
                }
                s
            },
            TerminalError::UnsupportedTerminal => "Unsupported terminal".to_string(),
        }
    }
}

impl From<std::io::Error> for TerminalError {
    fn from(e: std::io::Error) -> (r: Self)
        ensures
            r == TerminalError::IoError(e),
    {
        TerminalError::IoError(e)
    }
}

impl FromSpecImpl<std::io::Error> for TerminalError {
    open spec fn obeys_from_spec() -> bool {
        true
    }

    open spec fn from_spec(e: std::io::Error) -> Self {
        TerminalError::IoError(e)
    }
}

} // verus!
