//! Connection selection from the command line.

use vstd::prelude::*;

use crate::bytes::str_eq;

verus! {

/// How to connect to the editor.
#[derive(Debug, Clone, Copy, PartialEq, Eq, Structural)]
pub enum Conn {
    Stdio,
}

impl Default for Conn {
    /// Stdio is the default transport.
    fn default() -> (r: Self)
        ensures
            r == Conn::Stdio,
    {
        Conn::Stdio
    }
}

/// A connection argument the server does not understand.
#[derive(Debug)]
pub struct InvalidConnection(pub String);

impl Conn {
    /// Parse a connection argument: `-` selects stdio; anything else is
    /// rejected and echoed back.
    pub fn parse_arg(s: &str) -> (r: Result<Conn, InvalidConnection>)
        ensures
            s@ == "-"@ ==> (r matches Ok(c) && c == Conn::Stdio),
            s@ != "-"@ ==> (r matches Err(e) && e.0@ == s@),
    {
        if str_eq(s, "-") {
            Ok(Conn::Stdio)
        } else {
            Err(InvalidConnection(s.to_owned()))
        }
    }
}

impl core::str::FromStr for Conn {
    type Err = InvalidConnection;

    fn from_str(s: &str) -> Result<Conn, InvalidConnection> {
        Conn::parse_arg(s)
    }
}

} // verus!
