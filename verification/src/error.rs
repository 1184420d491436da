use vstd::prelude::*;
use vstd::string::StringExecFns;

verus! {

/// The kinds of failure the interpreter pipeline can report.  Each kind
/// carries a human-readable message; errors propagate unchanged to the
/// caller, which renders them as `<kind> error: <detail>`.
#[derive(Debug)]
pub enum BellronosError {
    IO(String),
    Parser(String),
    Type(String),
    Runtime(String),
    Network(String),
    Package(String),
}

/// Mathematical image of `BellronosError`: the same six kinds over
/// character sequences.
pub enum ErrV {
    IO(Seq<char>),
    Parser(Seq<char>),
    Type(Seq<char>),
    Runtime(Seq<char>),
    Network(Seq<char>),
    Package(Seq<char>),
}

impl DeepView for BellronosError {
    type V = ErrV;

    open spec fn deep_view(&self) -> ErrV {
        match self {
            BellronosError::IO(m) => ErrV::IO(m@),
            BellronosError::Parser(m) => ErrV::Parser(m@),
            BellronosError::Type(m) => ErrV::Type(m@),
            BellronosError::Runtime(m) => ErrV::Runtime(m@),
            BellronosError::Network(m) => ErrV::Network(m@),
            BellronosError::Package(m) => ErrV::Package(m@),
        }
    }
}

/// The `<kind> error: ` prefix under which a kind is reported.
pub open spec fn kind_label(e: ErrV) -> Seq<char> {
    match e {
        ErrV::IO(_) => "IO error: "@,
        ErrV::Parser(_) => "Parser error: "@,
        ErrV::Type(_) => "Type error: "@,
        ErrV::Runtime(_) => "Runtime error: "@,
        ErrV::Network(_) => "Network error: "@,
        ErrV::Package(_) => "Package error: "@,
    }
}

/// The message an error carries, without its kind.
pub open spec fn message_of(e: ErrV) -> Seq<char> {
    match e {
        ErrV::IO(m) => m,
        ErrV::Parser(m) => m,
        ErrV::Type(m) => m,
        ErrV::Runtime(m) => m,
        ErrV::Package(m) => m,
        ErrV::Network(m) => m,
    }
}

impl BellronosError {
    /// Renders the error as the caller-facing line `<kind> error: <detail>`.
    pub fn render(&self) -> (r: String)
        ensures
            r@ == kind_label(self.deep_view()) + message_of(self.deep_view()),
    {
        let mut out: String = match self {
            BellronosError::IO(_) => String::from_str("IO error: "),
            BellronosError::Parser(_) => String::from_str("Parser error: "),
            BellronosError::Type(_) => String::from_str("Type error: "),
            BellronosError::Runtime(_) => String::from_str("Runtime error: "),
            BellronosError::Network(_) => String::from_str("Network error: "),
            BellronosError::Package(_) => String::from_str("Package error: "),
        };
        match self {
            BellronosError::IO(m) => out.append(m.as_str()),
            BellronosError::Parser(m) => out.append(m.as_str()),
            BellronosError::Type(m) => out.append(m.as_str()),
            BellronosError::Runtime(m) => out.append(m.as_str()),
            BellronosError::Network(m) => out.append(m.as_str()),
            BellronosError::Package(m) => out.append(m.as_str()),
        }
        out
    }
}

} // verus!
