//! Graphics protocols for inline images, how a configured name reads as
//! one, and how `Auto` is resolved from the terminal's identification.

use vstd::prelude::*;

use crate::text::{contains_seq, contains_str, str_eq};

verus! {

/// Which terminal graphics protocol draws inline images.
#[derive(Clone, Copy, Debug, PartialEq, Eq, Structural)]
pub enum GraphicsProtocol {
    Disabled,
    Sixel,
    Kitty,
    ITerm,
    Auto,
}

/// Why a configured protocol name was refused.
#[derive(Debug)]
pub enum ProtocolError {
    /// The name is none of the accepted spellings.
    Invalid(String),
    /// Sixel was asked for, and this build has no sixel encoder.
    SixelUnavailable,
}

/// The lowercase mapping of a text, as `str::to_lowercase` gives it.
pub uninterp spec fn lower_of(s: Seq<char>) -> Seq<char>;

/// Relies on `str::to_lowercase`: the lowercase mapping of the text, which
/// depends on its characters alone.
#[verifier::external_body]
fn lowercase(s: &str) -> (r: String)
    ensures
        r@ == lower_of(s@),
{
    s.to_lowercase()
}

pub open spec fn names_disabled(l: Seq<char>) -> bool {
    l == "n"@ || l == "0"@ || l == "none"@ || l == "disabled"@
}

pub open spec fn names_sixel(l: Seq<char>) -> bool {
    l == "s"@ || l == "sixel"@
}

pub open spec fn names_kitty(l: Seq<char>) -> bool {
    l == "k"@ || l == "kitty"@
}

pub open spec fn names_iterm(l: Seq<char>) -> bool {
    l == "i"@ || l == "iterm"@
}

pub open spec fn names_auto(l: Seq<char>) -> bool {
    l == "a"@ || l == "auto"@
}

/// The protocol that a lowercase name selects, if it selects one.
pub open spec fn protocol_named(l: Seq<char>) -> Option<GraphicsProtocol> {
    if names_disabled(l) {
        Some(GraphicsProtocol::Disabled)
    } else if names_kitty(l) {
        Some(GraphicsProtocol::Kitty)
    } else if names_iterm(l) {
        Some(GraphicsProtocol::ITerm)
    } else if names_auto(l) {
        Some(GraphicsProtocol::Auto)
    } else {
        None
    }
}

/// The protocol that a configured name yields, if it is accepted.
pub open spec fn accepted_protocol(value: Seq<char>) -> Option<GraphicsProtocol> {
    let l = lower_of(value);
    if names_sixel(l) && !names_disabled(l) {
        None
    } else {
        protocol_named(l)
    }
}

/// The outcome of asking for sixel output: this build has no sixel
/// encoder, so the request is refused.
pub fn use_sixel() -> (r: Result<GraphicsProtocol, ProtocolError>)
    ensures
        r matches Err(ProtocolError::SixelUnavailable),
{
    Err(ProtocolError::SixelUnavailable)
}

/// Reads a protocol from its name already in lowercase; `value` is the
/// name as it was given, kept for the error.
pub fn protocol_from_lowercase(lowered: &str, value: &str) -> (r: Result<
    GraphicsProtocol,
    ProtocolError,
>)
    ensures
        names_sixel(lowered@) && !names_disabled(lowered@) ==> r matches Err(
            ProtocolError::SixelUnavailable,
        ),
        !names_sixel(lowered@) || names_disabled(lowered@) ==> match protocol_named(lowered@) {
            Some(p) => r == Ok::<GraphicsProtocol, ProtocolError>(p),
            None => r matches Err(ProtocolError::Invalid(v)) && v@ == value@,
        },
{
    if str_eq(lowered, "n") || str_eq(lowered, "0") || str_eq(lowered, "none") || str_eq(
        lowered,
        "disabled",
    ) {
        Ok(GraphicsProtocol::Disabled)
    } else if str_eq(lowered, "s") || str_eq(lowered, "sixel") {
        use_sixel()
    } else if str_eq(lowered, "k") || str_eq(lowered, "kitty") {
        Ok(GraphicsProtocol::Kitty)
    } else if str_eq(lowered, "i") || str_eq(lowered, "iterm") {
        Ok(GraphicsProtocol::ITerm)
    } else if str_eq(lowered, "a") || str_eq(lowered, "auto") {
        Ok(GraphicsProtocol::Auto)
    } else {
        Err(ProtocolError::Invalid(value.to_owned()))
    }
}

impl GraphicsProtocol {
    /// Reads a protocol name, ignoring case.
    pub fn parse(value: &str) -> (r: Result<GraphicsProtocol, ProtocolError>)
        ensures
            names_sixel(lower_of(value@)) && !names_disabled(lower_of(value@)) ==> r matches Err(
                ProtocolError::SixelUnavailable,
            ),
            !names_sixel(lower_of(value@)) || names_disabled(lower_of(value@)) ==> match protocol_named(
                lower_of(value@),
            ) {
                Some(p) => r == Ok::<GraphicsProtocol, ProtocolError>(p),
                None => r matches Err(ProtocolError::Invalid(v)) && v@ == value@,
            },
            match accepted_protocol(value@) {
                Some(p) => r == Ok::<GraphicsProtocol, ProtocolError>(p),
                None => r is Err,
            },
    {
        let lowered = lowercase(value);
        protocol_from_lowercase(lowered.as_str(), value)
    }
}

impl std::str::FromStr for GraphicsProtocol {
    type Err = ProtocolError;

    fn from_str(value: &str) -> Result<GraphicsProtocol, ProtocolError> {
        GraphicsProtocol::parse(value)
    }
}

impl ProtocolError {
    /// A sentence for the user.
    pub fn message(&self) -> (r: String)
        ensures
            self matches ProtocolError::Invalid(v) ==> r@ == "Invalid value for GraphicsProtocol: "@
                + v@,
            self matches ProtocolError::SixelUnavailable ==> r@
                == "Sixel output is not available in this build."@,
    {
        match self {
            ProtocolError::Invalid(v) => {
                let mut m = String::from_str("Invalid value for GraphicsProtocol: ");
                m.append(v.as_str());
                m
            },
            ProtocolError::SixelUnavailable => String::from_str(
                "Sixel output is not available in this build.",
            ),
        }
    }
}

/// The optional text's characters.
pub open spec fn opt_view(o: Option<&str>) -> Option<Seq<char>> {
    match o {
        Some(s) => Some(s@),
        None => None,
    }
}

/// `Auto` resolved from the terminal's identification: `term` is the
/// terminal type variable and `program` the terminal program variable,
/// each absent when unset. Any other request stands as it is.
pub open spec fn resolved_protocol(
    requested: GraphicsProtocol,
    term: Option<Seq<char>>,
    program: Option<Seq<char>>,
) -> GraphicsProtocol {
    if requested != GraphicsProtocol::Auto {
        requested
    } else if term is Some && contains_seq(term->0, "kitty"@) {
        GraphicsProtocol::Kitty
    } else {
        match program {
            None => GraphicsProtocol::Disabled,
            Some(p) => if p == "ghostty"@ {
                GraphicsProtocol::Kitty
            } else if p == "vscode"@ || p == "iTerm.app"@ {
                GraphicsProtocol::ITerm
            } else {
                GraphicsProtocol::Disabled
            },
        }
    }
}

/// Resolves `Auto` to a concrete protocol from the two terminal variables;
/// other requests are returned unchanged.
pub fn transform_protocol(
    requested: GraphicsProtocol,
    term: Option<&str>,
    term_program: Option<&str>,
) -> (r: GraphicsProtocol)
    ensures
        r == resolved_protocol(requested, opt_view(term), opt_view(term_program)),
        r != GraphicsProtocol::Auto,
{
    if requested != GraphicsProtocol::Auto {
        return requested;
    }
    if let Some(t) = term {
        if contains_str(t, "kitty") {
            return GraphicsProtocol::Kitty;
        }
    }
    match term_program {
        None => GraphicsProtocol::Disabled,
        Some(p) => {
            if str_eq(p, "ghostty") {
                GraphicsProtocol::Kitty
            } else if str_eq(p, "vscode") || str_eq(p, "iTerm.app") {
                GraphicsProtocol::ITerm
            } else {
                GraphicsProtocol::Disabled
            }
        },
    }
}

/// A terminal type that mentions kitty anywhere resolves `Auto` to Kitty,
/// whatever the terminal program variable holds.
pub proof fn lemma_kitty_term_wins(term: Seq<char>, program: Option<Seq<char>>)
    requires
        contains_seq(term, "kitty"@),
    ensures
        resolved_protocol(GraphicsProtocol::Auto, Some(term), program) == GraphicsProtocol::Kitty,
{
}

} // verus!
