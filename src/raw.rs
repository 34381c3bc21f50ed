//! Monospaced raw text nodes.

use vstd::prelude::*;

verus! {

/// Monospaced text with optional syntax highlighting.
#[derive(Debug, Hash)]
pub struct RawNode {
    /// The raw text.
    pub text: String,
    /// Whether the node is block-level.
    pub block: bool,
}

/// Why a node could not be constructed from its arguments.
#[derive(Clone, Copy, Debug, PartialEq, Eq, Structural)]
pub enum ArgError {
    /// The positional `text` argument is missing.
    MissingText,
}

impl RawNode {
    /// Construct a raw node from its `text` argument, which is required, and
    /// its `block` argument, which defaults to inline.
    pub fn construct(text: Option<String>, block: Option<bool>) -> (r: Result<RawNode, ArgError>)
        ensures
            text is None ==> r == Err::<RawNode, ArgError>(ArgError::MissingText),
            text is Some ==> r is Ok && r->Ok_0.text@ == text->Some_0@ && r->Ok_0.block == match block {
                Some(b) => b,
                None => false,
            },
    {
        match text {
            None => Err(ArgError::MissingText),
            Some(text) => {
                let block = match block {
                    Some(b) => b,
                    None => false,
                };
                Ok(RawNode { text, block })
            },
        }
    }
}

} // verus!
