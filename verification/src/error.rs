//! Snapshots of error chains.
//!
//! A failure that is kept as the current state of the watched file has to be
//! handed to every reader, so it is stored as plain text: for each error of
//! the chain, from the outermost to its innermost cause, how it prints for a
//! developer and how it prints for a user.

use vstd::prelude::*;

verus! {

/// One error of a chain, as text.
#[derive(Debug, PartialEq, Eq)]
pub struct ErrorData {
    /// The error as a developer sees it.
    pub debug: String,
    /// The error as a user sees it.
    pub display: String,
    /// What caused the error, if anything is known of it.
    pub source: Option<Box<ErrorData>>,
}

/// The mathematical value of one link of a chain.
pub ghost struct ErrorLink {
    pub debug: Seq<char>,
    pub display: Seq<char>,
}

impl ErrorData {
    /// The chain as a sequence: the error itself, then its causes in order.
    pub open spec fn chain(&self) -> Seq<ErrorLink>
        decreases self,
    {
        seq![ErrorLink { debug: self.debug@, display: self.display@ }] + match self.source {
            Some(cause) => cause.chain(),
            None => Seq::empty(),
        }
    }
}

impl View for ErrorData {
    type V = Seq<ErrorLink>;

    open spec fn view(&self) -> Seq<ErrorLink> {
        self.chain()
    }
}

/// A copy of the whole chain of `e`.
pub fn clone_error(e: &ErrorData) -> (copy: ErrorData)
    ensures
        copy@ == e@,
    decreases e,
{
    let source = match &e.source {
        Some(cause) => Some(Box::new(clone_error(cause))),
        None => None,
    };
    ErrorData { debug: e.debug.clone(), display: e.display.clone(), source }
}

/// The chain that a list of links stands for, each link given by its two
/// texts, the outermost error first.
pub open spec fn chain_of(links: Seq<(String, String)>) -> Seq<ErrorLink> {
    Seq::new(links.len(), |i: int| ErrorLink { debug: links[i].0@, display: links[i].1@ })
}

/// Builds a chain from its links, the outermost error first. There is no
/// chain without a link.
pub fn from_links(links: Vec<(String, String)>) -> (error: Option<ErrorData>)
    ensures
        match error {
            Some(e) => links.len() > 0 && e@ == chain_of(links@),
            None => links.len() == 0,
        },
{
    let ghost all = links@;
    let mut rest = links;
    let mut built: Option<Box<ErrorData>> = None;
    while rest.len() > 0
        invariant
            rest@ == all.take(rest.len() as int),
            rest.len() <= all.len(),
            match built {
                Some(e) => rest.len() < all.len() && e.chain() == chain_of(all).skip(
                    rest.len() as int,
                ),
                None => rest.len() == all.len(),
            },
        decreases rest.len(),
    {
        let ghost n = rest.len() as int;
        let link = rest.pop().unwrap();
        let ghost tail = match &built {
            Some(e) => e.chain(),
            None => Seq::<ErrorLink>::empty(),
        };
        assert(link == all[n - 1]);
        let outer = ErrorData { debug: link.0, display: link.1, source: built };
        assert(outer.chain() == seq![chain_of(all)[n - 1]] + tail);
        assert(outer.chain() == chain_of(all).skip(n - 1));
        built = Some(Box::new(outer));
    }
    match built {
        Some(e) => {
            assert(chain_of(all).skip(0) == chain_of(all));
            Some(*e)
        },
        None => None,
    }
}

} // verus!
