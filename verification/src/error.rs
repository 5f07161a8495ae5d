//! The configuration error returned by a builder.
//!
//! Building a pipeline collects every configuration failure instead of
//! stopping at the first; the error carries them all, so one corrective
//! pass over the configuration suffices.

use vstd::prelude::*;

verus! {

/// Every configuration error a builder accumulated.
#[derive(Debug)]
pub enum Error {
    HighlighterErrors(Vec<String>),
}

/// The messages of `msgs` up to index `k`, each followed by a newline.
pub open spec fn joined_messages(msgs: Seq<String>, k: int) -> Seq<char>
    decreases k,
{
    if k <= 0 {
        Seq::empty()
    } else {
        joined_messages(msgs, k - 1) + msgs[k - 1]@ + seq!['\n']
    }
}

impl Error {
    /// The collected messages.
    pub open spec fn messages(&self) -> Seq<String> {
        match self {
            Error::HighlighterErrors(errors) => errors@,
        }
    }

    /// All collected messages as one string, one message per line.
    pub fn message(&self) -> (r: String)
        ensures
            r@ == joined_messages(self.messages(), self.messages().len() as int),
    {
        match self {
            Error::HighlighterErrors(errors) => {
                let mut r = String::new();
                let mut i: usize = 0;
                while i < errors.len()
                    invariant
                        i <= errors@.len(),
                        r@ == joined_messages(errors@, i as int),
                    decreases errors@.len() - i,
                {
                    r.append(errors[i].as_str());
                    r.append("\n");
                    proof {
                        reveal_strlit("\n");
                        assert("\n"@ =~= seq!['\n']);
                    }
                    i = i + 1;
                }
                r
            },
        }
    }
}

} // verus!
