//! A small, preconfigured pipeline over the number, UUID and quote
//! highlighters, built from styles rather than configuration values.

use vstd::prelude::*;

use crate::error::Error;
use crate::highlighter::pipeline_spec;
use crate::highlighter::AnyHighlighter;
use crate::highlighters::number::NumberHighlighter;
use crate::highlighters::quote::QuoteHighlighter;
use crate::highlighters::uuid::UuidHighlighter;
use crate::split_and_apply::apply_only_to_unhighlighted;
use crate::style::blue_and_italic;
use crate::style::cyan;
use crate::style::magenta_and_italic;
use crate::style::red;
use crate::style::spec_blue_and_italic;
use crate::style::spec_cyan;
use crate::style::spec_magenta_and_italic;
use crate::style::spec_red;
use crate::style::spec_yellow;
use crate::style::start_seq;
use crate::style::yellow;
use crate::style::Style;

verus! {

/// An ordered, immutable pipeline of highlighters.
pub struct Manifold {
    pub highlighters: Vec<AnyHighlighter>,
}

impl Manifold {
    /// The empty pipeline.
    fn new() -> (r: Self)
        ensures
            r.highlighters@ == Seq::<AnyHighlighter>::empty(),
    {
        Manifold { highlighters: Vec::new() }
    }

    /// A builder that accumulates highlighters and construction errors.
    pub fn builder() -> (r: ManifoldBuilder)
        ensures
            r.highlighters@ == Seq::<AnyHighlighter>::empty(),
            r.errors@ == Seq::<String>::empty(),
    {
        ManifoldBuilder { highlighters: Vec::new(), errors: Vec::new() }
    }

    /// The pipeline holding exactly `highlighters`, in order.
    fn with_highlighters(self, highlighters: Vec<AnyHighlighter>) -> (r: Self)
        ensures
            r.highlighters@ == highlighters@,
    {
        let mut this = self;
        this.highlighters = highlighters;
        this
    }

    /// Fold `text` through every highlighter, in order, each applied only
    /// to the parts that earlier highlighters left plain.
    pub fn apply(&self, text: String) -> (r: String)
        ensures
            r@ == pipeline_spec(self.highlighters@, text@),
    {
        let ghost t0 = text@;
        let mut acc = text;
        let mut k: usize = 0;
        proof {
            assert(self.highlighters@.skip(0) =~= self.highlighters@);
        }
        while k < self.highlighters.len()
            invariant
                k <= self.highlighters@.len(),
                pipeline_spec(self.highlighters@, t0) == pipeline_spec(
                    self.highlighters@.skip(k as int),
                    acc@,
                ),
            decreases self.highlighters@.len() - k,
        {
            let ghost pending = self.highlighters@.skip(k as int);
            proof {
                assert(pending[0] == self.highlighters@[k as int]);
                assert(pending.drop_first() =~= self.highlighters@.skip(k as int + 1));
            }
            acc = apply_only_to_unhighlighted(acc.as_str(), &self.highlighters[k]);
            k = k + 1;
        }
        proof {
            assert(self.highlighters@.skip(k as int) =~= Seq::<AnyHighlighter>::empty());
        }
        acc
    }
}

impl Default for Manifold {
    /// The number and UUID highlighters with their default styles.
    fn default() -> (r: Self)
        ensures
            r.highlighters@.len() == 2,
            r.highlighters@[0] == AnyHighlighter::Number(NumberHighlighter { style: spec_cyan() }),
            r.highlighters@[1] == AnyHighlighter::Uuid(
                UuidHighlighter {
                    number: spec_blue_and_italic(),
                    letter: spec_magenta_and_italic(),
                    dash: spec_red(),
                },
            ),
    {
        let b = Manifold::builder().with_number_highlighter().with_uuid_highlighter();
        match b.build() {
            Ok(m) => m,
            Err(_) => {
                proof {
                    assert(false);
                }
                Manifold::new()
            },
        }
    }
}

/// Accumulates highlighters in registration order.
pub struct ManifoldBuilder {
    pub highlighters: Vec<AnyHighlighter>,
    pub errors: Vec<String>,
}

impl ManifoldBuilder {
    /// Add one highlighter to the pipeline under construction.
    fn try_add_highlighter(self, highlighter: AnyHighlighter) -> (r: Self)
        ensures
            r.highlighters@ == self.highlighters@.push(highlighter),
            r.errors@ == self.errors@,
    {
        let mut this = self;
        this.highlighters.push(highlighter);
        this
    }

    /// Register a number highlighter with the default (cyan) style.
    pub fn with_number_highlighter(self) -> (r: Self)
        ensures
            r.highlighters@ == self.highlighters@.push(
                AnyHighlighter::Number(NumberHighlighter { style: spec_cyan() }),
            ),
            r.errors@ == self.errors@,
    {
        self.try_add_highlighter(AnyHighlighter::Number(NumberHighlighter::new(cyan())))
    }

    /// Register a number highlighter with the given style.
    pub fn with_number_highlighter_from_style(self, style: Style) -> (r: Self)
        ensures
            r.highlighters@ == self.highlighters@.push(
                AnyHighlighter::Number(NumberHighlighter { style }),
            ),
            r.errors@ == self.errors@,
    {
        self.try_add_highlighter(AnyHighlighter::Number(NumberHighlighter::new(style)))
    }

    /// Register a UUID highlighter with the default styles.
    pub fn with_uuid_highlighter(self) -> (r: Self)
        ensures
            r.highlighters@ == self.highlighters@.push(
                AnyHighlighter::Uuid(
                    UuidHighlighter {
                        number: spec_blue_and_italic(),
                        letter: spec_magenta_and_italic(),
                        dash: spec_red(),
                    },
                ),
            ),
            r.errors@ == self.errors@,
    {
        self.try_add_highlighter(
            AnyHighlighter::Uuid(
                UuidHighlighter::from_styles(blue_and_italic(), magenta_and_italic(), red()),
            ),
        )
    }

    /// Register a UUID highlighter with the given styles.
    pub fn with_uuid_highlighter_from_style(
        self,
        number: Style,
        letter: Style,
        dash: Style,
    ) -> (r: Self)
        ensures
            r.highlighters@ == self.highlighters@.push(
                AnyHighlighter::Uuid(UuidHighlighter { number, letter, dash }),
            ),
            r.errors@ == self.errors@,
    {
        self.try_add_highlighter(
            AnyHighlighter::Uuid(UuidHighlighter::from_styles(number, letter, dash)),
        )
    }

    /// Register a quote highlighter for the double quote, colored yellow.
    pub fn with_quote_highlighter(self) -> (r: Self)
        ensures
            r.highlighters@.len() == self.highlighters@.len() + 1,
            r.highlighters@.subrange(0, self.highlighters@.len() as int) == self.highlighters@,
            (r.highlighters@.last() matches AnyHighlighter::Quote(q) && q.quotes_token == '"'
                && q.color@ == start_seq(spec_yellow())),
            r.errors@ == self.errors@,
    {
        let mut this = self;
        let highlighter = QuoteHighlighter::new('"', yellow());
        this.highlighters.push(AnyHighlighter::Quote(highlighter));
        proof {
            assert(this.highlighters@.subrange(0, this.highlighters@.len() - 1)
                =~= this.highlighters@.drop_last());
        }
        this
    }

    /// Register a quote highlighter for `quotes_token`, colored by `style`.
    pub fn with_quote_highlighter_from_style(self, quotes_token: char, style: Style) -> (r:
        Self)
        ensures
            r.highlighters@.len() == self.highlighters@.len() + 1,
            r.highlighters@.subrange(0, self.highlighters@.len() as int) == self.highlighters@,
            (r.highlighters@.last() matches AnyHighlighter::Quote(q) && q.quotes_token
                == quotes_token && q.color@ == start_seq(style)),
            r.errors@ == self.errors@,
    {
        let mut this = self;
        let highlighter = QuoteHighlighter::new(quotes_token, style);
        this.highlighters.push(AnyHighlighter::Quote(highlighter));
        proof {
            assert(this.highlighters@.subrange(0, this.highlighters@.len() - 1)
                =~= this.highlighters@.drop_last());
        }
        this
    }

    /// Finish construction: the pipeline, or every construction error
    /// collected along the way.
    pub fn build(self) -> (r: Result<Manifold, Error>)
        ensures
            self.errors@.len() == 0 <==> r is Ok,
            r matches Ok(m) ==> m.highlighters@ == self.highlighters@,
            r matches Err(e) ==> e.messages() == self.errors@,
    {
        if self.errors.len() == 0 {
            Ok(Manifold::new().with_highlighters(self.highlighters))
        } else {
            Err(Error::HighlighterErrors(self.errors))
        }
    }
}

} // verus!
