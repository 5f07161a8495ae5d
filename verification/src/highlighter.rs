//! The composer: an ordered, immutable pipeline of highlighters.
//!
//! A [`Highlighter`] holds highlighters in the order they were registered
//! and folds a text through them, running each one only over the parts of
//! the text that no earlier highlighter has colored (see
//! [`crate::split_and_apply`]).  Pipeline order is observable: later
//! highlighters see only what earlier ones left plain.
//!
//! Construction goes through [`HighlightBuilder`], which collects every
//! configuration error instead of failing on the first; `build` reports
//! them all at once.

use vstd::prelude::*;

use crate::config::DateTimeConfig;
use crate::config::IpV4Config;
use crate::config::IpV6Config;
use crate::config::JsonConfig;
use crate::config::KeywordConfig;
use crate::config::NumberConfig;
use crate::config::QuotesConfig;
use crate::config::UnixPathConfig;
use crate::config::UnixProcessConfig;
use crate::config::UuidConfig;
use crate::error::Error;
use crate::highlighters::date_dash::date_apply_spec;
use crate::highlighters::date_dash::DateDashHighlighter;
use crate::highlighters::date_time::time_apply_spec;
use crate::highlighters::date_time::TimeHighlighter;
use crate::highlighters::ip_v4::ip4_apply_spec;
use crate::highlighters::ip_v4::IpV4Highlighter;
use crate::highlighters::ip_v6::ip6_apply_spec;
use crate::highlighters::ip_v6::IpV6Highlighter;
use crate::highlighters::json::json_apply_spec;
use crate::highlighters::json::JsonHighlighter;
use crate::highlighters::keyword::keyword_apply_spec;
use crate::highlighters::keyword::KeywordHighlighter;
use crate::highlighters::number::number_apply_spec;
use crate::highlighters::number::NumberHighlighter;
use crate::highlighters::quote::quote_apply_spec;
use crate::highlighters::quote::QuoteHighlighter;
use crate::highlighters::unix_path::path_apply_spec;
use crate::highlighters::unix_path::UnixPathHighlighter;
use crate::highlighters::unix_process::proc_apply_spec;
use crate::highlighters::unix_process::UnixProcessHighlighter;
use crate::highlighters::uuid::uuid_apply_spec;
use crate::highlighters::uuid::UuidHighlighter;
use crate::highlighters::keyword::lemma_keyword_scan_no_word;
use crate::highlighters::number::lemma_number_scan_no_digit;
use crate::highlighters::quote::lemma_quote_apply_no_token;
use crate::highlighters::scan::is_digit;
use crate::highlighters::uuid::lemma_uuid_scan_no_dash;
use crate::normalizer::normalize_keyword_configs;
use crate::split_and_apply::occurs_at;
use crate::style::spec_blue;
use crate::style::spec_blue_and_italic;
use crate::style::spec_cyan;
use crate::style::spec_faint;
use crate::style::spec_green;
use crate::style::spec_magenta;
use crate::style::spec_magenta_and_italic;
use crate::style::spec_red;
use crate::style::spec_yellow;
use crate::style::start_seq;
use crate::style::Color;
use crate::style::Style;
use crate::split_and_apply::apply_only_to_unhighlighted;
use crate::split_and_apply::chunk_text;
use crate::split_and_apply::lemma_colored_spans_preserved;
use crate::split_and_apply::lemma_fully_colored_unchanged;
use crate::split_and_apply::lemma_merge_chunks_one_as_generic;
use crate::split_and_apply::lemma_merge_identity;
use crate::split_and_apply::lemma_split_bounds;
use crate::split_and_apply::merge_apply_one;
use crate::split_and_apply::split_from;

verus! {

/// The capability every highlighter offers: text in, text out.
pub trait Highlight {
    fn apply(&self, input: &str) -> String;
}

/// The closed set of pattern highlighters a pipeline can hold.
pub enum AnyHighlighter {
    Number(NumberHighlighter),
    Uuid(UuidHighlighter),
    Quote(QuoteHighlighter),
    Keyword(KeywordHighlighter),
    Time(TimeHighlighter),
    DateDash(DateDashHighlighter),
    IpV4(IpV4Highlighter),
    IpV6(IpV6Highlighter),
    UnixPath(UnixPathHighlighter),
    UnixProcess(UnixProcessHighlighter),
    Json(JsonHighlighter),
}

impl AnyHighlighter {
    /// The mathematical model of one highlighter pass over a whole text.
    pub open spec fn apply_spec(&self, t: Seq<char>) -> Seq<char> {
        match self {
            AnyHighlighter::Number(h) => number_apply_spec(h.style, t),
            AnyHighlighter::Uuid(h) => uuid_apply_spec(h.number, h.letter, h.dash, t),
            AnyHighlighter::Quote(h) => quote_apply_spec(h.quotes_token, h.color@, t),
            AnyHighlighter::Keyword(h) => keyword_apply_spec(h.words.deep_view(), h.style, t),
            AnyHighlighter::Time(h) => time_apply_spec(h.time, h.zone, h.separator, t),
            AnyHighlighter::DateDash(h) => date_apply_spec(h.date, h.separator, t),
            AnyHighlighter::IpV4(h) => ip4_apply_spec(h.number, h.separator, t),
            AnyHighlighter::IpV6(h) => ip6_apply_spec(h.number, h.letter, h.separator, t),
            AnyHighlighter::UnixPath(h) => path_apply_spec(h.segment, h.separator, t),
            AnyHighlighter::UnixProcess(h) => proc_apply_spec(h.name, h.id, h.bracket, t),
            AnyHighlighter::Json(h) => json_apply_spec(*h, t),
        }
    }

    /// Run one highlighter pass over the whole of `input`.
    pub fn apply(&self, input: &str) -> (r: String)
        ensures
            r@ == self.apply_spec(input@),
    {
        match self {
            AnyHighlighter::Number(h) => h.apply(input),
            AnyHighlighter::Uuid(h) => h.apply(input),
            AnyHighlighter::Quote(h) => h.apply(input),
            AnyHighlighter::Keyword(h) => h.apply(input),
            AnyHighlighter::Time(h) => h.apply(input),
            AnyHighlighter::DateDash(h) => h.apply(input),
            AnyHighlighter::IpV4(h) => h.apply(input),
            AnyHighlighter::IpV6(h) => h.apply(input),
            AnyHighlighter::UnixPath(h) => h.apply(input),
            AnyHighlighter::UnixProcess(h) => h.apply(input),
            AnyHighlighter::Json(h) => h.apply(input),
        }
    }
}

impl Highlight for AnyHighlighter {
    fn apply(&self, input: &str) -> String {
        AnyHighlighter::apply(self, input)
    }
}

/// The text after the whole pipeline has run, each stage applied only to
/// the chunks the stages before it left plain.
pub open spec fn pipeline_spec(hs: Seq<AnyHighlighter>, t: Seq<char>) -> Seq<char>
    decreases hs.len(),
{
    if hs.len() == 0 {
        t
    } else {
        pipeline_spec(hs.drop_first(), merge_apply_one(t, hs[0]))
    }
}

/// An ordered, immutable pipeline of highlighters.
pub struct Highlighter {
    pub highlighters: Vec<AnyHighlighter>,
}

impl Highlighter {
    /// The empty pipeline.
    fn new() -> (r: Self)
        ensures
            r.highlighters@ == Seq::<AnyHighlighter>::empty(),
    {
        Highlighter { highlighters: Vec::new() }
    }

    /// A builder that accumulates highlighters and configuration errors.
    pub fn builder() -> (r: HighlightBuilder)
        ensures
            r.highlighters@ == Seq::<AnyHighlighter>::empty(),
            r.errors@ == Seq::<String>::empty(),
    {
        HighlightBuilder { highlighters: Vec::new(), errors: Vec::new() }
    }

    /// The pipeline holding exactly `highlighters`, in order.
    fn with_highlighters(self, highlighters: Vec<AnyHighlighter>) -> (r: Self)
        ensures
            r.highlighters@ == highlighters@,
    {
        let mut this = self;
        this.highlighters = highlighters;
        this
    }

    /// Fold `text` through every highlighter, in order, each applied only
    /// to the parts that earlier highlighters left plain.
    pub fn apply(&self, text: String) -> (r: String)
        ensures
            r@ == pipeline_spec(self.highlighters@, text@),
    {
        let ghost t0 = text@;
        let mut acc = text;
        let mut k: usize = 0;
        proof {
            assert(self.highlighters@.skip(0) =~= self.highlighters@);
        }
        while k < self.highlighters.len()
            invariant
                k <= self.highlighters@.len(),
                pipeline_spec(self.highlighters@, t0) == pipeline_spec(
                    self.highlighters@.skip(k as int),
                    acc@,
                ),
            decreases self.highlighters@.len() - k,
        {
            let ghost pending = self.highlighters@.skip(k as int);
            proof {
                assert(pending[0] == self.highlighters@[k as int]);
                assert(pending.drop_first() =~= self.highlighters@.skip(k as int + 1));
            }
            acc = apply_only_to_unhighlighted(acc.as_str(), &self.highlighters[k]);
            k = k + 1;
        }
        proof {
            assert(self.highlighters@.skip(k as int) =~= Seq::<AnyHighlighter>::empty());
        }
        acc
    }
}

impl Default for Highlighter {
    /// A pipeline over every pattern highlighter this library provides,
    /// each with its default configuration, in a fixed order: JSON, time,
    /// date, IPv4, IPv6, UUID, Unix path, Unix process, number, and the
    /// quote highlighter last.  The library has no URL, pointer, key-value
    /// or user-pattern highlighter, so the default pipeline holds exactly
    /// these ten stages.
    fn default() -> (r: Self)
        ensures
            r.highlighters@.len() == 10,
            r.highlighters@[0] == AnyHighlighter::Json(
                JsonHighlighter {
                    key: spec_faint(),
                    quote_token: Style {
                        fg: Some(Color::Default),
                        bg: None,
                        bold: false,
                        faint: false,
                        italic: false,
                        underline: false,
                    },
                    curly_bracket: spec_blue(),
                    square_bracket: spec_red(),
                    comma: spec_red(),
                    colon: spec_red(),
                },
            ),
            r.highlighters@[1] == AnyHighlighter::Time(
                TimeHighlighter { time: spec_blue(), zone: spec_red(), separator: spec_faint() },
            ),
            r.highlighters@[2] == AnyHighlighter::DateDash(
                DateDashHighlighter { date: spec_magenta(), separator: spec_faint() },
            ),
            r.highlighters@[3] == AnyHighlighter::IpV4(
                IpV4Highlighter { number: spec_blue_and_italic(), separator: spec_red() },
            ),
            r.highlighters@[4] == AnyHighlighter::IpV6(
                IpV6Highlighter {
                    number: spec_blue_and_italic(),
                    letter: spec_magenta_and_italic(),
                    separator: spec_red(),
                },
            ),
            r.highlighters@[5] == AnyHighlighter::Uuid(
                UuidHighlighter {
                    number: spec_blue_and_italic(),
                    letter: spec_magenta_and_italic(),
                    dash: spec_red(),
                },
            ),
            r.highlighters@[6] == AnyHighlighter::UnixPath(
                UnixPathHighlighter { segment: spec_green(), separator: spec_yellow() },
            ),
            r.highlighters@[7] == AnyHighlighter::UnixProcess(
                UnixProcessHighlighter {
                    name: spec_green(),
                    id: spec_yellow(),
                    bracket: spec_red(),
                },
            ),
            r.highlighters@[8] == AnyHighlighter::Number(
                NumberHighlighter { style: spec_cyan() },
            ),
            (r.highlighters@[9] matches AnyHighlighter::Quote(q) && q.quotes_token == '"'
                && q.color@ == start_seq(spec_yellow())),
    {
        let partial = Highlighter::builder().with_json_highlighter(
            JsonConfig::default(),
        ).with_date_time_highlighters(DateTimeConfig::default()).with_ip_v4_highlighter(
            IpV4Config::default(),
        ).with_ip_v6_highlighter(IpV6Config::default()).with_uuid_highlighter(
            UuidConfig::default(),
        ).with_unix_path_highlighter(UnixPathConfig::default()).with_unix_process_highlighter(
            UnixProcessConfig::default(),
        ).with_number_highlighter(NumberConfig::default());
        let ghost before_quote = partial.highlighters@;
        let b = partial.with_quote_highlighter(QuotesConfig::default());
        proof {
            assert(before_quote.len() == 9);
            assert(before_quote[0] is Json);
            assert(before_quote[1] is Time);
            assert(before_quote[2] is DateDash);
            assert(before_quote[3] is IpV4);
            assert(before_quote[4] is IpV6);
            assert(before_quote[5] is Uuid);
            assert(before_quote[6] is UnixPath);
            assert(before_quote[7] is UnixProcess);
            assert(before_quote[8] is Number);
            assert forall|k: int| 0 <= k < 9 implies b.highlighters@[k] == before_quote[k] by {
                assert(b.highlighters@.subrange(0, 9)[k] == b.highlighters@[k]);
            }
            assert(b.highlighters@[9] == b.highlighters@.last());
        }
        match b.build() {
            Ok(h) => h,
            Err(_) => {
                proof {
                    assert(false);
                }
                Highlighter::new()
            },
        }
    }
}

/// The highlighter recognizes nothing anywhere in `t`: it maps every
/// substring of `t` to itself.
pub open spec fn inert_on(h: AnyHighlighter, t: Seq<char>) -> bool {
    forall|a: int, b: int|
        0 <= a <= b <= t.len() ==> #[trigger] h.apply_spec(t.subrange(a, b)) == t.subrange(a, b)
}

/// A single merged pass of a highlighter that recognizes nothing in `t`
/// returns `t` unchanged.
pub proof fn lemma_merge_one_identity(t: Seq<char>, h: AnyHighlighter)
    requires
        inert_on(h, t),
    ensures
        merge_apply_one(t, h) == t,
{
    let f = |c: Seq<char>| h.apply_spec(c);
    lemma_split_bounds(t, 0);
    assert forall|k: int|
        0 <= k < split_from(t, 0).len() && !split_from(t, 0)[k].0 implies f(
        chunk_text(t, split_from(t, 0)[k]),
    ) == chunk_text(t, split_from(t, 0)[k]) by {
        let c = split_from(t, 0)[k];
        assert(0 <= c.1 <= c.2 <= t.len());
        assert(h.apply_spec(t.subrange(c.1, c.2)) == t.subrange(c.1, c.2));
    }
    lemma_merge_identity(t, f);
    lemma_merge_chunks_one_as_generic(t, split_from(t, 0), h, f);
}

/// A pipeline of highlighters that all recognize nothing in `t` maps `t`
/// to itself: text with no recognizable patterns comes back unchanged.
pub proof fn lemma_pipeline_identity(hs: Seq<AnyHighlighter>, t: Seq<char>)
    requires
        forall|k: int| 0 <= k < hs.len() ==> inert_on(#[trigger] hs[k], t),
    ensures
        pipeline_spec(hs, t) == t,
    decreases hs.len(),
{
    if hs.len() > 0 {
        lemma_merge_one_identity(t, hs[0]);
        assert(forall|k: int|
            0 <= k < hs.drop_first().len() ==> inert_on(#[trigger] hs.drop_first()[k], t));
        lemma_pipeline_identity(hs.drop_first(), t);
    }
}

/// A number highlighter is inert on text that holds no decimal digit.
pub proof fn lemma_number_inert(style: Style, t: Seq<char>)
    requires
        forall|k: int| 0 <= k < t.len() ==> !is_digit(#[trigger] t[k]),
    ensures
        inert_on(AnyHighlighter::Number(NumberHighlighter { style }), t),
{
    let h = AnyHighlighter::Number(NumberHighlighter { style });
    assert forall|a: int, b: int| 0 <= a <= b <= t.len() implies #[trigger] h.apply_spec(
        t.subrange(a, b),
    ) == t.subrange(a, b) by {
        let sub = t.subrange(a, b);
        assert(forall|k: int| 0 <= k < sub.len() ==> !is_digit(#[trigger] sub[k]));
        lemma_number_scan_no_digit(style, sub, 0);
        assert(sub.subrange(0, sub.len() as int) =~= sub);
    }
}

/// A quote highlighter is inert on text that holds no quote token.
pub proof fn lemma_quote_inert(q: QuoteHighlighter, t: Seq<char>)
    requires
        forall|k: int| 0 <= k < t.len() ==> #[trigger] t[k] != q.quotes_token,
    ensures
        inert_on(AnyHighlighter::Quote(q), t),
{
    let h = AnyHighlighter::Quote(q);
    assert forall|a: int, b: int| 0 <= a <= b <= t.len() implies #[trigger] h.apply_spec(
        t.subrange(a, b),
    ) == t.subrange(a, b) by {
        let sub = t.subrange(a, b);
        assert(forall|k: int| 0 <= k < sub.len() ==> #[trigger] sub[k] != q.quotes_token);
        lemma_quote_apply_no_token(q.quotes_token, q.color@, sub);
    }
}

/// A UUID highlighter is inert on text that holds no dash.
pub proof fn lemma_uuid_inert(number: Style, letter: Style, dash: Style, t: Seq<char>)
    requires
        forall|k: int| 0 <= k < t.len() ==> #[trigger] t[k] != '-',
    ensures
        inert_on(AnyHighlighter::Uuid(UuidHighlighter { number, letter, dash }), t),
{
    let h = AnyHighlighter::Uuid(UuidHighlighter { number, letter, dash });
    assert forall|a: int, b: int| 0 <= a <= b <= t.len() implies #[trigger] h.apply_spec(
        t.subrange(a, b),
    ) == t.subrange(a, b) by {
        let sub = t.subrange(a, b);
        assert(forall|k: int| 0 <= k < sub.len() ==> #[trigger] sub[k] != '-');
        lemma_uuid_scan_no_dash(number, letter, dash, sub, 0);
        assert(sub.subrange(0, sub.len() as int) =~= sub);
    }
}

/// A keyword highlighter is inert on text in which none of its words
/// occurs.
pub proof fn lemma_keyword_inert(kh: KeywordHighlighter, t: Seq<char>)
    requires
        forall|w: int, p: int|
            0 <= w < kh.words.deep_view().len() ==> !#[trigger] occurs_at(
                t,
                kh.words.deep_view()[w],
                p,
            ),
    ensures
        inert_on(AnyHighlighter::Keyword(kh), t),
{
    let ws = kh.words.deep_view();
    let h = AnyHighlighter::Keyword(kh);
    assert forall|a: int, b: int| 0 <= a <= b <= t.len() implies #[trigger] h.apply_spec(
        t.subrange(a, b),
    ) == t.subrange(a, b) by {
        let sub = t.subrange(a, b);
        assert forall|w: int, p: int|
            0 <= w < ws.len() implies !#[trigger] occurs_at(sub, ws[w], p) by {
            if occurs_at(sub, ws[w], p) {
                assert(sub.subrange(p, p + ws[w].len() as int) =~= t.subrange(
                    a + p,
                    a + p + ws[w].len() as int,
                ));
                assert(occurs_at(t, ws[w], a + p));
            }
        }
        lemma_keyword_scan_no_word(ws, kh.style, sub, 0);
        assert(sub.subrange(0, sub.len() as int) =~= sub);
    }
}

/// Text already fully wrapped in colored spans is left unchanged by any
/// further highlighter pass, so re-applying a highlighter to its own fully
/// wrapped output is idempotent.
pub proof fn lemma_reapply_fully_wrapped(t: Seq<char>, h: AnyHighlighter)
    requires
        forall|k: int| 0 <= k < split_from(t, 0).len() ==> split_from(t, 0)[k].0,
    ensures
        merge_apply_one(t, h) == t,
        merge_apply_one(merge_apply_one(t, h), h) == merge_apply_one(t, h),
{
    let f = |c: Seq<char>| h.apply_spec(c);
    lemma_fully_colored_unchanged(t, f);
    lemma_merge_chunks_one_as_generic(t, split_from(t, 0), h, f);
}

/// No colored span of the input is altered by a later highlighter pass:
/// the span reappears verbatim in the merged output.  With order
/// sensitivity this is all that composition promises: two overlapping
/// highlighters may produce different output in different orders, but
/// neither ever rewrites what the other already colored.
pub proof fn lemma_no_recolor(t: Seq<char>, h: AnyHighlighter, k: int)
    requires
        0 <= k < split_from(t, 0).len(),
        split_from(t, 0)[k].0,
    ensures
        exists|pre: Seq<char>, suf: Seq<char>|
            merge_apply_one(t, h) == pre + chunk_text(t, split_from(t, 0)[k]) + suf,
{
    let f = |c: Seq<char>| h.apply_spec(c);
    lemma_colored_spans_preserved(t, f, k);
    lemma_merge_chunks_one_as_generic(t, split_from(t, 0), h, f);
}

/// Accumulates highlighters in registration order, recording every
/// configuration error instead of failing on the first.
pub struct HighlightBuilder {
    pub highlighters: Vec<AnyHighlighter>,
    pub errors: Vec<String>,
}

impl HighlightBuilder {
    /// Register a number highlighter.
    pub fn with_number_highlighter(self, config: NumberConfig) -> (r: Self)
        ensures
            r.highlighters@ == self.highlighters@.push(
                AnyHighlighter::Number(NumberHighlighter { style: config.style }),
            ),
            r.errors@ == self.errors@,
    {
        self.try_add_highlighter(AnyHighlighter::Number(NumberHighlighter::new(config.style)))
    }

    /// Register a UUID highlighter.
    pub fn with_uuid_highlighter(self, config: UuidConfig) -> (r: Self)
        ensures
            r.highlighters@ == self.highlighters@.push(
                AnyHighlighter::Uuid(
                    UuidHighlighter {
                        number: config.number,
                        letter: config.letter,
                        dash: config.dash,
                    },
                ),
            ),
            r.errors@ == self.errors@,
    {
        self.try_add_highlighter(AnyHighlighter::Uuid(UuidHighlighter::new(config)))
    }

    /// Register a quote highlighter.
    pub fn with_quote_highlighter(self, config: QuotesConfig) -> (r: Self)
        ensures
            r.highlighters@.len() == self.highlighters@.len() + 1,
            r.highlighters@.subrange(0, self.highlighters@.len() as int) == self.highlighters@,
            (r.highlighters@.last() matches AnyHighlighter::Quote(q) && q.quotes_token
                == config.quotes_token && q.color@ == crate::style::start_seq(config.style)),
            r.errors@ == self.errors@,
    {
        let q = QuoteHighlighter::new(config.quotes_token, config.style);
        let r = self.try_add_highlighter(AnyHighlighter::Quote(q));
        proof {
            assert(r.highlighters@.subrange(0, r.highlighters@.len() - 1) =~= r.highlighters@.drop_last());
        }
        r
    }

    /// Register a Unix path highlighter.
    pub fn with_unix_path_highlighter(self, config: UnixPathConfig) -> (r: Self)
        ensures
            r.highlighters@ == self.highlighters@.push(
                AnyHighlighter::UnixPath(
                    UnixPathHighlighter { segment: config.segment, separator: config.separator },
                ),
            ),
            r.errors@ == self.errors@,
    {
        self.try_add_highlighter(AnyHighlighter::UnixPath(UnixPathHighlighter::new(config)))
    }

    /// Register a Unix process highlighter.
    pub fn with_unix_process_highlighter(self, config: UnixProcessConfig) -> (r: Self)
        ensures
            r.highlighters@ == self.highlighters@.push(
                AnyHighlighter::UnixProcess(
                    UnixProcessHighlighter {
                        name: config.name,
                        id: config.id,
                        bracket: config.bracket,
                    },
                ),
            ),
            r.errors@ == self.errors@,
    {
        self.try_add_highlighter(
            AnyHighlighter::UnixProcess(UnixProcessHighlighter::new(config)),
        )
    }

    /// Register the time highlighter and the date highlighter, in that
    /// order, both drawn from one configuration.
    pub fn with_date_time_highlighters(self, config: DateTimeConfig) -> (r: Self)
        ensures
            r.highlighters@ == self.highlighters@.push(
                AnyHighlighter::Time(
                    TimeHighlighter {
                        time: config.time,
                        zone: config.zone,
                        separator: config.separator,
                    },
                ),
            ).push(
                AnyHighlighter::DateDash(
                    DateDashHighlighter { date: config.date, separator: config.separator },
                ),
            ),
            r.errors@ == self.errors@,
    {
        self.try_add_highlighter(AnyHighlighter::Time(TimeHighlighter::new(config)))
            .try_add_highlighter(AnyHighlighter::DateDash(DateDashHighlighter::new(config)))
    }

    /// Register an IPv4 highlighter.
    pub fn with_ip_v4_highlighter(self, config: IpV4Config) -> (r: Self)
        ensures
            r.highlighters@ == self.highlighters@.push(
                AnyHighlighter::IpV4(
                    IpV4Highlighter { number: config.number, separator: config.separator },
                ),
            ),
            r.errors@ == self.errors@,
    {
        self.try_add_highlighter(AnyHighlighter::IpV4(IpV4Highlighter::new(config)))
    }

    /// Register an IPv6 highlighter.
    pub fn with_ip_v6_highlighter(self, config: IpV6Config) -> (r: Self)
        ensures
            r.highlighters@ == self.highlighters@.push(
                AnyHighlighter::IpV6(
                    IpV6Highlighter {
                        number: config.number,
                        letter: config.letter,
                        separator: config.separator,
                    },
                ),
            ),
            r.errors@ == self.errors@,
    {
        self.try_add_highlighter(AnyHighlighter::IpV6(IpV6Highlighter::new(config)))
    }

    /// Register a JSON highlighter.
    pub fn with_json_highlighter(self, config: JsonConfig) -> (r: Self)
        ensures
            r.highlighters@ == self.highlighters@.push(
                AnyHighlighter::Json(
                    JsonHighlighter {
                        key: config.key,
                        quote_token: config.quote_token,
                        curly_bracket: config.curly_bracket,
                        square_bracket: config.square_bracket,
                        comma: config.comma,
                        colon: config.colon,
                    },
                ),
            ),
            r.errors@ == self.errors@,
    {
        self.try_add_highlighter(AnyHighlighter::Json(JsonHighlighter::new(config)))
    }

    /// Register one keyword highlighter per distinct style among the given
    /// configurations (see [`crate::normalizer`]): the number of
    /// highlighters added equals the number of distinct styles, and each
    /// one matches the union of the word lists sharing its style.
    pub fn with_keyword_highlighter(self, keyword_configs: Vec<KeywordConfig>) -> (r: Self)
        ensures
            r.highlighters@.len() == self.highlighters@.len() + crate::normalizer::distinct_styles(
                keyword_configs@,
                keyword_configs@.len() as int,
            ).len(),
            r.highlighters@.subrange(0, self.highlighters@.len() as int) == self.highlighters@,
            forall|j: int|
                self.highlighters@.len() <= j < r.highlighters@.len() ==> (
                #[trigger] r.highlighters@[j] matches AnyHighlighter::Keyword(kh)
                    && kh.style == crate::normalizer::distinct_styles(
                    keyword_configs@,
                    keyword_configs@.len() as int,
                )[j - self.highlighters@.len()] && kh.words@ == crate::normalizer::words_for_style(
                    keyword_configs@,
                    kh.style,
                    keyword_configs@.len() as int,
                )),
            r.errors@ == self.errors@,
    {
        let ghost h0 = self.highlighters@;
        let ghost e0 = self.errors@;
        let ghost ds = crate::normalizer::distinct_styles(
            keyword_configs@,
            keyword_configs@.len() as int,
        );
        let ghost wfs = keyword_configs@;
        let mut this = self;
        let mut groups = normalize_keyword_configs(keyword_configs);
        let groups_len = groups.len();
        let ghost gseq = groups@;
        proof {
            assert(gseq.len() == groups_len);
        }
        let mut k: usize = 0;
        while groups.len() > 0
            invariant
                k + groups@.len() == gseq.len(),
                gseq.len() <= usize::MAX,
                groups@ =~= gseq.skip(k as int),
                this.highlighters@.len() == h0.len() + k,
                this.highlighters@.subrange(0, h0.len() as int) =~= h0,
                this.errors@ == e0,
                gseq.len() == ds.len(),
                forall|j: int| 0 <= j < gseq.len() ==> gseq[j].style == ds[j],
                forall|j: int|
                    0 <= j < gseq.len() ==> gseq[j].words@ == crate::normalizer::words_for_style(
                        wfs,
                        gseq[j].style,
                        wfs.len() as int,
                    ),
                forall|j: int|
                    0 <= j < k ==> (#[trigger] this.highlighters@[h0.len() + j] matches
                    AnyHighlighter::Keyword(kh) && kh.style == ds[j] && kh.words@
                        == crate::normalizer::words_for_style(wfs, kh.style, wfs.len() as int)),
            decreases groups@.len(),
        {
            proof {
                assert(groups@[0] == gseq[k as int]);
            }
            let g = groups.remove(0);
            let kh = KeywordHighlighter::new(g);
            this.highlighters.push(AnyHighlighter::Keyword(kh));
            k = k + 1;
            proof {
                assert(groups@ =~= gseq.skip(k as int));
                assert(this.highlighters@.subrange(0, h0.len() as int) =~= h0);
            }
        }
        proof {
            assert forall|j: int|
                h0.len() <= j < this.highlighters@.len() implies (#[trigger] this.highlighters@[j]
                matches AnyHighlighter::Keyword(kh) && kh.style == ds[j - h0.len()] && kh.words@
                    == crate::normalizer::words_for_style(wfs, kh.style, wfs.len() as int)) by {
                let j0 = j - h0.len();
                assert(this.highlighters@[h0.len() + j0] matches AnyHighlighter::Keyword(kh)
                    && kh.style == ds[j0] && kh.words@ == crate::normalizer::words_for_style(
                    wfs,
                    kh.style,
                    wfs.len() as int,
                ));
            }
        }
        this
    }

    /// Add one highlighter to the pipeline under construction.
    fn try_add_highlighter(self, highlighter: AnyHighlighter) -> (r: Self)
        ensures
            r.highlighters@ == self.highlighters@.push(highlighter),
            r.errors@ == self.errors@,
    {
        let mut this = self;
        this.highlighters.push(highlighter);
        this
    }

    /// Finish construction: the pipeline, or every configuration error
    /// collected along the way.
    pub fn build(self) -> (r: Result<Highlighter, Error>)
        ensures
            self.errors@.len() == 0 <==> r is Ok,
            r matches Ok(hl) ==> hl.highlighters@ == self.highlighters@,
            r matches Err(e) ==> e.messages() == self.errors@,
    {
        if self.errors.len() == 0 {
            Ok(Highlighter::new().with_highlighters(self.highlighters))
        } else {
            Err(Error::HighlighterErrors(self.errors))
        }
    }
}

} // verus!
