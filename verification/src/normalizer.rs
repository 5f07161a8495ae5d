//! The keyword normalizer.
//!
//! Keyword configurations that share one style are merged into a single
//! configuration holding the union of their word lists, so keyword
//! highlighting needs only one pass per distinct style.  Groups come out in
//! the order their styles first appear; within a group, the words keep
//! their input order.

use vstd::prelude::*;

use crate::config::KeywordConfig;
use crate::style::Style;

verus! {

/// The distinct styles among the first `k` configurations, in order of
/// first appearance.
pub open spec fn distinct_styles(cs: Seq<KeywordConfig>, k: int) -> Seq<Style>
    decreases k,
{
    if k <= 0 {
        Seq::empty()
    } else {
        let prev = distinct_styles(cs, k - 1);
        if prev.contains(cs[k - 1].style) {
            prev
        } else {
            prev.push(cs[k - 1].style)
        }
    }
}

/// The words of every configuration among the first `k` whose style is
/// `s`, in input order.
pub open spec fn words_for_style(cs: Seq<KeywordConfig>, s: Style, k: int) -> Seq<String>
    decreases k,
{
    if k <= 0 {
        Seq::empty()
    } else {
        words_for_style(cs, s, k - 1) + (if cs[k - 1].style == s {
            cs[k - 1].words@
        } else {
            Seq::empty()
        })
    }
}

/// The distinct styles hold no duplicates.
pub proof fn lemma_distinct_styles(cs: Seq<KeywordConfig>, k: int)
    ensures
        forall|a: int, b: int|
            0 <= a < b < distinct_styles(cs, k).len() ==> distinct_styles(cs, k)[a]
                != distinct_styles(cs, k)[b],
    decreases k,
{
    if k > 0 {
        lemma_distinct_styles(cs, k - 1);
        let prev = distinct_styles(cs, k - 1);
        let s = cs[k - 1].style;
        if !prev.contains(s) {
            let cur = prev.push(s);
            assert forall|a: int, b: int| 0 <= a < b < cur.len() implies cur[a] != cur[b] by {
                if b == prev.len() {
                    assert(cur[a] == prev[a]);
                    if prev[a] == s {
                        assert(prev.contains(s));
                    }
                } else {
                    assert(cur[a] == prev[a] && cur[b] == prev[b]);
                }
            }
        }
    }
}

/// Merge keyword configurations that share one style into one
/// configuration each, holding the union of their word lists.  The groups
/// come out in the order their styles first appear in the input, so the
/// number of groups equals the number of distinct styles.
pub fn normalize_keyword_configs(configs: Vec<KeywordConfig>) -> (r: Vec<KeywordConfig>)
    ensures
        r@.len() == distinct_styles(configs@, configs@.len() as int).len(),
        forall|j: int|
            0 <= j < r@.len() ==> r@[j].style == distinct_styles(
                configs@,
                configs@.len() as int,
            )[j],
        forall|j: int|
            0 <= j < r@.len() ==> r@[j].words@ == words_for_style(
                configs@,
                r@[j].style,
                configs@.len() as int,
            ),
{
    let n = configs.len();
    let mut styles: Vec<Style> = Vec::new();
    let mut i: usize = 0;
    while i < n
        invariant
            i <= n,
            n == configs@.len(),
            styles@ == distinct_styles(configs@, i as int),
        decreases n - i,
    {
        if !contains_style(&styles, configs[i].style) {
            styles.push(configs[i].style);
        }
        i = i + 1;
    }
    let mut r: Vec<KeywordConfig> = Vec::new();
    let mut g: usize = 0;
    while g < styles.len()
        invariant
            g <= styles@.len(),
            n == configs@.len(),
            styles@ == distinct_styles(configs@, n as int),
            r@.len() == g,
            forall|j: int| 0 <= j < g ==> r@[j].style == styles@[j],
            forall|j: int|
                0 <= j < g ==> r@[j].words@ == words_for_style(configs@, r@[j].style, n as int),
        decreases styles@.len() - g,
    {
        let style = styles[g];
        let mut words: Vec<String> = Vec::new();
        let mut i: usize = 0;
        while i < n
            invariant
                i <= n,
                n == configs@.len(),
                words@ == words_for_style(configs@, style, i as int),
            decreases n - i,
        {
            if style_eq(&configs[i].style, &style) {
                let m = configs[i].words.len();
                let mut j: usize = 0;
                while j < m
                    invariant
                        j <= m,
                        i < n,
                        n == configs@.len(),
                        m == configs@[i as int].words@.len(),
                        configs@[i as int].style == style,
                        words@ == words_for_style(configs@, style, i as int) + configs@[i as int].words@.subrange(0, j as int),
                    decreases m - j,
                {
                    words.push(configs[i].words[j].clone());
                    proof {
                        assert(words@.drop_last() + seq![configs@[i as int].words@[j as int]]
                            =~= words@);
                        assert(configs@[i as int].words@.subrange(0, j as int).push(
                            configs@[i as int].words@[j as int],
                        ) =~= configs@[i as int].words@.subrange(0, j as int + 1));
                    }
                    j = j + 1;
                }
                proof {
                    assert(configs@[i as int].words@.subrange(0, m as int) =~= configs@[i as int].words@);
                }
            } else {
                proof {
                    assert(words_for_style(configs@, style, i as int + 1) =~= words_for_style(
                        configs@,
                        style,
                        i as int,
                    ) + Seq::<String>::empty());
                    assert(words_for_style(configs@, style, i as int) + Seq::<String>::empty()
                        =~= words_for_style(configs@, style, i as int));
                }
            }
            i = i + 1;
        }
        r.push(KeywordConfig { words, style });
        g = g + 1;
    }
    r
}

/// Whether `s` already occurs in `v`.
fn contains_style(v: &Vec<Style>, s: Style) -> (r: bool)
    ensures
        r == v@.contains(s),
{
    let mut k: usize = 0;
    while k < v.len()
        invariant
            k <= v@.len(),
            forall|j: int| 0 <= j < k ==> v@[j] != s,
        decreases v@.len() - k,
    {
        if style_eq(&v[k], &s) {
            return true;
        }
        k = k + 1;
    }
    false
}

/// Structural equality of two styles.
fn style_eq(a: &Style, b: &Style) -> (r: bool)
    ensures
        r == (*a == *b),
{
    *a == *b
}

} // verus!
