//! MQTT topic filters: which topic names a subscription receives.
//!
//! A topic is split into levels at each `/`. In a filter, the level `+` stands for
//! any one level and a final `#` for any number of levels, none included (so
//! `sport/#` also receives `sport`). Topics that begin with `$` are not received
//! by filters that begin with a wildcard. A topic that is exactly a
//! subscription's filter always reaches it.

use vstd::prelude::*;

use crate::text::{push_char, views_of};

verus! {

/// The levels of a topic name or filter: the parts between its `/` separators.
pub open spec fn topic_levels(t: Seq<char>) -> Seq<Seq<char>>
    decreases t.len(),
{
    if t.len() == 0 {
        seq![Seq::empty()]
    } else {
        let l = topic_levels(t.drop_last());
        if t.last() == '/' {
            l.push(Seq::empty())
        } else {
            l.update(l.len() - 1, l.last().push(t.last()))
        }
    }
}

/// Whether the filter levels `f` take in the topic levels `t`.
pub open spec fn levels_match(f: Seq<Seq<char>>, t: Seq<Seq<char>>) -> bool
    decreases f.len(),
{
    if f.len() == 0 {
        t.len() == 0
    } else if f[0] == seq!['#'] {
        f.len() == 1
    } else if t.len() == 0 {
        false
    } else if f[0] == seq!['+'] || f[0] == t[0] {
        levels_match(f.drop_first(), t.drop_first())
    } else {
        false
    }
}

/// Whether a subscription to `filter` receives messages published on `topic`.
pub open spec fn topic_matches(filter: Seq<char>, topic: Seq<char>) -> bool {
    let reserved = topic.len() > 0 && topic[0] == '$';
    let wild_start = filter.len() > 0 && (filter[0] == '+' || filter[0] == '#');
    !(reserved && wild_start) && levels_match(topic_levels(filter), topic_levels(topic))
}

/// Whether a subscription to `filter` receives a message on `topic`: the topic is
/// the filter itself, or the filter takes it in.
pub open spec fn receives(filter: Seq<char>, topic: Seq<char>) -> bool {
    filter == topic || topic_matches(filter, topic)
}

pub proof fn lemma_topic_levels_nonempty(t: Seq<char>)
    ensures
        topic_levels(t).len() >= 1,
    decreases t.len(),
{
    if t.len() > 0 {
        lemma_topic_levels_nonempty(t.drop_last());
    }
}

/// Splits `t` into its levels.
pub fn split_levels(t: &str) -> (r: Vec<String>)
    ensures
        views_of(r@) == topic_levels(t@),
{
    let n = t.unicode_len();
    let mut levels: Vec<String> = Vec::new();
    let mut cur = String::new();
    let mut i: usize = 0;
    proof {
        assert(t@.take(0) =~= Seq::<char>::empty());
        assert(views_of(levels@).push(cur@) =~= topic_levels(t@.take(0)));
    }
    while i < n
        invariant
            n == t@.len(),
            0 <= i <= n,
            views_of(levels@).push(cur@) == topic_levels(t@.take(i as int)),
        decreases n - i,
    {
        let c = t.get_char(i);
        let ghost before = views_of(levels@).push(cur@);
        proof {
            assert(t@.take(i + 1).drop_last() =~= t@.take(i as int));
            assert(t@.take(i + 1).last() == c);
            lemma_topic_levels_nonempty(t@.take(i as int));
        }
        if c == '/' {
            levels.push(cur);
            cur = String::new();
            proof {
                assert(views_of(levels@).push(cur@) =~= before.push(Seq::empty()));
            }
        } else {
            push_char(&mut cur, c);
            proof {
                assert(views_of(levels@).push(cur@) =~= before.update(
                    before.len() - 1,
                    before.last().push(c),
                ));
            }
        }
        i = i + 1;
    }
    let ghost before = views_of(levels@).push(cur@);
    levels.push(cur);
    proof {
        assert(t@.take(n as int) =~= t@);
        assert(views_of(levels@) =~= before);
    }
    levels
}

/// Whether the level `s` is exactly the one character `c`.
fn level_is(s: &String, c: char) -> (r: bool)
    ensures
        r == (s@ == seq![c]),
{
    let t = s.as_str();
    if t.unicode_len() == 1 {
        let d = t.get_char(0);
        proof {
            if d == c {
                assert(s@ =~= seq![c]);
            }
        }
        d == c
    } else {
        false
    }
}

/// Whether the filter levels `f` take in the topic levels `t`.
fn levels_match_exec(f: &Vec<String>, t: &Vec<String>) -> (r: bool)
    ensures
        r == levels_match(views_of(f@), views_of(t@)),
{
    let ghost fv = views_of(f@);
    let ghost tv = views_of(t@);
    let mut i: usize = 0;
    proof {
        assert(fv.skip(0) =~= fv);
        assert(tv.skip(0) =~= tv);
    }
    while i < f.len()
        invariant
            fv == views_of(f@),
            tv == views_of(t@),
            0 <= i <= f@.len(),
            i <= t@.len(),
            levels_match(fv, tv) == levels_match(fv.skip(i as int), tv.skip(i as int)),
        decreases f@.len() - i,
    {
        let ghost fs = fv.skip(i as int);
        let ghost ts = tv.skip(i as int);
        assert(fs[0] == f@[i as int]@);
        if level_is(&f[i], '#') {
            return i + 1 == f.len();
        }
        if i >= t.len() {
            assert(ts.len() == 0);
            return false;
        }
        assert(ts[0] == t@[i as int]@);
        let same = level_is(&f[i], '+') || f[i] == t[i];
        if !same {
            return false;
        }
        proof {
            assert(fs.drop_first() =~= fv.skip(i + 1));
            assert(ts.drop_first() =~= tv.skip(i + 1));
        }
        i = i + 1;
    }
    proof {
        assert(fv.skip(i as int).len() == 0);
    }
    i == t.len()
}

/// Whether a subscription to `filter` receives messages published on `topic`.
pub fn filter_matches(filter: &str, topic: &str) -> (r: bool)
    ensures
        r == topic_matches(filter@, topic@),
{
    if topic.unicode_len() > 0 && topic.get_char(0) == '$' && filter.unicode_len() > 0 {
        let first = filter.get_char(0);
        if first == '+' || first == '#' {
            return false;
        }
    }
    let f = split_levels(filter);
    let t = split_levels(topic);
    levels_match_exec(&f, &t)
}

/// Whether a subscription to `filter` receives a message on `topic`.
pub fn subscription_receives(filter: &String, topic: &String) -> (r: bool)
    ensures
        r == receives(filter@, topic@),
{
    filter.eq(topic) || filter_matches(filter.as_str(), topic.as_str())
}

} // verus!
