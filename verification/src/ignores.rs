//! The user's ignore patterns: cleaned when set, kept in order, and stored as
//! a JSON list of strings.
use vstd::prelude::*;
use crate::text::{
    ascii_lower, is_white_space, is_ascii_text, lemma_ascii_lower_props, lemma_trim_of_trimmed, lemma_trim_shape,
    lowercase, to_lowercase, trim, trim_str,
};

verus! {

/// The key under which the patterns are stored.
pub const STORAGE_KEY: &'static str = "ignore_patterns";

/// The ignore patterns in force.
pub struct IgnoreStore {
    latest: Vec<String>,
}

pub open spec fn strings_view(v: Seq<String>) -> Seq<Seq<char>> {
    v.map_values(|s: String| s@)
}

impl View for IgnoreStore {
    type V = Seq<Seq<char>>;

    closed spec fn view(&self) -> Seq<Seq<char>> {
        strings_view(self.latest@)
    }
}

/// One pattern as it is kept: trimmed, then lower-cased (a blank pattern
/// stays empty).
pub open spec fn clean_pattern(p: Seq<char>) -> Seq<char> {
    if trim(p).len() == 0 {
        Seq::empty()
    } else {
        lowercase(trim(p))
    }
}

/// The patterns as they are kept: each cleaned, the empty ones dropped, the
/// order unchanged.
pub open spec fn clean_patterns(ps: Seq<Seq<char>>) -> Seq<Seq<char>>
    decreases ps.len(),
{
    if ps.len() == 0 {
        Seq::empty()
    } else {
        let rest = clean_patterns(ps.drop_last());
        let c = clean_pattern(ps.last());
        if c.len() > 0 {
            rest.push(c)
        } else {
            rest
        }
    }
}

/// The list of strings that `serde_json::from_str` reads from `text`, if the
/// text is a JSON array of strings.
pub uninterp spec fn json_string_list(text: Seq<char>) -> Option<Seq<Seq<char>>>;

/// The JSON text that `serde_json::to_string` writes for a list of strings.
pub uninterp spec fn json_of_string_list(list: Seq<Seq<char>>) -> Seq<char>;

/// Calls `serde_json::from_str::<Vec<String>>`; the outcome is named by
/// `json_string_list`, a function of the text alone.
#[verifier::external_body]
fn parse_string_list(text: &str) -> (res: Option<Vec<String>>)
    ensures
        match res {
            Some(v) => json_string_list(text@) == Some(strings_view(v@)),
            None => json_string_list(text@) is None,
        },
{
    serde_json::from_str::<Vec<String>>(text).ok()
}

/// Calls `serde_json::to_string` on a list of strings; the text is named by
/// `json_of_string_list`, a function of the list alone. Writing fails only for
/// a failing `Serialize` impl or a map with keys that are not strings, neither
/// of which a list of strings has, so a text always comes back.
#[verifier::external_body]
fn encode_string_list(list: &Vec<String>) -> (res: Option<String>)
    ensures
        match res {
            Some(s) => json_of_string_list(strings_view(list@)) == s@,
            None => false,
        },
{
    serde_json::to_string(list).ok()
}

fn copy_strings(v: &Vec<String>) -> (res: Vec<String>)
    ensures
        strings_view(res@) == strings_view(v@),
{
    let mut res: Vec<String> = Vec::new();
    for i in 0..v.len()
        invariant
            strings_view(res@) == strings_view(v@.subrange(0, i as int)),
    {
        let ghost before = strings_view(res@);
        res.push(v[i].clone());
        assert(strings_view(res@) =~= before.push(v@[i as int]@));
        assert(strings_view(v@.subrange(0, i + 1)) =~= strings_view(v@.subrange(0, i as int)).push(
            v@[i as int]@,
        ));
    }
    assert(v@.subrange(0, v.len() as int) =~= v@);
    res
}

impl IgnoreStore {
    /// No patterns.
    pub fn new() -> (res: Self)
        ensures
            res@ == Seq::<Seq<char>>::empty(),
    {
        let res = IgnoreStore { latest: Vec::new() };
        assert(res@ =~= Seq::<Seq<char>>::empty());
        res
    }
}

/// Cleans `patterns`: each trimmed and lower-cased, the empty ones dropped.
pub fn clean(patterns: &Vec<String>) -> (res: Vec<String>)
    ensures
        strings_view(res@) == clean_patterns(strings_view(patterns@)),
{
    let ghost all = strings_view(patterns@);
    let mut res: Vec<String> = Vec::new();
    for i in 0..patterns.len()
        invariant
            all == strings_view(patterns@),
            strings_view(res@) == clean_patterns(all.subrange(0, i as int)),
    {
        let ghost before = strings_view(res@);
        assert(all.subrange(0, i + 1).drop_last() =~= all.subrange(0, i as int));
        let trimmed = trim_str(patterns[i].as_str());
        let lowered = to_lowercase(trimmed.as_str());
        if !lowered.as_str().is_empty() {
            assert(lowered@ == clean_pattern(all[i as int]));
            res.push(lowered);
            assert(strings_view(res@) =~= before.push(clean_pattern(all[i as int])));
        }
    }
    assert(all.subrange(0, patterns.len() as int) =~= all);
    res
}

/// The patterns in force.
pub fn get(store: &IgnoreStore) -> (res: Vec<String>)
    ensures
        strings_view(res@) == store@,
{
    copy_strings(&store.latest)
}

/// Puts `patterns` in force, cleaned: each trimmed and lower-cased, the
/// empty ones dropped.
pub fn set(store: &mut IgnoreStore, patterns: Vec<String>)
    ensures
        final(store)@ == clean_patterns(strings_view(patterns@)),
{
    store.latest = clean(&patterns);
}

/// Puts in force the patterns stored as `stored`, a JSON list of strings, as
/// they are; with nothing stored, or text that is no such list, nothing
/// changes.
pub fn seed(store: &mut IgnoreStore, stored: Option<String>)
    ensures
        match stored {
            Some(raw) => match json_string_list(raw@) {
                Some(ps) => final(store)@ == ps,
                None => final(store)@ == old(store)@,
            },
            None => final(store)@ == old(store)@,
        },
{
    match stored {
        None => {},
        Some(raw) => {
            match parse_string_list(raw.as_str()) {
                Some(patterns) => {
                    store.latest = patterns;
                },
                None => {},
            }
        },
    }
}

/// The patterns in force as a JSON list of strings.
pub fn to_storage_string(store: &IgnoreStore) -> (res: String)
    ensures
        res@ == json_of_string_list(store@),
{
    match encode_string_list(&store.latest) {
        Some(text) => text,
        None => String::new(),
    }
}

/// Every pattern kept is non-empty, and there are never more than were given.
pub proof fn lemma_clean_patterns_nonempty(ps: Seq<Seq<char>>)
    ensures
        forall|i: int| 0 <= i < clean_patterns(ps).len() ==> #[trigger] clean_patterns(ps)[i].len()
            > 0,
        clean_patterns(ps).len() <= ps.len(),
    decreases ps.len(),
{
    if ps.len() > 0 {
        lemma_clean_patterns_nonempty(ps.drop_last());
    }
}

/// A pattern that is blank once trimmed is dropped.
pub proof fn lemma_blank_pattern_dropped(ps: Seq<Seq<char>>, p: Seq<char>)
    requires
        trim(p).len() == 0,
    ensures
        clean_patterns(ps.push(p)) == clean_patterns(ps),
{
    assert(ps.push(p).drop_last() =~= ps);
}

/// Cleaning works pattern by pattern: the patterns of two lists cleaned
/// together are those of each list cleaned on its own, in order.
pub proof fn lemma_clean_patterns_append(a: Seq<Seq<char>>, b: Seq<Seq<char>>)
    ensures
        clean_patterns(a + b) == clean_patterns(a) + clean_patterns(b),
    decreases b.len(),
{
    if b.len() == 0 {
        assert(a + b =~= a);
        assert(clean_patterns(a) + clean_patterns(b) =~= clean_patterns(a));
    } else {
        lemma_clean_patterns_append(a, b.drop_last());
        assert((a + b).drop_last() =~= a + b.drop_last());
        assert((a + b).last() == b.last());
        let c = clean_pattern(b.last());
        if c.len() > 0 {
            assert(clean_patterns(a) + clean_patterns(b.drop_last()).push(c) =~= (clean_patterns(a)
                + clean_patterns(b.drop_last())).push(c));
        }
    }
}

/// Cleaning an ASCII pattern gives a pattern that cleaning leaves alone.
pub proof fn lemma_clean_pattern_settled(p: Seq<char>)
    requires
        is_ascii_text(p),
    ensures
        is_ascii_text(clean_pattern(p)),
        clean_pattern(clean_pattern(p)) == clean_pattern(p),
{
    lemma_trim_shape(p);
    let t = trim(p);
    let (i, j) = choose|i: int, j: int| 0 <= i <= j <= p.len() && trim(p) == p.subrange(i, j);
    assert(is_ascii_text(t)) by {
        assert forall|k: int| 0 <= k < t.len() implies (#[trigger] t[k] as u32) < 128 by {
            assert(t[k] == p[i + k]);
        }
    }
    if t.len() > 0 {
        lemma_ascii_lower_props(t);
        let c = ascii_lower(t);
        assert(clean_pattern(p) == c);
        assert(!is_white_space(c[0]) && !is_white_space(c.last())) by {
            assert(c.last() == c[c.len() - 1]);
        }
        lemma_trim_of_trimmed(c);
        assert(clean_pattern(c) == ascii_lower(c));
    } else {
        assert(clean_pattern(p) =~= Seq::<char>::empty());
        assert(trim(Seq::<char>::empty()) =~= Seq::<char>::empty());
    }
}

/// Setting the patterns in force again changes nothing: cleaning a cleaned
/// list of ASCII patterns gives the same list. (For other text this rests on
/// Unicode lower-casing being idempotent, which is not stated here.)
pub proof fn lemma_clean_patterns_settled(ps: Seq<Seq<char>>)
    requires
        forall|i: int| 0 <= i < ps.len() ==> is_ascii_text(#[trigger] ps[i]),
    ensures
        clean_patterns(clean_patterns(ps)) == clean_patterns(ps),
    decreases ps.len(),
{
    if ps.len() > 0 {
        let rest = ps.drop_last();
        assert forall|i: int| 0 <= i < rest.len() implies is_ascii_text(#[trigger] rest[i]) by {
            assert(rest[i] == ps[i]);
        }
        lemma_clean_patterns_settled(rest);
        let c = clean_pattern(ps.last());
        lemma_clean_pattern_settled(ps.last());
        if c.len() > 0 {
            let cleaned = clean_patterns(rest).push(c);
            assert(cleaned.drop_last() =~= clean_patterns(rest));
            assert(cleaned.last() == c);
        }
    }
}

} // verus!
