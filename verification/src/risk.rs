//! Screening modules against the risk catalog: which rule a module's description
//! trips, when the cached catalog should be replaced, and the messages shown.
use vstd::prelude::*;
use crate::text;
use crate::text::{alphanumeric, lowercase_of, nfkc_of, words};

verus! {

broadcast use vstd::string::group_string_axioms;

// ---------------------------------------------------------------------------
// Types
// ---------------------------------------------------------------------------

/// How serious a flagged module is.
#[derive(Debug, Clone, Copy, PartialEq, Eq, Structural)]
pub enum RiskSeverity {
    Low,
    Medium,
    High,
    Extreme,
}

/// One rule: the patterns that trip it, and what is said when one does.
#[derive(Debug)]
pub struct RiskGroup {
    pub reason: String,
    pub severity: RiskSeverity,
    pub patterns: Vec<String>,
}

/// The rule a module tripped.
#[derive(Debug)]
pub struct RiskMatch {
    pub reason: String,
    pub severity: RiskSeverity,
}

/// A risk catalog: a hash that identifies its version, and its rules.
#[derive(Debug)]
pub struct RiskCatalog {
    pub hash: String,
    pub rules: Vec<RiskGroup>,
}

pub struct RiskGroupView {
    pub reason: Seq<char>,
    pub severity: RiskSeverity,
    pub patterns: Seq<Seq<char>>,
}

impl View for RiskGroup {
    type V = RiskGroupView;

    open spec fn view(&self) -> RiskGroupView {
        RiskGroupView {
            reason: self.reason@,
            severity: self.severity,
            patterns: self.patterns@.map_values(|p: String| p@),
        }
    }
}

pub open spec fn groups_view(groups: Seq<RiskGroup>) -> Seq<RiskGroupView> {
    groups.map_values(|g: RiskGroup| g@)
}

// ---------------------------------------------------------------------------
// The cached catalog
// ---------------------------------------------------------------------------

/// The cache is replaced unless both catalogs parse and carry the same hash.
pub open spec fn cache_outdated(local: Option<Seq<char>>, remote: Option<Seq<char>>) -> bool {
    match (local, remote) {
        (Some(l), Some(r)) => l != r,
        _ => true,
    }
}

pub open spec fn hash_of(c: Option<&RiskCatalog>) -> Option<Seq<char>> {
    match c {
        Some(c) => Some(c.hash@),
        None => None,
    }
}

pub open spec fn parsed_hash(c: Option<RiskCatalog>) -> Option<Seq<char>> {
    match c {
        Some(c) => Some(c.hash@),
        None => None,
    }
}

/// Whether the cached catalog should give way to the fetched one: when either failed to
/// parse (`None`), or their hashes differ.
pub fn should_update_risk_cache(local: Option<&RiskCatalog>, remote: Option<&RiskCatalog>) -> (r: bool)
    ensures
        r == cache_outdated(hash_of(local), hash_of(remote)),
{
    match (local, remote) {
        (Some(l), Some(r)) => !text::str_eq(l.hash.as_str(), r.hash.as_str()),
        _ => true,
    }
}

/// Where the catalog to use comes from.
#[derive(Debug, Clone, Copy, PartialEq, Eq, Structural)]
pub enum RiskSource {
    /// The cached catalog.
    Cache,
    /// The fetched catalog, which is also written to the cache.
    Remote,
    /// The catalog bundled with ksud.
    Bundled,
}

/// Picks the catalog to use from what could be read from the cache and fetched: the
/// fetched one when the cache is missing or outdated, the cached one when nothing was
/// fetched, and the bundled one when there is neither. `parse` reads a catalog.
pub fn load_risk_json<P: Fn(&Vec<u8>) -> Option<RiskCatalog>>(
    local: &Option<Vec<u8>>,
    remote: &Option<Vec<u8>>,
    parse: &P,
) -> (r: RiskSource)
    requires
        forall|b: &Vec<u8>| #[trigger] parse.requires((b,)),
    ensures
        match (local, remote) {
            (Some(l), Some(f)) => exists|pl: Option<RiskCatalog>, pf: Option<RiskCatalog>|
                #![trigger parse.ensures((l,), pl), parse.ensures((f,), pf)]
                parse.ensures((l,), pl) && parse.ensures((f,), pf) && r == if cache_outdated(
                    parsed_hash(pl),
                    parsed_hash(pf),
                ) {
                    RiskSource::Remote
                } else {
                    RiskSource::Cache
                },
            (Some(_), None) => r == RiskSource::Cache,
            (None, Some(_)) => r == RiskSource::Remote,
            (None, None) => r == RiskSource::Bundled,
        },
{
    match (local, remote) {
        (Some(l), Some(f)) => {
            let pl = parse(l);
            let pf = parse(f);
            if should_update_risk_cache(pl.as_ref(), pf.as_ref()) {
                RiskSource::Remote
            } else {
                RiskSource::Cache
            }
        },
        (Some(_), None) => RiskSource::Cache,
        (None, Some(_)) => RiskSource::Remote,
        (None, None) => RiskSource::Bundled,
    }
}

/// The rules to screen with: the parsed catalog's, else the bundled catalog's, else
/// none. `bundled` parses the bundled catalog and is only asked when needed.
pub fn risk_rules<B: Fn() -> Option<RiskCatalog>>(parsed: Option<RiskCatalog>, bundled: &B) -> (r: Vec<
    RiskGroup,
>)
    requires
        bundled.requires(()),
    ensures
        parsed matches Some(c) ==> r@ == c.rules@,
        parsed is None ==> exists|b: Option<RiskCatalog>| #[trigger]
            bundled.ensures((), b) && match b {
                Some(c) => r@ == c.rules@,
                None => r@.len() == 0,
            },
{
    match parsed {
        Some(c) => c.rules,
        None => match bundled() {
            Some(c) => c.rules,
            None => Vec::new(),
        },
    }
}

// ---------------------------------------------------------------------------
// Normalizing text
// ---------------------------------------------------------------------------

/// The lowercase mapping of each character in turn.
pub open spec fn lowercased(s: Seq<char>) -> Seq<char>
    decreases s.len(),
{
    if s.len() == 0 {
        seq![]
    } else {
        lowercased(s.drop_last()) + lowercase_of(s.last())
    }
}

/// Letters and digits kept, everything else a space.
pub open spec fn alnum_or_space(c: char) -> char {
    if alphanumeric(c) {
        c
    } else {
        ' '
    }
}

/// A text in the form rules compare: NFKC, lower case, and with every character that is
/// not a letter or digit turned into a space.
pub open spec fn normalized(s: Seq<char>) -> Seq<char> {
    folded(nfkc_of(s))
}

/// A text in lower case, with every character that is not a letter or digit turned
/// into a space.
pub open spec fn folded(s: Seq<char>) -> Seq<char> {
    lowercased(s).map_values(|c: char| alnum_or_space(c))
}

/// The words a text is compared by.
pub open spec fn tokens(s: Seq<char>) -> Seq<Seq<char>> {
    words(normalized(s))
}

fn fold_chars(chars: &Vec<char>) -> (r: Vec<char>)
    ensures
        r@ == folded(chars@),
{
    let mut out: Vec<char> = Vec::new();
    let mut i: usize = 0;
    while i < chars.len()
        invariant
            i <= chars@.len(),
            out@ == folded(chars@.take(i as int)),
        decreases chars.len() - i,
    {
        let lower = text::char_to_lowercase(chars[i]);
        let ghost before = out@;
        let mut j: usize = 0;
        while j < lower.len()
            invariant
                j <= lower@.len(),
                out@ == before + lower@.take(j as int).map_values(|c: char| alnum_or_space(c)),
            decreases lower.len() - j,
        {
            let c = lower[j];
            if text::is_alphanumeric(c) {
                out.push(c);
            } else {
                out.push(' ');
            }
            j += 1;
            assert(out@ =~= before + lower@.take(j as int).map_values(|c: char| alnum_or_space(c)));
        }
        proof {
            let t = chars@.take(i + 1);
            assert(t.drop_last() =~= chars@.take(i as int));
            assert(lower@.take(j as int) =~= lower@);
            assert(lowercased(t) == lowercased(chars@.take(i as int)) + lowercase_of(chars@[i as int]));
            assert(out@ =~= lowercased(t).map_values(|c: char| alnum_or_space(c)));
        }
        i += 1;
    }
    assert(chars@.take(i as int) =~= chars@);
    out
}

/// Lower-cases a text that is already in NFKC and turns every character that is not a
/// letter or digit into a space: what normalizing does after composing.
pub fn fold_composed_text(composed: &str) -> (r: String)
    ensures
        r@ == folded(composed@),
{
    let chars = text::chars_of(composed);
    let v = fold_chars(&chars);
    text::string_of(&v)
}

fn normalize_chars(s: &str) -> (r: Vec<char>)
    ensures
        r@ == normalized(s@),
{
    let composed = text::nfkc(s);
    let chars = text::chars_of(composed.as_str());
    fold_chars(&chars)
}

/// The form rules compare a text in: NFKC, lower case, and with every character that is
/// not a letter or digit turned into a space.
pub fn normalize_risk_text(s: &str) -> (r: String)
    ensures
        r@ == normalized(s@),
{
    let v = normalize_chars(s);
    text::string_of(&v)
}

// ---------------------------------------------------------------------------
// Matching
// ---------------------------------------------------------------------------

/// `needle` stands in `hay` from position `i` on.
pub open spec fn occurs_at(hay: Seq<Seq<char>>, needle: Seq<Seq<char>>, i: int) -> bool {
    0 <= i && i + needle.len() <= hay.len() && hay.subrange(i, i + needle.len() as int) == needle
}

/// A pattern trips on a text when its words are not empty and stand in the text's
/// words as one unbroken run.
pub open spec fn pattern_hits(props: Seq<Seq<char>>, pattern: Seq<char>) -> bool {
    tokens(pattern).len() > 0 && exists|i: int| occurs_at(props, tokens(pattern), i)
}

/// Some pattern of the rule trips.
pub open spec fn group_hits(props: Seq<Seq<char>>, patterns: Seq<Seq<char>>) -> bool {
    exists|j: int| 0 <= j < patterns.len() && pattern_hits(props, #[trigger] patterns[j])
}

/// The first rule, in catalog order, that trips.
pub open spec fn first_hit(groups: Seq<RiskGroupView>, props: Seq<Seq<char>>) -> Option<RiskGroupView>
    decreases groups.len(),
{
    if groups.len() == 0 {
        None
    } else if group_hits(props, groups[0].patterns) {
        Some(groups[0])
    } else {
        first_hit(groups.drop_first(), props)
    }
}

pub open spec fn words_view(v: Seq<Vec<char>>) -> Seq<Seq<char>> {
    v.map_values(|w: Vec<char>| w@)
}

/// Whether `needle` stands at position `i` of `hay`.
fn matches_at(hay: &Vec<Vec<char>>, needle: &Vec<Vec<char>>, i: usize) -> (r: bool)
    requires
        i + needle@.len() <= hay@.len(),
    ensures
        r == occurs_at(words_view(hay@), words_view(needle@), i as int),
{
    let ghost h = words_view(hay@);
    let ghost n = words_view(needle@);
    let hay_len = hay.len();
    let mut k: usize = 0;
    while k < needle.len()
        invariant
            k <= needle@.len(),
            hay_len == hay@.len(),
            i + needle@.len() <= hay@.len(),
            h == words_view(hay@),
            n == words_view(needle@),
            forall|m: int| 0 <= m < k ==> h[i + m] == n[m],
        decreases needle.len() - k,
    {
        let at = i + k;
        if !text::chars_eq(&hay[at], &needle[k]) {
            assert(h.subrange(i as int, i + n.len())[k as int] != n[k as int]);
            return false;
        }
        k += 1;
    }
    assert(h.subrange(i as int, i + n.len()) =~= n);
    true
}

/// Whether a pattern trips on the words of a text.
fn pattern_trips(props: &Vec<Vec<char>>, pattern: &str) -> (r: bool)
    ensures
        r == pattern_hits(words_view(props@), pattern@),
{
    let norm = normalize_chars(pattern);
    let pat = text::split_words(&norm);
    assert(words_view(pat@) =~= tokens(pattern@));
    if pat.len() == 0 || pat.len() > props.len() {
        proof {
            if pat@.len() > props@.len() {
                assert forall|i: int| !occurs_at(words_view(props@), tokens(pattern@), i) by {}
            }
        }
        return false;
    }
    let props_len = props.len();
    let last = props_len - pat.len();
    let mut i: usize = 0;
    while i <= last
        invariant
            last == props@.len() - pat@.len(),
            0 < pat@.len() <= props@.len(),
            props_len == props@.len(),
            words_view(pat@) == tokens(pattern@),
            forall|k: int| 0 <= k < i ==> !occurs_at(words_view(props@), tokens(pattern@), k),
        decreases last + 1 - i,
    {
        if matches_at(props, &pat, i) {
            assert(occurs_at(words_view(props@), tokens(pattern@), i as int));
            return true;
        }
        i += 1;
    }
    assert forall|k: int| !occurs_at(words_view(props@), tokens(pattern@), k) by {}
    false
}

/// Whether some pattern of a rule trips.
fn group_trips(props: &Vec<Vec<char>>, group: &RiskGroup) -> (r: bool)
    ensures
        r == group_hits(words_view(props@), group@.patterns),
{
    let ghost ps = group@.patterns;
    let mut j: usize = 0;
    while j < group.patterns.len()
        invariant
            j <= group.patterns@.len(),
            ps == group@.patterns,
            forall|m: int| 0 <= m < j ==> !pattern_hits(words_view(props@), #[trigger] ps[m]),
        decreases group.patterns.len() - j,
    {
        if pattern_trips(props, group.patterns[j].as_str()) {
            assert(pattern_hits(words_view(props@), ps[j as int]));
            return true;
        }
        j += 1;
    }
    false
}

/// The first rule, in catalog order, that the module's description trips, if any.
pub fn contains_risk(module_prop: &str, rules: &Vec<RiskGroup>) -> (r: Option<RiskMatch>)
    ensures
        match first_hit(groups_view(rules@), tokens(module_prop@)) {
            None => r is None,
            Some(g) => r matches Some(m) && m.reason@ == g.reason && m.severity == g.severity,
        },
{
    let norm = normalize_chars(module_prop);
    let props = text::split_words(&norm);
    assert(words_view(props@) =~= tokens(module_prop@));
    let ghost gs = groups_view(rules@);
    let mut i: usize = 0;
    assert(gs.skip(0) =~= gs);
    while i < rules.len()
        invariant
            i <= rules@.len(),
            gs == groups_view(rules@),
            words_view(props@) == tokens(module_prop@),
            first_hit(gs, tokens(module_prop@)) == first_hit(gs.skip(i as int), tokens(module_prop@)),
        decreases rules.len() - i,
    {
        let group = &rules[i];
        assert(gs.skip(i as int)[0] == group@);
        assert(gs.skip(i as int).drop_first() =~= gs.skip(i + 1));
        if group_trips(&props, group) {
            return Some(RiskMatch { reason: group.reason.clone(), severity: group.severity });
        }
        i += 1;
    }
    assert(gs.skip(i as int) =~= seq![]);
    None
}

// ---------------------------------------------------------------------------
// What screening means
// ---------------------------------------------------------------------------

/// The words `t` stand one by one at `props[i]`, `props[i + 1]`, and so on.
pub open spec fn words_stand_at(props: Seq<Seq<char>>, t: Seq<Seq<char>>, i: int) -> bool {
    &&& 0 <= i
    &&& i + t.len() <= props.len()
    &&& forall|k: int| 0 <= k < t.len() ==> props[i + k] == #[trigger] t[k]
}

/// A pattern trips exactly when its words are not empty and stand, word for word and
/// in order, at some position among the text's words.
pub proof fn lemma_pattern_hits_words(props: Seq<Seq<char>>, pattern: Seq<char>)
    ensures
        pattern_hits(props, pattern) <==> (tokens(pattern).len() > 0 && exists|i: int|
            #[trigger] words_stand_at(props, tokens(pattern), i)),
{
    let t = tokens(pattern);
    if pattern_hits(props, pattern) {
        let i = choose|i: int| occurs_at(props, t, i);
        assert forall|k: int| 0 <= k < t.len() implies props[i + k] == #[trigger] t[k] by {
            assert(props.subrange(i, i + t.len() as int)[k] == props[i + k]);
        }
        assert(words_stand_at(props, t, i));
    }
    if t.len() > 0 && exists|i: int| #[trigger] words_stand_at(props, t, i) {
        let i = choose|i: int| #[trigger] words_stand_at(props, t, i);
        assert(props.subrange(i, i + t.len() as int) =~= t);
        assert(occurs_at(props, t, i));
    }
}

/// Any pattern of a rule trips it, not only some: when pattern `j` of rule `i` trips
/// and no pattern of an earlier rule does, rule `i` is the one found.
pub proof fn lemma_first_hit_complete(groups: Seq<RiskGroupView>, props: Seq<Seq<char>>, i: int, j: int)
    requires
        0 <= i < groups.len(),
        0 <= j < groups[i].patterns.len(),
        pattern_hits(props, groups[i].patterns[j]),
        forall|k: int, m: int|
            0 <= k < i && 0 <= m < groups[k].patterns.len() ==> !pattern_hits(
                props,
                #[trigger] groups[k].patterns[m],
            ),
    ensures
        first_hit(groups, props) == Some(groups[i]),
    decreases i,
{
    if i == 0 {
        assert(group_hits(props, groups[0].patterns));
    } else {
        assert(!group_hits(props, groups[0].patterns)) by {
            assert forall|m: int| 0 <= m < groups[0].patterns.len() implies !pattern_hits(
                props,
                #[trigger] groups[0].patterns[m],
            ) by {}
        }
        let rest = groups.drop_first();
        assert forall|k: int, m: int|
            0 <= k < i - 1 && 0 <= m < rest[k].patterns.len() implies !pattern_hits(
                props,
                #[trigger] rest[k].patterns[m],
            ) by {
            assert(rest[k] == groups[k + 1]);
        }
        lemma_first_hit_complete(rest, props, i - 1, j);
    }
}

/// The rule found is one of the catalog's rules with a pattern that trips, and no
/// pattern of an earlier rule trips; when none is found, no pattern of any rule trips.
pub proof fn lemma_first_hit_sound(groups: Seq<RiskGroupView>, props: Seq<Seq<char>>)
    ensures
        first_hit(groups, props) matches Some(g) ==> exists|i: int, j: int|
            0 <= i < groups.len() && groups[i] == g && 0 <= j < groups[i].patterns.len()
                && pattern_hits(props, #[trigger] groups[i].patterns[j]) && forall|k: int, m: int|
                0 <= k < i && 0 <= m < groups[k].patterns.len() ==> !pattern_hits(
                    props,
                    #[trigger] groups[k].patterns[m],
                ),
        first_hit(groups, props) is None ==> forall|k: int, m: int|
            0 <= k < groups.len() && 0 <= m < groups[k].patterns.len() ==> !pattern_hits(
                props,
                #[trigger] groups[k].patterns[m],
            ),
    decreases groups.len(),
{
    if groups.len() == 0 {
    } else if group_hits(props, groups[0].patterns) {
        let j = choose|j: int|
            0 <= j < groups[0].patterns.len() && pattern_hits(props, #[trigger] groups[0].patterns[j]);
        assert(pattern_hits(props, groups[0].patterns[j]));
    } else {
        let rest = groups.drop_first();
        lemma_first_hit_sound(rest, props);
        match first_hit(rest, props) {
            Some(g) => {
                let (i, j) = choose|i: int, j: int|
                    0 <= i < rest.len() && rest[i] == g && 0 <= j < rest[i].patterns.len()
                        && pattern_hits(props, #[trigger] rest[i].patterns[j]) && forall|k: int, m: int|
                        0 <= k < i && 0 <= m < rest[k].patterns.len() ==> !pattern_hits(
                            props,
                            #[trigger] rest[k].patterns[m],
                        );
                assert(groups[i + 1] == g);
                assert(pattern_hits(props, groups[i + 1].patterns[j]));
                assert forall|k: int, m: int|
                    0 <= k < i + 1 && 0 <= m < groups[k].patterns.len() implies !pattern_hits(
                        props,
                        #[trigger] groups[k].patterns[m],
                    ) by {
                    if k > 0 {
                        assert(groups[k] == rest[k - 1]);
                    }
                }
            },
            None => {
                assert forall|k: int, m: int|
                    0 <= k < groups.len() && 0 <= m < groups[k].patterns.len() implies !pattern_hits(
                        props,
                        #[trigger] groups[k].patterns[m],
                    ) by {
                    if k > 0 {
                        assert(groups[k] == rest[k - 1]);
                    }
                }
            },
        }
    }
}

/// Every character of a normalized text is a space or alphanumeric: a character that
/// is not alphanumeric, such as `=`, always becomes a space, and the others keep their
/// lower case.
pub proof fn lemma_normalized_chars(s: Seq<char>)
    ensures
        normalized(s).len() == lowercased(nfkc_of(s)).len(),
        forall|i: int| 0 <= i < normalized(s).len() ==> (#[trigger] normalized(s)[i] == ' ' || alphanumeric(
            normalized(s)[i],
        )),
        forall|i: int|
            0 <= i < normalized(s).len() ==> (alphanumeric(lowercased(nfkc_of(s))[i]) ==> #[trigger] normalized(s)[i]
                == lowercased(nfkc_of(s))[i]),
        forall|i: int|
            0 <= i < normalized(s).len() ==> (!alphanumeric(lowercased(nfkc_of(s))[i]) ==> #[trigger] normalized(s)[i]
                == ' '),
{
}

proof fn lemma_words_alphanumeric(t: Seq<char>)
    requires
        forall|j: int| 0 <= j < t.len() ==> #[trigger] t[j] == ' ' || alphanumeric(t[j]),
    ensures
        forall|k: int, i: int|
            0 <= k < words(t).len() && 0 <= i < words(t)[k].len() ==> alphanumeric(
                #[trigger] words(t)[k][i],
            ),
    decreases t.len(),
{
    if t.len() == 0 {
    } else if text::is_white_space(t[0]) {
        let r = t.drop_first();
        assert forall|j: int| 0 <= j < r.len() implies #[trigger] r[j] == ' ' || alphanumeric(r[j]) by {
            assert(r[j] == t[j + 1]);
        }
        lemma_words_alphanumeric(r);
        assert(words(t) == words(r));
    } else {
        text::lemma_word_len_bound(t);
        let n = text::word_len(t) as int;
        let w = t.take(n);
        let r = t.skip(n);
        assert forall|j: int| 0 <= j < r.len() implies #[trigger] r[j] == ' ' || alphanumeric(r[j]) by {
            assert(r[j] == t[j + n]);
        }
        lemma_words_alphanumeric(r);
        assert(words(t) == seq![w] + words(r));
        assert forall|k: int, i: int|
            0 <= k < words(t).len() && 0 <= i < words(t)[k].len() implies alphanumeric(
                #[trigger] words(t)[k][i],
            ) by {
            if k == 0 {
                assert(w[i] == t[i]);
                assert(!text::is_white_space(t[i]));
                assert(t[i] == ' ' || alphanumeric(t[i]));
            } else {
                assert(words(t)[k] == words(r)[k - 1]);
            }
        }
    }
}

/// The words a text is compared by hold only alphanumeric characters: punctuation such
/// as the `=` of `name=value` separates words and never joins them.
pub proof fn lemma_tokens_alphanumeric(s: Seq<char>)
    ensures
        forall|k: int, i: int|
            0 <= k < tokens(s).len() && 0 <= i < tokens(s)[k].len() ==> alphanumeric(
                #[trigger] tokens(s)[k][i],
            ),
{
    lemma_normalized_chars(s);
    lemma_words_alphanumeric(normalized(s));
}

// ---------------------------------------------------------------------------
// Messages
// ---------------------------------------------------------------------------

/// The opening of the message shown when a rule blocks a module, up to its severity.
pub const BLOCK_OPENING: &'static str = "\n\u{274c} Installation Blocked\n\u{250c}\u{2500}\u{2500}\u{2500}\u{2500}\u{2500}\u{2500}\u{2500}\u{2500}\u{2500}\u{2500}\u{2500}\u{2500}\u{2500}\u{2500}\u{2500}\u{2500}\u{2500}\u{2500}\u{2500}\u{2500}\u{2500}\u{2500}\u{2500}\u{2500}\u{2500}\u{2500}\u{2500}\u{2500}\u{2500}\u{2500}\u{2500}\u{2500}\n\u{2502} Module flagged by a security rule\n\u{2502}\n\u{2502} Severity: ";

/// What stands between a message's severity and its reason.
pub const REASON_LABEL: &'static str = "\n\u{2502} Reason: ";

/// The close of the message shown when a rule blocks a module.
pub const BLOCK_CLOSING: &'static str = "\n\u{2514}\u{2500}\u{2500}\u{2500}\u{2500}\u{2500}\u{2500}\u{2500}\u{2500}\u{2500}\u{2500}\u{2500}\u{2500}\u{2500}\u{2500}\u{2500}\u{2500}\u{2500}\u{2500}\u{2500}\u{2500}\u{2500}\u{2500}\u{2500}\u{2500}\u{2500}\u{2500}\u{2500}\u{2500}\u{2500}\u{2500}\u{2500}\u{2500}\u{2500}\n";

/// The message shown when the confirmation of a flagged module timed out.
pub const TIMEOUT_BLOCK: &'static str = "\n\u{274c} Installation Blocked\n\u{250c}\u{2500}\u{2500}\u{2500}\u{2500}\u{2500}\u{2500}\u{2500}\u{2500}\u{2500}\u{2500}\u{2500}\u{2500}\u{2500}\u{2500}\u{2500}\u{2500}\u{2500}\u{2500}\u{2500}\u{2500}\u{2500}\u{2500}\u{2500}\u{2500}\u{2500}\u{2500}\u{2500}\u{2500}\u{2500}\u{2500}\u{2500}\u{2500}\n\u{2502} Permission confirmation timed out\n\u{2502} Module installation was not confirmed in time.\n\u{2514}\u{2500}\u{2500}\u{2500}\u{2500}\u{2500}\u{2500}\u{2500}\u{2500}\u{2500}\u{2500}\u{2500}\u{2500}\u{2500}\u{2500}\u{2500}\u{2500}\u{2500}\u{2500}\u{2500}\u{2500}\u{2500}\u{2500}\u{2500}\u{2500}\u{2500}\u{2500}\u{2500}\u{2500}\u{2500}\u{2500}\u{2500}\u{2500}\u{2500}\n";

/// The opening of the prompt shown when a rule pauses an installation, up to its severity.
pub const PAUSE_OPENING: &'static str = "\n\u{26a0}\u{fe0f}  Installation Paused\n\u{250c}\u{2500}\u{2500}\u{2500}\u{2500}\u{2500}\u{2500}\u{2500}\u{2500}\u{2500}\u{2500}\u{2500}\u{2500}\u{2500}\u{2500}\u{2500}\u{2500}\u{2500}\u{2500}\u{2500}\u{2500}\u{2500}\u{2500}\u{2500}\u{2500}\u{2500}\u{2500}\u{2500}\u{2500}\u{2500}\u{2500}\u{2500}\u{2500}\n\u{2502} Module flagged by a security rule\n\u{2502}\n\u{2502} Severity: ";

/// The close of the prompt shown when a rule pauses an installation.
pub const PAUSE_CLOSING: &'static str = "\n\u{2502}\n\u{2502} Press the volume-down key within 5 seconds to continue.\n\u{2514}\u{2500}\u{2500}\u{2500}\u{2500}\u{2500}\u{2500}\u{2500}\u{2500}\u{2500}\u{2500}\u{2500}\u{2500}\u{2500}\u{2500}\u{2500}\u{2500}\u{2500}\u{2500}\u{2500}\u{2500}\u{2500}\u{2500}\u{2500}\u{2500}\u{2500}\u{2500}\u{2500}\u{2500}\u{2500}\u{2500}\u{2500}\u{2500}\u{2500}\n";

/// The severity as the messages spell it.
pub open spec fn severity_label(s: RiskSeverity) -> Seq<char> {
    match s {
        RiskSeverity::Low => "Low"@,
        RiskSeverity::Medium => "Medium"@,
        RiskSeverity::High => "High"@,
        RiskSeverity::Extreme => "Extreme"@,
    }
}

/// The severity as the messages spell it.
pub fn severity_name(s: RiskSeverity) -> (r: &'static str)
    ensures
        r@ == severity_label(s),
{
    match s {
        RiskSeverity::Low => "Low",
        RiskSeverity::Medium => "Medium",
        RiskSeverity::High => "High",
        RiskSeverity::Extreme => "Extreme",
    }
}

/// The message shown when a rule blocks a module.
pub open spec fn block_message(severity: RiskSeverity, reason: Seq<char>) -> Seq<char> {
    BLOCK_OPENING@ + severity_label(severity) + REASON_LABEL@ + reason + BLOCK_CLOSING@
}

/// The prompt shown when a rule pauses an installation.
pub open spec fn pause_message(severity: RiskSeverity, reason: Seq<char>) -> Seq<char> {
    PAUSE_OPENING@ + severity_label(severity) + REASON_LABEL@ + reason + PAUSE_CLOSING@
}

/// The message shown when a rule blocks a module.
pub fn build_risk_block_message(severity: RiskSeverity, reason: &str) -> (r: String)
    ensures
        r@ == block_message(severity, reason@),
{
    let mut m = String::from_str(BLOCK_OPENING);
    m.append(severity_name(severity));
    m.append(REASON_LABEL);
    m.append(reason);
    m.append(BLOCK_CLOSING);
    m
}

/// The message shown when the confirmation of a flagged module timed out. It leaves
/// out the severity and reason, which were shown already.
pub fn build_risk_timeout_block_message() -> (r: String)
    ensures
        r@ == TIMEOUT_BLOCK@,
{
    String::from_str(TIMEOUT_BLOCK)
}

/// The prompt shown when a rule pauses an installation.
pub fn build_risk_pause_prompt_message(severity: RiskSeverity, reason: &str) -> (r: String)
    ensures
        r@ == pause_message(severity, reason@),
{
    let mut m = String::from_str(PAUSE_OPENING);
    m.append(severity_name(severity));
    m.append(REASON_LABEL);
    m.append(reason);
    m.append(PAUSE_CLOSING);
    m
}

} // verus!
