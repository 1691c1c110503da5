//! Turning a user-supplied token into application endpoints: direct bus
//! names, the registry default, and a scan of live applications by name with
//! confirmation of any match that is not exact.
use crate::endpoint::{is_bus_name, Endpoint, REGISTRY_DEST};
use vstd::prelude::*;

verus! {

/// What `str::to_lowercase` makes of a text.
pub uninterp spec fn lower_of(s: Seq<char>) -> Seq<char>;

/// What `str::trim` makes of a text.
pub uninterp spec fn trim_of(s: Seq<char>) -> Seq<char>;

/// Relies on `str::to_lowercase`: the result depends on the characters alone.
#[verifier::external_body]
fn lowercase(s: &str) -> (r: String)
    ensures
        r@ == lower_of(s@),
{
    s.to_lowercase()
}

/// Relies on `str::trim`: the result depends on the characters alone.
#[verifier::external_body]
fn trim_text(s: &str) -> (r: &str)
    ensures
        r@ == trim_of(s@),
{
    s.trim()
}

/// `n` occurs in `h` as a contiguous run of characters.
pub open spec fn has_substring(h: Seq<char>, n: Seq<char>) -> bool {
    exists|i: int| 0 <= i && i + n.len() <= h.len() && #[trigger] h.subrange(i, i + n.len()) == n
}

/// Relies on `str::contains` with a `&str` pattern: true when the pattern
/// matches a sub-slice of the text.
#[verifier::external_body]
fn contains_text(h: &str, n: &str) -> (r: bool)
    ensures
        r == has_substring(h@, n@),
{
    h.contains(n)
}

/// How an application's name relates to the sought name.
#[derive(Debug, Clone, Copy, PartialEq, Eq)]
pub enum MatchTier {
    Exact,
    CaseInsensitive,
    Partial,
    NoMatch,
}

/// The tier of `name` against `sought`, given both names in lower case.
pub open spec fn tier_of(
    name: Seq<char>,
    sought: Seq<char>,
    name_lower: Seq<char>,
    sought_lower: Seq<char>,
) -> MatchTier {
    if name == sought {
        MatchTier::Exact
    } else if name_lower == sought_lower {
        MatchTier::CaseInsensitive
    } else if has_substring(name_lower, sought_lower) {
        MatchTier::Partial
    } else {
        MatchTier::NoMatch
    }
}

/// The tier of `name` against `sought`.
pub open spec fn tier(name: Seq<char>, sought: Seq<char>) -> MatchTier {
    tier_of(name, sought, lower_of(name), lower_of(sought))
}

/// Classifies `name` against `sought`, given both in lower case as well.
pub fn classify_folded(
    name: &String,
    sought: &String,
    name_lower: &String,
    sought_lower: &String,
) -> (r: MatchTier)
    ensures
        r == tier_of(name@, sought@, name_lower@, sought_lower@),
{
    if *name == *sought {
        MatchTier::Exact
    } else if *name_lower == *sought_lower {
        MatchTier::CaseInsensitive
    } else if contains_text(name_lower.as_str(), sought_lower.as_str()) {
        MatchTier::Partial
    } else {
        MatchTier::NoMatch
    }
}

/// Classifies `name` against `sought`: exact, equal ignoring case, contained
/// ignoring case, or no match.
pub fn classify(name: &String, sought: &String) -> (r: MatchTier)
    ensures
        r == tier(name@, sought@),
{
    let name_lower = lowercase(name.as_str());
    let sought_lower = lowercase(sought.as_str());
    classify_folded(name, sought, &name_lower, &sought_lower)
}

/// Why a token could not be resolved.
#[derive(Debug, Clone, PartialEq, Eq)]
pub enum ResolveError {
    /// The answer to a confirmation was neither yes nor no.
    InvalidAnswer(String),
    /// No live application matched the sought name.
    NoApplication(String),
}

/// What a normalized answer means: `Some(true)` for yes or an empty line,
/// `Some(false)` for no, `None` for anything else.
pub open spec fn answer_spec(a: Seq<char>) -> Option<bool> {
    if a == seq!['y'] || a == seq!['y', 'e', 's'] || a.len() == 0 {
        Some(true)
    } else if a == seq!['n'] || a == seq!['n', 'o'] {
        Some(false)
    } else {
        None
    }
}

fn text_is(s: &String, w: &str) -> (r: bool)
    ensures
        r == (s@ == w@),
{
    let w = String::from_str(w);
    *s == w
}

/// Reads a trimmed, lower-cased answer.
pub fn answer_of(normalized: &String) -> (r: Result<bool, ResolveError>)
    ensures
        answer_spec(normalized@) matches Some(b) ==> r == Ok::<bool, ResolveError>(b),
        answer_spec(normalized@) is None ==> r == Err::<bool, ResolveError>(
            ResolveError::InvalidAnswer(*normalized),
        ),
{
    proof {
        reveal_strlit("y");
        reveal_strlit("yes");
        reveal_strlit("n");
        reveal_strlit("no");
        assert("y"@ =~= seq!['y']);
        assert("yes"@ =~= seq!['y', 'e', 's']);
        assert("n"@ =~= seq!['n']);
        assert("no"@ =~= seq!['n', 'o']);
    }
    if text_is(normalized, "y") || text_is(normalized, "yes") || normalized.as_str().is_empty() {
        Ok(true)
    } else if text_is(normalized, "n") || text_is(normalized, "no") {
        Ok(false)
    } else {
        Err(ResolveError::InvalidAnswer(normalized.clone()))
    }
}

/// The normalized form of a typed answer: trimmed, then lower-cased.
pub open spec fn normalized_answer(line: Seq<char>) -> Seq<char> {
    lower_of(trim_of(line))
}

/// Reads a yes/no answer as typed.
pub fn parse_yn_response(line: &str) -> (r: Result<bool, ResolveError>)
    ensures
        answer_spec(normalized_answer(line@)) matches Some(b) ==> r == Ok::<bool, ResolveError>(b),
        answer_spec(normalized_answer(line@)) is None ==> (r matches Err(
            ResolveError::InvalidAnswer(a),
        ) && a@ == normalized_answer(line@)),
{
    let trimmed = trim_text(line);
    let normalized = lowercase(trimmed);
    answer_of(&normalized)
}

/// One live application accepted for the sought name.
#[derive(Debug, Clone, PartialEq, Eq)]
pub struct Candidate {
    pub name: String,
    pub endpoint: Endpoint,
}

/// What became of an application offered to a scan.
#[derive(Debug, Clone, PartialEq, Eq)]
pub enum Offer {
    /// An exact match, accepted without asking.
    Accepted,
    /// No match.
    Skipped,
    /// A match that is not exact: the user must confirm it.
    Ask(MatchTier, Candidate),
}

/// A scan of live applications for one sought name.
pub struct Scan {
    sought: String,
    found: Vec<Candidate>,
}

impl Scan {
    pub closed spec fn sought(&self) -> Seq<char> {
        self.sought@
    }

    /// The applications accepted so far, in scan order.
    pub closed spec fn matches(&self) -> Seq<Candidate> {
        self.found@
    }

    pub fn new(sought: String) -> (s: Scan)
        ensures
            s.sought() == sought@,
            s.matches() == Seq::<Candidate>::empty(),
    {
        Scan { sought, found: Vec::new() }
    }

    /// The sought name.
    pub fn sought_name(&self) -> (r: &String)
        ensures
            r@ == self.sought(),
    {
        &self.sought
    }

    /// Offers the application `endpoint`, whose display name is `name`: an
    /// exact match is accepted, a match that is not exact is handed back to
    /// be confirmed, anything else is skipped.
    pub fn offer(&mut self, name: String, endpoint: Endpoint) -> (o: Offer)
        ensures
            final(self).sought() == old(self).sought(),
            tier(name@, old(self).sought()) == MatchTier::Exact ==> o == Offer::Accepted
                && final(self).matches() == old(self).matches().push(
                (Candidate { name, endpoint }),
            ),
            tier(name@, old(self).sought()) == MatchTier::NoMatch ==> o == Offer::Skipped
                && final(self).matches() == old(self).matches(),
            tier(name@, old(self).sought()) == MatchTier::CaseInsensitive || tier(
                name@,
                old(self).sought(),
            ) == MatchTier::Partial ==> o == Offer::Ask(
                tier(name@, old(self).sought()),
                (Candidate { name, endpoint }),
            ) && final(self).matches() == old(self).matches(),
    {
        let t = classify(&name, &self.sought);
        match t {
            MatchTier::Exact => {
                self.found.push(Candidate { name, endpoint });
                Offer::Accepted
            },
            MatchTier::NoMatch => Offer::Skipped,
            _ => Offer::Ask(t, Candidate { name, endpoint }),
        }
    }

    /// Settles a match that is not exact with the user's typed answer: yes
    /// accepts `candidate`, no skips it, anything else is an error.
    pub fn confirm(&mut self, candidate: Candidate, answer: &str) -> (r: Result<(), ResolveError>)
        ensures
            final(self).sought() == old(self).sought(),
            answer_spec(normalized_answer(answer@)) == Some(true) ==> r is Ok
                && final(self).matches() == old(self).matches().push(candidate),
            answer_spec(normalized_answer(answer@)) == Some(false) ==> r is Ok
                && final(self).matches() == old(self).matches(),
            answer_spec(normalized_answer(answer@)) is None ==> (r matches Err(
                ResolveError::InvalidAnswer(a),
            ) && a@ == normalized_answer(answer@)) && final(self).matches() == old(
                self,
            ).matches(),
    {
        let yes = parse_yn_response(answer)?;
        if yes {
            self.found.push(candidate);
        }
        Ok(())
    }

    /// Ends the scan: the accepted applications, or an error if there are none.
    pub fn finish(self) -> (r: Result<Vec<Candidate>, ResolveError>)
        ensures
            self.matches().len() == 0 ==> (r matches Err(ResolveError::NoApplication(q))
                && q@ == self.sought()),
            self.matches().len() > 0 ==> (r matches Ok(v) && v@ == self.matches()),
    {
        if self.found.len() == 0 {
            Err(ResolveError::NoApplication(self.sought))
        } else {
            Ok(self.found)
        }
    }
}

/// The order in which a scan considers applications: the registry lists
/// them oldest first, and the most recently registered is considered first.
pub fn registration_order<T>(apps: Vec<T>) -> (r: Vec<T>)
    ensures
        r@ == apps@.reverse(),
{
    let mut rest = apps;
    let mut out: Vec<T> = Vec::new();
    let ghost all = rest@;
    while rest.len() > 0
        invariant
            all == apps@,
            rest@ == all.take(rest@.len() as int),
            out@.len() + rest@.len() == all.len(),
            forall|i: int| 0 <= i < out@.len() ==> out@[i] == all[all.len() - 1 - i],
        decreases rest.len(),
    {
        let x = rest.pop().unwrap();
        out.push(x);
    }
    assert(out@ =~= all.reverse());
    out
}

/// What a token resolves to without a scan.
pub enum Resolution {
    /// The token names its endpoints directly.
    Resolved(Vec<Candidate>),
    /// The token is an application name: scan the live applications for it.
    Search(Scan),
}

/// Resolves a token: the empty token means the registry, a valid bus name
/// stands for itself, and anything else starts a scan by application name.
pub fn parse_bus_name(name: String) -> (r: Resolution)
    ensures
        name@.len() == 0 ==> (r matches Resolution::Resolved(v) && v@.len() == 1
            && v@[0].name@ == REGISTRY_DEST@ && v@[0].endpoint@ == REGISTRY_DEST@),
        name@.len() > 0 && is_bus_name(name@) ==> (r matches Resolution::Resolved(v)
            && v@.len() == 1 && v@[0].name@ == name@ && v@[0].endpoint@ == name@),
        name@.len() > 0 && !is_bus_name(name@) ==> (r matches Resolution::Search(s)
            && s.sought() == name@ && s.matches().len() == 0),
{
    if name.as_str().is_empty() {
        let endpoint = Endpoint::registry();
        let mut v: Vec<Candidate> = Vec::new();
        v.push(Candidate { name: String::from_str(REGISTRY_DEST), endpoint });
        return Resolution::Resolved(v);
    }
    match Endpoint::parse(name.as_str()) {
        Some(endpoint) => {
            let mut v: Vec<Candidate> = Vec::new();
            v.push(Candidate { name, endpoint });
            Resolution::Resolved(v)
        },
        None => Resolution::Search(Scan::new(name)),
    }
}

} // verus!
