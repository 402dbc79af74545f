//! The directory loader's logic: which entries are attempted, and the
//! account it keeps of what was published and what was skipped.
use vstd::prelude::*;

verus! {

/// Whether the regular expression `pattern` compiles.
pub uninterp spec fn regex_compiles(pattern: Seq<char>) -> bool;

/// Whether the regular expression `pattern` matches somewhere in `text`.
pub uninterp spec fn regex_accepts(pattern: Seq<char>, text: Seq<char>) -> bool;

#[verifier::external_type_specification]
#[verifier::external_body]
pub struct ExRegex(regex::Regex);

#[verifier::external_type_specification]
#[verifier::external_body]
pub struct ExRegexError(regex::Error);

/// A filter on file paths: a regular expression, kept with its source.
pub struct NameFilter {
    pattern: String,
    regex: regex::Regex,
}

/// A filter pattern that does not compile, with the reason.
pub struct InvalidFilter {
    pub pattern: String,
    pub error: regex::Error,
}

/// Relies on `regex::Regex::new`, which fails exactly on patterns that do
/// not compile; the filter keeps the pattern it was compiled from.
#[verifier::external_body]
fn compile_filter(pattern: &str) -> (r: Result<NameFilter, regex::Error>)
    ensures
        r is Ok <==> regex_compiles(pattern@),
        r matches Ok(f) ==> f@ == pattern@,
{
    match regex::Regex::new(pattern) {
        Ok(regex) => Ok(NameFilter { pattern: pattern.to_string(), regex }),
        Err(e) => Err(e),
    }
}

/// Relies on `regex::Regex::is_match` on the regex that the filter compiled
/// from its pattern.
#[verifier::external_body]
fn filter_is_match(filter: &NameFilter, text: &str) -> (r: bool)
    ensures
        r == regex_accepts(filter@, text@),
{
    filter.regex.is_match(text)
}

impl View for NameFilter {
    type V = Seq<char>;

    /// The pattern the filter was compiled from.
    closed spec fn view(&self) -> Seq<char> {
        self.pattern@
    }
}

impl NameFilter {
    /// Compiles `pattern` into a filter.
    pub fn new(pattern: &str) -> (r: Result<NameFilter, InvalidFilter>)
        ensures
            r is Ok <==> regex_compiles(pattern@),
            r matches Ok(f) ==> f@ == pattern@,
            r matches Err(e) ==> e.pattern@ == pattern@,
    {
        match compile_filter(pattern) {
            Ok(f) => Ok(f),
            Err(error) => Err(InvalidFilter { pattern: pattern.to_owned(), error }),
        }
    }

    /// The pattern the filter was compiled from.
    pub fn as_str(&self) -> (r: &str)
        ensures
            r@ == self@,
    {
        self.pattern.as_str()
    }

    /// Whether the filter matches somewhere in `text`.
    pub fn is_match(&self, text: &str) -> (r: bool)
        ensures
            r == regex_accepts(self@, text@),
    {
        filter_is_match(self, text)
    }
}

/// The paths of `paths` that `pattern` matches, in their original order.
pub open spec fn selected(paths: Seq<String>, pattern: Seq<char>) -> Seq<String> {
    paths.filter(|p: String| regex_accepts(pattern, p@))
}

/// Keeps the paths that the filter matches, in their original order.
pub fn select_paths(paths: Vec<String>, filter: &NameFilter) -> (r: Vec<String>)
    ensures
        r@ == selected(paths@, filter@),
{
    let mut r: Vec<String> = Vec::new();
    let mut i: usize = 0;
    while i < paths.len()
        invariant
            i <= paths@.len(),
            r@ == selected(paths@.subrange(0, i as int), filter@),
        decreases paths@.len() - i,
    {
        let keep = filter.is_match(paths[i].as_str());
        proof {
            let pred = |p: String| regex_accepts(filter@, p@);
            assert(paths@.subrange(0, i + 1).drop_last() =~= paths@.subrange(0, i as int));
            reveal(Seq::filter);
            assert(paths@.subrange(0, i + 1).filter(pred) == if pred(paths@[i as int]) {
                paths@.subrange(0, i as int).filter(pred).push(paths@[i as int])
            } else {
                paths@.subrange(0, i as int).filter(pred)
            });
        }
        if keep {
            r.push(paths[i].clone());
        }
        i = i + 1;
    }
    assert(paths@.subrange(0, paths@.len() as int) =~= paths@);
    r
}

/// What became of one attempted file.
#[derive(Clone, Copy, Debug, PartialEq, Eq, Structural)]
pub enum LoadOutcome {
    /// Decoded, and handed to the workers.
    Published,
    /// Not decodable as an image; logged and skipped.
    DecodeFailed,
    /// Decoded, but every worker has gone: loading stops.
    Disconnected,
}

/// The loader's account of a run.
#[derive(Clone, Copy, Debug, PartialEq, Eq, Structural)]
pub struct LoadTally {
    pub published: usize,
    pub skipped: usize,
    pub stopped: bool,
}

/// The account after one more outcome; once stopped, nothing changes.
pub open spec fn tally_step(t: LoadTally, outcome: LoadOutcome) -> LoadTally {
    if t.stopped {
        t
    } else {
        match outcome {
            LoadOutcome::Published => LoadTally { published: (t.published + 1) as usize, ..t },
            LoadOutcome::DecodeFailed => LoadTally { skipped: (t.skipped + 1) as usize, ..t },
            LoadOutcome::Disconnected => LoadTally { stopped: true, ..t },
        }
    }
}

/// The account after a run of outcomes from an empty one.
pub open spec fn tally_of(outcomes: Seq<LoadOutcome>) -> LoadTally
    decreases outcomes.len(),
{
    if outcomes.len() == 0 {
        LoadTally { published: 0, skipped: 0, stopped: false }
    } else {
        tally_step(tally_of(outcomes.drop_last()), outcomes.last())
    }
}

/// How many of `outcomes` are `o`.
pub open spec fn occurrences(outcomes: Seq<LoadOutcome>, o: LoadOutcome) -> nat {
    outcomes.filter(|x: LoadOutcome| x == o).len()
}

impl LoadTally {
    /// The account of a run that has not begun.
    pub fn new() -> (r: LoadTally)
        ensures
            r == tally_of(Seq::empty()),
    {
        LoadTally { published: 0, skipped: 0, stopped: false }
    }

    /// Records one outcome; returns whether loading goes on.
    pub fn record(&mut self, outcome: LoadOutcome) -> (go_on: bool)
        requires
            old(self).published < usize::MAX,
            old(self).skipped < usize::MAX,
        ensures
            *final(self) == tally_step(*old(self), outcome),
            go_on == !final(self).stopped,
    {
        if !self.stopped {
            match outcome {
                LoadOutcome::Published => self.published = self.published + 1,
                LoadOutcome::DecodeFailed => self.skipped = self.skipped + 1,
                LoadOutcome::Disconnected => self.stopped = true,
            }
        }
        !self.stopped
    }
}

/// A run in which every worker stays connected publishes each decoded file
/// and skips each undecodable one, exactly once.
pub proof fn lemma_load_counts(outcomes: Seq<LoadOutcome>)
    requires
        !outcomes.contains(LoadOutcome::Disconnected),
        outcomes.len() < usize::MAX,
    ensures
        tally_of(outcomes).published == occurrences(outcomes, LoadOutcome::Published),
        tally_of(outcomes).skipped == occurrences(outcomes, LoadOutcome::DecodeFailed),
        !tally_of(outcomes).stopped,
    decreases outcomes.len(),
{
    reveal(Seq::filter);
    if outcomes.len() > 0 {
        let rest = outcomes.drop_last();
        assert forall|x: LoadOutcome| rest.contains(x) implies outcomes.contains(x) by {
            let k = choose|k: int| 0 <= k < rest.len() && rest[k] == x;
            assert(outcomes[k] == x);
        }
        assert(outcomes[outcomes.len() - 1] == outcomes.last());
        lemma_load_counts(rest);
        rest.lemma_filter_len(|x: LoadOutcome| x == LoadOutcome::Published);
        rest.lemma_filter_len(|x: LoadOutcome| x == LoadOutcome::DecodeFailed);
    }
}

} // verus!
