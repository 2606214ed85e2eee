use vstd::prelude::*;

verus! {

#[verifier::external_type_specification]
#[verifier::external_body]
pub struct ExRegex(regex::Regex);

#[verifier::external_type_specification]
#[verifier::external_body]
pub struct ExRegexError(regex::Error);

/// Whether `pattern` is a regular expression that compiles.
pub uninterp spec fn regex_compiles(pattern: Seq<char>) -> bool;

/// Whether the compiled `pattern` finds a match anywhere in `text`.
pub uninterp spec fn regex_is_match(pattern: Seq<char>, text: Seq<char>) -> bool;

/// Whether the leaf text `text` matches the regular expression `pattern`:
/// a pattern that does not compile matches nothing.
pub open spec fn pattern_matches(pattern: Seq<char>, text: Seq<char>) -> bool {
    regex_compiles(pattern) && regex_is_match(pattern, text)
}

/// A regular expression together with the source text it was compiled from.
/// Its fields are set together, by `compile_pattern` alone.
pub struct CompiledPattern {
    source: String,
    regex: regex::Regex,
}

impl CompiledPattern {
    pub closed spec fn source_view(&self) -> Seq<char> {
        self.source@
    }

    /// Relies on regex::Regex::is_match: whether the regex compiled from
    /// this pattern's source matches somewhere in `text`.
    #[verifier::external_body]
    fn is_match(&self, text: &str) -> (r: bool)
        ensures
            r == regex_is_match(self.source_view(), text@),
    {
        self.regex.is_match(text)
    }

    /// The source text this pattern was compiled from.
    fn source(&self) -> (r: &str)
        ensures
            r@ == self.source_view(),
    {
        self.source.as_str()
    }
}

/// Relies on regex::Regex::new: it succeeds exactly on the patterns that
/// compile, and the regex it builds is kept beside the pattern's text.
#[verifier::external_body]
fn compile_pattern(pattern: &str) -> (r: Result<CompiledPattern, regex::Error>)
    ensures
        r is Ok <==> regex_compiles(pattern@),
        r is Ok ==> r->Ok_0.source_view() == pattern@,
{
    match regex::Regex::new(pattern) {
        Ok(regex) => Ok(CompiledPattern { source: pattern.to_string(), regex }),
        Err(e) => Err(e),
    }
}

/// A pattern that failed to compile.
#[derive(Debug)]
pub struct PatternError {
    pub pattern: String,
}

/// Compiles `pattern`, or names it in the error when it does not compile.
fn compile(pattern: &str) -> (r: Result<CompiledPattern, PatternError>)
    ensures
        r is Ok <==> regex_compiles(pattern@),
        r is Ok ==> r->Ok_0.source_view() == pattern@,
        r is Err ==> r->Err_0.pattern@ == pattern@,
{
    match compile_pattern(pattern) {
        Ok(c) => Ok(c),
        Err(_) => Err(PatternError { pattern: pattern.to_owned() }),
    }
}

/// A memo of compiled patterns, keyed by their source text: each pattern is
/// compiled on its first use and found again afterwards.
pub struct RegexCache {
    entries: Vec<CompiledPattern>,
}

impl RegexCache {
    /// The sources of the compiled patterns held, in the order they came.
    pub closed spec fn view(&self) -> Seq<Seq<char>> {
        self.entries@.map_values(|c: CompiledPattern| c.source_view())
    }

    /// No pattern is held twice, and each one held compiles.
    pub open spec fn wf(&self) -> bool {
        &&& self@.no_duplicates()
        &&& forall|i: int| 0 <= i < self@.len() ==> regex_compiles(#[trigger] self@[i])
    }

    pub fn new() -> (r: RegexCache)
        ensures
            r@ == Seq::<Seq<char>>::empty(),
            r.wf(),
    {
        RegexCache { entries: Vec::new() }
    }

    pub fn len(&self) -> (r: usize)
        ensures
            r == self@.len(),
    {
        self.entries.len()
    }

    /// The slot that holds `pattern`, if any.
    fn find(&self, pattern: &str) -> (r: Option<usize>)
        ensures
            r is Some ==> r->0 < self@.len() && self@[r->0 as int] == pattern@,
            r is None ==> !self@.contains(pattern@),
    {
        let key = pattern.to_owned();
        let mut i: usize = 0;
        while i < self.entries.len()
            invariant
                i <= self.entries@.len(),
                key@ == pattern@,
                forall|j: int| 0 <= j < i ==> self@[j] != pattern@,
            decreases self.entries@.len() - i,
        {
            let s = self.entries[i].source();
            if s.to_owned() == key {
                return Some(i);
            }
            i = i + 1;
        }
        None
    }

    /// Whether a compiled form of `pattern` is held.
    pub fn contains(&self, pattern: &str) -> (r: bool)
        ensures
            r == self@.contains(pattern@),
    {
        self.find(pattern).is_some()
    }

    /// Compiles `pattern` unless it is held already, and tells whether
    /// `text` matches it. A held pattern leaves the cache as it was; a new
    /// one that compiles is added once, at the end; one that does not
    /// compile is not held, and its error is returned.
    pub fn is_match(&mut self, pattern: &str, text: &str) -> (r: Result<bool, PatternError>)
        requires
            old(self).wf(),
        ensures
            final(self).wf(),
            r is Ok <==> regex_compiles(pattern@),
            r is Ok ==> r->Ok_0 == regex_is_match(pattern@, text@),
            r is Err ==> r->Err_0.pattern@ == pattern@,
            old(self)@.contains(pattern@) ==> final(self)@ == old(self)@,
            !old(self)@.contains(pattern@) && regex_compiles(pattern@) ==> final(self)@ == old(
                self,
            )@.push(pattern@),
            !regex_compiles(pattern@) ==> final(self)@ == old(self)@,
            final(self)@.contains(pattern@) <==> regex_compiles(pattern@),
    {
        match self.find(pattern) {
            Some(i) => {
                proof {
                    assert(self@[i as int] == self.entries@[i as int].source_view());
                }
                Ok(self.entries[i].is_match(text))
            },
            None => match compile(pattern) {
                Ok(c) => {
                    let m = c.is_match(text);
                    let ghost before = self@;
                    self.entries.push(c);
                    proof {
                        assert(self@ =~= before.push(pattern@));
                        assert(self@.last() == pattern@);
                    }
                    Ok(m)
                },
                Err(e) => Err(e),
            },
        }
    }

    /// Whether `text` matches `pattern`, compiling it through this cache;
    /// a pattern that does not compile matches nothing.
    pub fn matches(&mut self, pattern: &str, text: &str) -> (r: bool)
        requires
            old(self).wf(),
        ensures
            final(self).wf(),
            r == pattern_matches(pattern@, text@),
    {
        match self.is_match(pattern, text) {
            Ok(b) => b,
            Err(_) => false,
        }
    }
}

} // verus!
