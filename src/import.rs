use vstd::prelude::*;

verus! {

#[verifier::external_type_specification]
#[verifier::external_body]
pub struct ExUnquoteError(enquote::Error);

/// The text that the quoted literal `s` stands for, or `None` where `s` is
/// not a well-formed quoted literal.
pub uninterp spec fn unquote_of(s: Seq<char>) -> Option<Seq<char>>;

/// Whether `c` opens a quoted literal.
pub open spec fn is_quote(c: char) -> bool {
    c == '"' || c == '\'' || c == '`'
}

/// Relies on enquote::unquote: it strips the quotes of a literal and undoes
/// its escapes. It fails on fewer than two characters, on a first character
/// that is not a quote, and on a last one that differs from the first.
#[verifier::external_body]
fn unquote(s: &str) -> (r: Result<String, enquote::Error>)
    ensures
        r is Ok <==> unquote_of(s@) is Some,
        r is Ok ==> unquote_of(s@) == Some(r->Ok_0@),
        s@.len() < 2 ==> r is Err,
        s@.len() >= 2 && !is_quote(s@[0]) ==> r is Err,
        s@.len() >= 2 && s@.last() != s@[0] ==> r is Err,
{
    enquote::unquote(s)
}

/// An import of another stylesheet, by path.
#[derive(Clone, Debug)]
pub struct Import {
    pub path: String,
}

/// A path literal of an import that is not a well-formed quoted literal.
#[derive(Clone, Debug)]
pub struct ImportError {
    pub literal: String,
}

impl Import {
    /// The import whose path is written, quoted, as `literal`.
    pub fn from_literal(literal: &str) -> (r: Result<Import, ImportError>)
        ensures
            r is Ok <==> unquote_of(literal@) is Some,
            r is Ok ==> unquote_of(literal@) == Some(r->Ok_0.path@),
            r is Err ==> r->Err_0.literal@ == literal@,
            literal@.len() < 2 ==> r is Err,
            literal@.len() >= 2 && !is_quote(literal@[0]) ==> r is Err,
            literal@.len() >= 2 && literal@.last() != literal@[0] ==> r is Err,
    {
        match unquote(literal) {
            Ok(path) => Ok(Import { path }),
            Err(_) => Err(ImportError { literal: literal.to_owned() }),
        }
    }

    /// The imported path.
    pub fn as_path(&self) -> (r: &str)
        ensures
            r@ == self.path@,
    {
        self.path.as_str()
    }
}

} // verus!
