//! Glob patterns over service names, matched by the `glob` crate.

use vstd::prelude::*;

verus! {

/// `glob::Pattern`, a compiled pattern. The proofs see nothing inside it.
#[verifier::external_type_specification]
#[verifier::external_body]
pub struct ExPattern(glob::Pattern);

/// `glob::PatternError`, glob's account of an invalid pattern. The proofs see
/// nothing inside it.
#[verifier::external_type_specification]
#[verifier::external_body]
pub struct ExPatternError(glob::PatternError);

/// Whether `glob::Pattern::new` accepts the text as a pattern.
pub uninterp spec fn glob_valid(pattern: Seq<char>) -> bool;

/// Whether the pattern compiled from `pattern` matches `name` under glob's
/// default options: what `glob::Pattern::matches` returns. Glob asks the
/// platform which characters separate path components, so this is the
/// answer on the platform that the crate is built for; the platforms differ
/// only where a pattern or a name holds a backslash.
pub uninterp spec fn glob_matches(pattern: Seq<char>, name: Seq<char>) -> bool;

/// The text that a compiled pattern was compiled from: what
/// `glob::Pattern::as_str` returns.
pub uninterp spec fn pattern_text(p: glob::Pattern) -> Seq<char>;

/// `glob::Pattern::new`. It succeeds exactly on the texts that are valid
/// patterns, and the compiled pattern remembers its text.
#[verifier::external_body]
fn compile(pattern: &str) -> (r: Result<glob::Pattern, glob::PatternError>)
    ensures
        r is Ok == glob_valid(pattern@),
        r is Ok ==> pattern_text(r->Ok_0) == pattern@,
{
    glob::Pattern::new(pattern)
}

/// `glob::Pattern::matches`: matching with the default options (case
/// sensitive, `*` and `?` may match a separator, a leading dot is not
/// special). The result is decided by the pattern's text and the name.
#[verifier::external_body]
fn compiled_matches(p: &glob::Pattern, name: &str) -> (m: bool)
    ensures
        m == glob_matches(pattern_text(*p), name@),
{
    p.matches(name)
}

/// A glob pattern over service names, such as `SENSOR/*/TEMP`.
///
/// `?` matches one character, `*` any run of characters, `[...]` one
/// character of a class. Its view is the pattern's text.
#[derive(Debug)]
pub struct ServicePattern {
    pattern: glob::Pattern,
    raw: String,
}

impl View for ServicePattern {
    type V = Seq<char>;

    closed spec fn view(&self) -> Seq<char> {
        self.raw@
    }
}

impl ServicePattern {
    #[verifier::type_invariant]
    spec fn compiled_from_raw(self) -> bool {
        pattern_text(self.pattern) == self.raw@ && glob_valid(self.raw@)
    }

    /// Compiles a pattern. Fails, with glob's error, exactly where the text
    /// is no valid pattern.
    pub fn new(pattern: &str) -> (r: Result<ServicePattern, glob::PatternError>)
        ensures
            r is Ok == glob_valid(pattern@),
            r is Ok ==> r->Ok_0@ == pattern@,
    {
        match compile(pattern) {
            Ok(compiled) => Ok(ServicePattern { pattern: compiled, raw: pattern.to_owned() }),
            Err(e) => Err(e),
        }
    }

    /// Whether the pattern matches a service name.
    pub fn matches(&self, service_name: &str) -> (r: bool)
        ensures
            r == glob_matches(self@, service_name@),
    {
        proof {
            use_type_invariant(self);
        }
        compiled_matches(&self.pattern, service_name)
    }

    /// The text of the pattern.
    pub fn pattern_str(&self) -> (r: &str)
        ensures
            r@ == self@,
    {
        self.raw.as_str()
    }
}

} // verus!
