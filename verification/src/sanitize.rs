//! Removal of disallowed characters from free-text fields.

use regex::Regex;
use vstd::prelude::*;

verus! {

/// `regex::Regex`, a compiled regular expression: carried through as it is,
/// nothing inside it is looked at.
#[verifier::external_type_specification]
#[verifier::external_body]
pub struct ExRegex(Regex);

/// `regex::Error`, the reason why a pattern did not compile: carried
/// through as it is.
#[verifier::external_type_specification]
#[verifier::external_body]
pub struct ExRegexError(regex::Error);

/// Whether `c` has the Unicode `White_Space` property.
pub open spec fn is_space(c: char) -> bool {
    ||| '\t' <= c <= '\r'
    ||| c == ' '
    ||| c == '\u{85}'
    ||| c == '\u{a0}'
    ||| c == '\u{1680}'
    ||| '\u{2000}' <= c <= '\u{200a}'
    ||| '\u{2028}' <= c <= '\u{2029}'
    ||| c == '\u{202f}'
    ||| c == '\u{205f}'
    ||| c == '\u{3000}'
}

/// Whether `c` is an ASCII letter, an ASCII digit or an underscore.
pub open spec fn is_word(c: char) -> bool {
    ||| 'a' <= c <= 'z'
    ||| 'A' <= c <= 'Z'
    ||| '0' <= c <= '9'
    ||| c == '_'
}

/// The characters that survive cleaning: word characters, whitespace,
/// hyphens and apostrophes.
pub open spec fn is_permitted(c: char) -> bool {
    is_word(c) || is_space(c) || c == '-' || c == '\''
}

/// `text` with every character that is not permitted removed, the rest in
/// the order in which they stood.
pub open spec fn strip(text: Seq<char>) -> Seq<char> {
    text.filter(|c: char| is_permitted(c))
}

/// Whether `Regex::new` accepts `pattern`: whether the pattern is well
/// formed and the regex made of it stays within the size limit that
/// `Regex::new` sets.
pub uninterp spec fn regex_compiles(pattern: Seq<char>) -> bool;

/// The pattern of a regex that is as `Regex::new` makes it of that pattern,
/// with the options that `Regex::new` sets. `None` for a regex that was made
/// with other options: the text of its pattern alone does not say how it
/// matches.
pub uninterp spec fn compiled_from(re: Regex) -> Option<Seq<char>>;

/// The text of the pattern that matches exactly one character that is not
/// permitted.
pub open spec fn disallowed_pattern() -> Seq<char> {
    "[^A-Za-z0-9_\\s\\-']"@
}

/// The pattern as text to compile.
fn pattern_text() -> (text: &'static str)
    ensures
        text@ == disallowed_pattern(),
{
    "[^A-Za-z0-9_\\s\\-']"
}

/// `Regex::new`: compiles `pattern` with the options that are set from the
/// start. The pattern alone decides whether a regex comes back, and one
/// that does is the regex of that pattern under those options.
#[verifier::external_body]
fn compile(pattern: &str) -> (r: Result<Regex, regex::Error>)
    ensures
        r is Ok <==> regex_compiles(pattern@),
        r matches Ok(re) ==> compiled_from(re) == Some(pattern@),
{
    Regex::new(pattern)
}

/// `Regex::replace_all` for a regex that `Regex::new` made of the
/// disallowed-character pattern, and an empty replacement: every match is a
/// single character outside the permitted set and is cut out, so what
/// remains is the permitted characters of `text` in order. Nothing is said of
/// a regex of the same pattern text that was made with other options, such
/// as one that ignores case.
#[verifier::external_body]
fn replace_all(re: &Regex, text: &str, rep: &str) -> (out: String)
    requires
        compiled_from(*re) == Some(disallowed_pattern()),
        rep@.len() == 0,
    ensures
        out@ == strip(text@),
{
    re.replace_all(text, rep).into_owned()
}

/// A compiled cleaner for item and mob display names.
pub struct Sanitizer {
    re: Regex,
}

impl Sanitizer {
    /// The regex is the one that `Regex::new` makes of the
    /// disallowed-character pattern.
    #[verifier::type_invariant]
    spec fn well_formed(&self) -> bool {
        compiled_from(self.re) == Some(disallowed_pattern())
    }

    /// Compiles the disallowed-character pattern. There is a sanitizer
    /// exactly if the regex engine accepts the pattern.
    pub fn new() -> (r: Option<Sanitizer>)
        ensures
            r is Some <==> regex_compiles(disallowed_pattern()),
    {
        match compile(pattern_text()) {
            Ok(re) => Some(Sanitizer { re }),
            Err(_) => None,
        }
    }

    /// Removes every character that is not permitted from `text`.
    pub fn sanitize(&self, text: &str) -> (out: String)
        ensures
            out@ == strip(text@),
    {
        proof {
            use_type_invariant(self);
            reveal_strlit("");
        }
        replace_all(&self.re, text, "")
    }
}

/// Cleaned text holds permitted characters only.
pub proof fn lemma_strip_only_permitted(text: Seq<char>)
    ensures
        forall|i: int| 0 <= i < strip(text).len() ==> is_permitted(#[trigger] strip(text)[i]),
{
    let keep = |c: char| is_permitted(c);
    assert forall|i: int| 0 <= i < strip(text).len() implies is_permitted(
        #[trigger] strip(text)[i],
    ) by {
        text.lemma_filter_pred(keep, i);
    }
}

/// Text that holds permitted characters only is left as it is.
pub proof fn lemma_strip_keeps_permitted(text: Seq<char>)
    requires
        forall|i: int| 0 <= i < text.len() ==> is_permitted(#[trigger] text[i]),
    ensures
        strip(text) == text,
    decreases text.len(),
{
    let keep = |c: char| is_permitted(c);
    reveal(Seq::filter);
    if text.len() > 0 {
        let front = text.drop_last();
        assert forall|i: int| 0 <= i < front.len() implies is_permitted(#[trigger] front[i]) by {
            assert(front[i] == text[i]);
        }
        lemma_strip_keeps_permitted(front);
        assert(keep(text.last()));
        assert(front.push(text.last()) =~= text);
    }
}

/// Cleaning is idempotent: cleaning cleaned text changes nothing.
pub proof fn lemma_strip_idempotent(text: Seq<char>)
    ensures
        strip(strip(text)) == strip(text),
{
    lemma_strip_only_permitted(text);
    lemma_strip_keeps_permitted(strip(text));
}

/// Cleaning never lengthens text.
pub proof fn lemma_strip_shortens(text: Seq<char>)
    ensures
        strip(text).len() <= text.len(),
{
    text.lemma_filter_len(|c: char| is_permitted(c));
}

} // verus!
