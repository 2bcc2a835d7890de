//! The file rewriter: renders a rule's search template into a concrete
//! pattern, and replaces every match in a file's contents.

use vstd::prelude::*;

use crate::render::spec_render;
use crate::render::Placeholders;
use crate::text::replace_all;
use crate::text::spec_replace_all;

verus! {

/// A per-file rewrite rule: a search-pattern template and a replacement
/// template. Both may hold placeholder tokens.
#[derive(Debug, Clone)]
pub struct FileConfig {
    pub search: String,
    pub replace: String,
}

impl Default for FileConfig {
    /// The default rule searches for the current version's text and puts
    /// the new version's text in its place.
    fn default() -> (r: FileConfig)
        ensures
            r.search@ == "{current_version}"@,
            r.replace@ == "{new_version}"@,
    {
        FileConfig {
            search: String::from_str("{current_version}"),
            replace: String::from_str("{new_version}"),
        }
    }
}

#[derive(Debug, Clone, PartialEq, Eq)]
pub enum RewriteError {
    /// The rendered search pattern does not compile as a pattern.
    InvalidPattern { pattern: String },
    /// The rendered search pattern matched nowhere in the contents.
    PatternNotFound { pattern: String },
}

/// Whether a pattern compiles as a multi-line regular expression.
pub uninterp spec fn regex_compiles(pattern: Seq<char>) -> bool;

/// Whether a compiled pattern matches somewhere in `text`.
pub uninterp spec fn regex_matches(pattern: Seq<char>, text: Seq<char>) -> bool;

/// `text` with every match of `pattern` replaced by `rep`.
pub uninterp spec fn regex_replaced(pattern: Seq<char>, text: Seq<char>, rep: Seq<char>) -> Seq<
    char,
>;

/// Relies on `regex::RegexBuilder::build` in multi-line mode: whether a
/// pattern compiles depends on the pattern text alone.
#[verifier::external_body]
fn compile_check(pattern: &str) -> (r: bool)
    ensures
        r == regex_compiles(pattern@),
{
    regex::RegexBuilder::new(pattern).multi_line(true).build().is_ok()
}

/// Relies on `regex::Regex::is_match` on a pattern built in multi-line
/// mode: the result depends on the pattern and the haystack alone.
#[verifier::external_body]
fn is_match(pattern: &str, text: &str) -> (r: bool)
    requires
        regex_compiles(pattern@),
    ensures
        r == regex_matches(pattern@, text@),
{
    match regex::RegexBuilder::new(pattern).multi_line(true).build() {
        Ok(re) => re.is_match(text),
        Err(_) => false,
    }
}

/// Relies on `regex::Regex::replace_all` on a pattern built in multi-line
/// mode: every non-overlapping match replaced with the replacement text
/// (`$` references expanded); the result depends on the pattern, the
/// haystack and the replacement alone.
#[verifier::external_body]
fn regex_replace_all(pattern: &str, text: &str, rep: &str) -> (r: String)
    requires
        regex_compiles(pattern@),
    ensures
        r@ == regex_replaced(pattern@, text@, rep@),
{
    match regex::RegexBuilder::new(pattern).multi_line(true).build() {
        Ok(re) => re.replace_all(text, rep).to_string(),
        Err(_) => String::new(),
    }
}

/// The concrete search pattern of a rule: the search template with its
/// placeholders expanded and every `+` escaped, so that build metadata in
/// a version text cannot act as a quantifier.
pub open spec fn rendered_pattern(search: Seq<char>, cur: Seq<char>, newv: Seq<char>) -> Seq<
    char,
> {
    spec_replace_all(spec_render(search, cur, newv), seq!['+'], seq!['\\', '+'])
}

/// Whether a rule's rendered pattern compiles and matches the contents,
/// which is exactly when `replace_version` succeeds.
pub open spec fn rewrite_applies(
    search: Seq<char>,
    content: Seq<char>,
    cur: Seq<char>,
    newv: Seq<char>,
) -> bool {
    &&& regex_compiles(rendered_pattern(search, cur, newv))
    &&& regex_matches(rendered_pattern(search, cur, newv), content)
}

/// The contents a successful rewrite returns.
pub open spec fn rewritten(
    search: Seq<char>,
    replace: Seq<char>,
    content: Seq<char>,
    cur: Seq<char>,
    newv: Seq<char>,
) -> Seq<char> {
    regex_replaced(
        rendered_pattern(search, cur, newv),
        content,
        spec_render(replace, cur, newv),
    )
}

/// Rewrites one file's contents under one rule: renders the search
/// template into a pattern, requires it to match somewhere, and replaces
/// every match with the rendered replacement text.
pub fn replace_version(content: &str, file_config: &FileConfig, placeholders: &Placeholders) -> (r:
    Result<String, RewriteError>)
    ensures
        ({
            let cur = placeholders.current_text();
            let newv = placeholders.new_text();
            let pat = rendered_pattern(file_config.search@, cur, newv);
            &&& (r is Ok <==> rewrite_applies(file_config.search@, content@, cur, newv))
            &&& (r matches Ok(out) ==> out@ == rewritten(
                file_config.search@,
                file_config.replace@,
                content@,
                cur,
                newv,
            ))
            &&& (r matches Err(RewriteError::InvalidPattern { pattern }) ==> pattern@ == pat
                && !regex_compiles(pat))
            &&& (r matches Err(RewriteError::PatternNotFound { pattern }) ==> pattern@ == pat
                && regex_compiles(pat) && !regex_matches(pat, content@))
        }),
{
    let search_rendered = placeholders.replace(file_config.search.as_str());
    proof {
        reveal_strlit("+");
        reveal_strlit("\\+");
        assert("+"@ =~= seq!['+']);
        assert("\\+"@ =~= seq!['\\', '+']);
    }
    let pattern = replace_all(search_rendered.as_str(), "+", "\\+");
    if !compile_check(pattern.as_str()) {
        return Err(RewriteError::InvalidPattern { pattern });
    }
    if !is_match(pattern.as_str(), content) {
        return Err(RewriteError::PatternNotFound { pattern });
    }
    let rep = placeholders.replace(file_config.replace.as_str());
    Ok(regex_replace_all(pattern.as_str(), content, rep.as_str()))
}

} // verus!
