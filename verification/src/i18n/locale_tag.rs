//! Language tags parsed, canonicalised, maximised and walked for fallback by
//! ICU4X (`icu::locale`, with its compiled CLDR data).
//!
//! What ICU computes takes the CLDR tables to state, so each operation's
//! result is named here and the contracts say that the call returns the
//! named result for its input. The library's own logic (which tags count as
//! languages, which supported locale a tag resolves to) is built on these
//! names in `i18n`.
use icu::locale::fallback::{
    LocaleFallbackConfig, LocaleFallbackIterator, LocaleFallbackPriority, LocaleFallbacker,
};
use icu::locale::{Locale, LocaleCanonicalizer, LocaleExpander};
use vstd::prelude::*;

verus! {

#[verifier::external_type_specification]
#[verifier::external_body]
pub struct ExLocale(Locale);

#[verifier::external_type_specification]
#[verifier::external_body]
pub struct ExLocaleFallbackIterator<'a>(LocaleFallbackIterator<'a>);

/// A parsed language tag, with the parts of it that the library reads.
pub struct LocaleTag {
    locale: Locale,
    text: String,
    language: String,
    has_script: bool,
    has_region: bool,
}

/// What a language tag is to the library: its canonical text (`Locale`'s
/// `to_string`), its language subtag, and whether it carries a script and a
/// region subtag.
pub struct LocaleTagView {
    pub text: Seq<char>,
    pub language: Seq<char>,
    pub has_script: bool,
    pub has_region: bool,
}

impl View for LocaleTag {
    type V = LocaleTagView;

    closed spec fn view(&self) -> LocaleTagView {
        LocaleTagView {
            text: self.text@,
            language: self.language@,
            has_script: self.has_script,
            has_region: self.has_region,
        }
    }
}

impl LocaleTag {
    /// The language subtag (`und` for none).
    pub fn language(&self) -> (r: &str)
        ensures
            r@ == self@.language,
    {
        self.language.as_str()
    }

    /// Whether the tag carries a script subtag.
    pub fn has_script(&self) -> (r: bool)
        ensures
            r == self@.has_script,
    {
        self.has_script
    }

    /// Whether the tag carries a region subtag.
    pub fn has_region(&self) -> (r: bool)
        ensures
            r == self@.has_region,
    {
        self.has_region
    }

    /// The tag's canonical text.
    pub fn text(&self) -> (r: &str)
        ensures
            r@ == self@.text,
    {
        self.text.as_str()
    }
}

/// The tag `Locale::try_from_str` parses from `input`, or `None` when the
/// input is not a well-formed BCP 47 tag.
pub uninterp spec fn icu_parse(input: Seq<char>) -> Option<LocaleTagView>;

/// The tag `LocaleCanonicalizer::canonicalize` (common CLDR data) turns `tag` into.
pub uninterp spec fn icu_canonicalize(tag: LocaleTagView) -> LocaleTagView;

/// The tag `LocaleExpander::maximize` (common CLDR data) turns `tag` into.
pub uninterp spec fn icu_maximize(tag: LocaleTagView) -> LocaleTagView;

/// The fallback chain that `LocaleFallbacker` (language priority) walks from
/// `tag`: each step's locale text and language subtag, from the first
/// (normalised) locale up to and including the final `und`.
pub uninterp spec fn icu_fallback_chain(tag: LocaleTagView) -> Seq<(Seq<char>, Seq<char>)>;

/// The steps a fallback iterator has still to show, its current one first.
pub uninterp spec fn fallback_remaining(it: LocaleFallbackIterator<'static>) -> Seq<
    (Seq<char>, Seq<char>),
>;

/// Parses a BCP 47 language tag.
///
/// Calls `Locale::try_from_str`; a parse error becomes `None`.
#[verifier::external_body]
pub(crate) fn parse_tag(input: &str) -> (r: Option<LocaleTag>)
    ensures
        match r {
            Some(t) => icu_parse(input@) == Some(t@),
            None => icu_parse(input@) is None,
        },
{
    match Locale::try_from_str(input) {
        Ok(l) => Some(LocaleTag {
            text: l.to_string(),
            language: l.id.language.as_str().to_string(),
            has_script: l.id.script.is_some(),
            has_region: l.id.region.is_some(),
            locale: l,
        }),
        Err(_) => None,
    }
}

/// Canonicalises a tag (CLDR aliases, case, legacy region codes).
///
/// Calls `LocaleCanonicalizer::canonicalize` with the common compiled data.
#[verifier::external_body]
pub(crate) fn canonicalize_tag(tag: LocaleTag) -> (r: LocaleTag)
    ensures
        r@ == icu_canonicalize(tag@),
{
    let mut l = tag.locale;
    LocaleCanonicalizer::new_common().canonicalize(&mut l);
    LocaleTag {
        text: l.to_string(),
        language: l.id.language.as_str().to_string(),
        has_script: l.id.script.is_some(),
        has_region: l.id.region.is_some(),
        locale: l,
    }
}

/// Adds the likely subtags (script and region) of a tag.
///
/// Calls `LocaleExpander::maximize` with the common compiled data on a copy
/// of the tag's language identifier.
#[verifier::external_body]
pub(crate) fn maximize_tag(tag: &LocaleTag) -> (r: LocaleTag)
    ensures
        r@ == icu_maximize(tag@),
{
    let mut l = tag.locale.clone();
    LocaleExpander::new_common().maximize(&mut l.id);
    LocaleTag {
        text: l.to_string(),
        language: l.id.language.as_str().to_string(),
        has_script: l.id.script.is_some(),
        has_region: l.id.region.is_some(),
        locale: l,
    }
}

/// Starts locale fallback from a tag, language first.
///
/// Calls `LocaleFallbacker::new().for_config(..).fallback_for(..)` with
/// `LocaleFallbackPriority::Language`. ICU documents that the walk is
/// complete once the current locale is `und`, so the chain is finite, not
/// empty, and its last step has the language `und`.
#[verifier::external_body]
pub(crate) fn fallback_for(tag: &LocaleTag) -> (it: LocaleFallbackIterator<'static>)
    ensures
        fallback_remaining(it) == icu_fallback_chain(tag@),
        fallback_remaining(it).len() > 0,
        fallback_remaining(it).last().1 == seq!['u', 'n', 'd'],
{
    let mut config = LocaleFallbackConfig::default();
    config.priority = LocaleFallbackPriority::Language;
    LocaleFallbacker::new().for_config(config).fallback_for((&tag.locale).into())
}

/// The current step of a fallback walk: its locale text and language subtag.
///
/// Calls `LocaleFallbackIterator::get`.
#[verifier::external_body]
pub(crate) fn fallback_current(it: &LocaleFallbackIterator<'static>) -> (r: (String, String))
    requires
        fallback_remaining(*it).len() > 0,
    ensures
        (r.0@, r.1@) == fallback_remaining(*it)[0],
{
    let current = it.get();
    (current.to_string(), current.language.as_str().to_string())
}

/// Moves a fallback walk one step on.
///
/// Calls `LocaleFallbackIterator::step` before the walk has reached its end.
#[verifier::external_body]
pub(crate) fn fallback_step(it: &mut LocaleFallbackIterator<'static>)
    requires
        fallback_remaining(*old(it)).len() > 1,
    ensures
        fallback_remaining(*final(it)) == fallback_remaining(*old(it)).drop_first(),
{
    it.step();
}

} // verus!
