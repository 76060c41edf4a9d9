//! The fixed keyword vocabulary and its rendering: the lower-case,
//! space-separated spelling of each keyword, case-transformed per the
//! configured keyword casing and prefixed by the indent for its level.

use vstd::prelude::*;
use vstd::string::StringExecFns;

use crate::format::base::Format;
use crate::options::Case;
use crate::options::Options;
use crate::options::cased_text;
use crate::options::indent_prefix;
use crate::options::lemma_ws_text_blank;
use crate::options::ws_text;
use crate::text::is_ascii_lower;
use crate::text::is_ascii_upper;
use crate::text::is_blank_char;
use crate::text::lemma_case_char;
use crate::text::lemma_repeat_all_chars;
use crate::text::repeat_str;

verus! {

pub enum Keyword {
    As,
    Asc,
    Desc,
    Distinct,
    From,
    Limit,
    OrderBy,
    Select,
    With,
}

/// The lower-case, space-separated spelling of a keyword.
pub open spec fn spelling(kw: Keyword) -> Seq<char> {
    match kw {
        Keyword::As => "as"@,
        Keyword::Asc => "asc"@,
        Keyword::Desc => "desc"@,
        Keyword::Distinct => "distinct"@,
        Keyword::From => "from"@,
        Keyword::Limit => "limit"@,
        Keyword::OrderBy => "order by"@,
        Keyword::Select => "select"@,
        Keyword::With => "with"@,
    }
}

/// A keyword's rendering: the indent prefix for its level, then its
/// spelling in the configured case.
pub open spec fn keyword_text(kw: Keyword, opt: Options, level: nat) -> Seq<char> {
    indent_prefix(opt.indent, level) + cased_text(opt.keyword_case, spelling(kw))
}

impl Keyword {
    pub fn spelling_str(&self) -> (r: &'static str)
        ensures
            r@ == spelling(*self),
    {
        match self {
            Keyword::As => "as",
            Keyword::Asc => "asc",
            Keyword::Desc => "desc",
            Keyword::Distinct => "distinct",
            Keyword::From => "from",
            Keyword::Limit => "limit",
            Keyword::OrderBy => "order by",
            Keyword::Select => "select",
            Keyword::With => "with",
        }
    }
}

impl Format for Keyword {
    open spec fn text(&self, opt: &Options, level: nat) -> Seq<char> {
        keyword_text(*self, *opt, level)
    }

    fn format(&self, opt: &Options, indent: usize) -> (r: String) {
        let spelled = self.spelling_str();
        let cased = crate::options::cased_str_ascii(&opt.keyword_case, spelled);
        if indent == 0 {
            proof {
                assert(indent_prefix(opt.indent, 0) + cased@ =~= cased@);
            }
            cased
        } else {
            let unit = opt.indent.0.to_string();
            let mut out = repeat_str(unit.as_str(), indent);
            out.append(cased.as_str());
            out
        }
    }
}

/// Keyword casing: with `Upper` a rendered keyword holds no ASCII
/// lower-case letter, with `Lower` no ASCII upper-case one (the indent
/// prefix being whitespace, this covers the whole rendering).
pub proof fn lemma_keyword_casing(kw: Keyword, opt: Options, level: nat)
    ensures
        opt.keyword_case == Case::Upper ==> forall|i: int|
            0 <= i < keyword_text(kw, opt, level).len() ==> !is_ascii_lower(
                #[trigger] keyword_text(kw, opt, level)[i],
            ),
        opt.keyword_case == Case::Lower ==> forall|i: int|
            0 <= i < keyword_text(kw, opt, level).len() ==> !is_ascii_upper(
                #[trigger] keyword_text(kw, opt, level)[i],
            ),
{
    let prefix = indent_prefix(opt.indent, level);
    let cased = cased_text(opt.keyword_case, spelling(kw));
    lemma_ws_text_blank(opt.indent.0);
    lemma_repeat_all_chars(ws_text(opt.indent.0), level, |c: char| is_blank_char(c));
    assert forall|i: int| 0 <= i < prefix.len() implies !is_ascii_lower(#[trigger] prefix[i])
        && !is_ascii_upper(prefix[i]) by {
        assert(is_blank_char(prefix[i]));
    }
    assert forall|i: int| 0 <= i < cased.len() implies (opt.keyword_case == Case::Upper
        ==> !is_ascii_lower(#[trigger] cased[i])) && (opt.keyword_case == Case::Lower
        ==> !is_ascii_upper(cased[i])) by {
        lemma_case_char(spelling(kw)[i]);
    }
}

} // verus!
