//! The select node and its projection layout: the compact single-line
//! form when it fits the line limit, else the expanded one-item-per-line
//! form with aliases column-aligned to the configured position.

use vstd::prelude::*;
use vstd::string::StrSliceExecFns;
use vstd::string::StringExecFns;

use crate::format::base::Format;
use crate::format::base::bump_level;
use crate::format::base::next_level;
use crate::format::keywords::Keyword;
use crate::format::keywords::keyword_text;
use crate::format::query::Expr;
use crate::format::query::Ident;
use crate::options::Delimiter;
use crate::options::Options;
use crate::options::comma_text;
use crate::options::indent_prefix;
use crate::options::select_text;
use crate::options::ws_text;
use crate::text::fits;
use crate::text::join_texts;
use crate::text::nl_expand;
use crate::text::repeat_str;
use crate::text::repeat_text;
use crate::text::trim_quotes;
use crate::text::trim_quotes_str;

verus! {

/// One projection item: a verbatim expression and an optional alias.
pub struct SelectItem {
    pub expr: Expr,
    pub alias: Option<Ident>,
}

/// A table reference (with its joins), held as the exact text it renders to.
pub struct TableWithJoins {
    pub text: String,
}

/// A select node: a distinct flag, the projection list, the table list.
pub struct Select {
    pub distinct: bool,
    pub projection: Vec<SelectItem>,
    pub from: Vec<TableWithJoins>,
}

/// An alias normalized per the alias-quoting policy: left alone without
/// one; with one, surrounding quotes trimmed and the rest lower-cased,
/// then re-quoted when the policy demands quotes.
pub open spec fn cleaned_alias(alias: Seq<char>, policy: Option<bool>) -> Seq<char> {
    match policy {
        Option::None => alias,
        Option::Some(quoted) => {
            let bare = crate::text::lower_of(trim_quotes(alias));
            if quoted {
                seq!['"'] + bare + seq!['"']
            } else {
                bare
            }
        },
    }
}

/// The leading keyword of a select: `SELECT`, with `DISTINCT` appended
/// when the flag is set.
pub open spec fn select_keyword_text(s: Select, opt: Options, level: nat) -> Seq<char> {
    if s.distinct {
        keyword_text(Keyword::Select, opt, level) + seq![' '] + keyword_text(
            Keyword::Distinct,
            opt,
            0,
        )
    } else {
        keyword_text(Keyword::Select, opt, level)
    }
}

/// A projection item's compact rendering: the expression, then
/// ` AS alias` when an alias is present.
pub open spec fn short_item_text(it: SelectItem, opt: Options) -> Seq<char> {
    match it.alias {
        Option::None => it.expr.text@,
        Option::Some(a) => it.expr.text@ + seq![' '] + keyword_text(Keyword::As, opt, 0)
            + seq![' '] + cleaned_alias(a.text@, opt.alias_quotes),
    }
}

/// A projection item's expanded rendering: the alias is column-aligned to
/// the configured alias position — padded with spaces up to that column,
/// or moved to the next line indented to it when the expression already
/// reaches it.
pub open spec fn long_item_text(it: SelectItem, opt: Options) -> Seq<char> {
    match it.alias {
        Option::None => it.expr.text@,
        Option::Some(a) => {
            let e = it.expr.text@;
            let spaces: Seq<char> = if e.len() >= opt.alias_position {
                seq!['\n'] + repeat_text(seq![' '], opt.alias_position as nat)
            } else {
                repeat_text(seq![' '], (opt.alias_position - e.len()) as nat)
            };
            e + spaces + keyword_text(Keyword::As, opt, 0) + seq![' '] + cleaned_alias(
                a.text@,
                opt.alias_quotes,
            )
        },
    }
}

/// The compact projection: keyword, a space, the items joined by the
/// compact comma.
pub open spec fn short_select_text(s: Select, opt: Options, level: nat) -> Seq<char> {
    select_keyword_text(s, opt, level) + seq![' '] + join_texts(
        comma_text(opt.short_comma_delimiter),
        s.projection@.map_values(|it: SelectItem| short_item_text(it, opt)),
    )
}

/// The expanded projection: keyword, then the expanded comma's leading
/// whitespace and the aligned items joined by the expanded comma, the
/// whole block indented one level deeper.
pub open spec fn long_select_text(s: Select, opt: Options, level: nat) -> Seq<char> {
    select_keyword_text(s, opt, level) + nl_expand(
        ws_text(opt.long_comma_delimiter.before) + join_texts(
            comma_text(opt.long_comma_delimiter),
            s.projection@.map_values(|it: SelectItem| long_item_text(it, opt)),
        ),
        indent_prefix(opt.indent, next_level(level)),
    )
}

/// The projection layout decision: the compact form when its every line
/// stays within the limit, else the expanded form.
pub open spec fn select_projection_text(s: Select, opt: Options, level: nat) -> Seq<char> {
    if fits(short_select_text(s, opt, level), opt.line_limit as nat) {
        short_select_text(s, opt, level)
    } else {
        long_select_text(s, opt, level)
    }
}

/// The table list's rendering: the `FROM` keyword, then the table texts
/// joined by the comma alternatives one level deeper.
pub open spec fn from_clause_text(tables: Seq<TableWithJoins>, opt: Options, level: nat) -> Seq<
    char,
> {
    select_text(
        opt.comma_candidates(
            keyword_text(Keyword::From, opt, level) + seq![' '],
            tables.map_values(|t: TableWithJoins| t.text@),
            Seq::empty(),
            next_level(level),
        ),
        opt.line_limit as nat,
    )
}

/// A select's full rendering: the projection, then the `FROM` clause when
/// tables are present, joined by the body delimiter.
pub open spec fn select_node_text(s: Select, opt: Options, level: nat) -> Seq<char> {
    join_texts(
        ws_text(opt.body_delimiter),
        seq![select_projection_text(s, opt, level)] + (if s.from.len() > 0 {
            seq![from_clause_text(s.from@, opt, level)]
        } else {
            Seq::<Seq<char>>::empty()
        }),
    )
}

/// Line-limit invariant at the projection: when the compact form keeps
/// every line within the limit it is the one chosen, and when it does not,
/// the expanded form is still returned rather than the render failing.
pub proof fn lemma_projection_line_limit(s: Select, opt: Options, level: nat)
    ensures
        fits(short_select_text(s, opt, level), opt.line_limit as nat) ==> fits(
            select_projection_text(s, opt, level),
            opt.line_limit as nat,
        ),
        !fits(short_select_text(s, opt, level), opt.line_limit as nat)
            ==> select_projection_text(s, opt, level) == long_select_text(s, opt, level),
{
}

fn clean_alias(alias: &str, opt: &Options) -> (r: String)
    ensures
        r@ == cleaned_alias(alias@, opt.alias_quotes),
{
    match opt.alias_quotes {
        Option::None => alias.to_owned(),
        Option::Some(quoted) => {
            let trimmed = trim_quotes_str(alias);
            let bare = crate::text::lowercase(trimmed);
            if quoted {
                let mut out = "\"".to_owned();
                out.append(bare.as_str());
                out.append("\"");
                proof {
                    reveal_strlit("\"");
                    assert("\""@ =~= seq!['"']);
                }
                out
            } else {
                bare
            }
        },
    }
}

fn format_short_item(it: &SelectItem, opt: &Options) -> (r: String)
    ensures
        r@ == short_item_text(*it, *opt),
{
    match &it.alias {
        Option::None => it.expr.text.clone(),
        Option::Some(a) => {
            let mut out = it.expr.text.clone();
            let kw = Keyword::As.format(opt, 0);
            let cleaned = clean_alias(a.text.as_str(), opt);
            out.append(" ");
            out.append(kw.as_str());
            out.append(" ");
            out.append(cleaned.as_str());
            proof {
                reveal_strlit(" ");
                assert(" "@ =~= seq![' ']);
            }
            out
        },
    }
}

fn format_long_item(it: &SelectItem, opt: &Options) -> (r: String)
    ensures
        r@ == long_item_text(*it, *opt),
{
    match &it.alias {
        Option::None => it.expr.text.clone(),
        Option::Some(a) => {
            let mut out = it.expr.text.clone();
            let elen = it.expr.text.as_str().unicode_len();
            let spaces: String = if elen >= opt.alias_position {
                let mut sp = "\n".to_owned();
                let pad = repeat_str(" ", opt.alias_position);
                sp.append(pad.as_str());
                sp
            } else {
                repeat_str(" ", opt.alias_position - elen)
            };
            let kw = Keyword::As.format(opt, 0);
            let cleaned = clean_alias(a.text.as_str(), opt);
            out.append(spaces.as_str());
            out.append(kw.as_str());
            out.append(" ");
            out.append(cleaned.as_str());
            proof {
                reveal_strlit(" ");
                reveal_strlit("\n");
                assert(" "@ =~= seq![' ']);
                assert("\n"@ =~= seq!['\n']);
            }
            out
        },
    }
}

fn format_select_keyword(s: &Select, opt: &Options, indent: usize) -> (r: String)
    ensures
        r@ == select_keyword_text(*s, *opt, indent as nat),
{
    let mut out = Keyword::Select.format(opt, indent);
    if s.distinct {
        let kw = Keyword::Distinct.format(opt, 0);
        out.append(" ");
        out.append(kw.as_str());
        proof {
            reveal_strlit(" ");
            assert(" "@ =~= seq![' ']);
        }
    }
    out
}

/// The projection layout: try the compact single-line
/// form against the line limit, fall back to the expanded, alias-aligned
/// form indented one level deeper.
#[verifier::loop_isolation(false)]
pub fn format_select_projection(s: &Select, opt: &Options, indent: usize) -> (r: String)
    ensures
        r@ == select_projection_text(*s, *opt, indent as nat),
{
    let select = format_select_keyword(s, opt, indent);

    let ghost short_texts = s.projection@.map_values(|it: SelectItem| short_item_text(it, *opt));
    let mut short_items: Vec<String> = Vec::new();
    let mut i: usize = 0;
    while i < s.projection.len()
        invariant
            i <= s.projection.len(),
            short_items.deep_view() =~= short_texts.take(i as int),
        decreases s.projection.len() - i,
    {
        short_items.push(format_short_item(&s.projection[i], opt));
        proof {
            assert(short_items.deep_view() =~= short_texts.take(i + 1));
        }
        i = i + 1;
    }
    proof {
        assert(short_texts.take(s.projection@.len() as int) =~= short_texts);
    }
    let short_projection = opt.short_comma_delimiter.join(short_items.as_slice());
    let mut short_select = select.clone();
    short_select.append(" ");
    short_select.append(short_projection.as_str());
    proof {
        reveal_strlit(" ");
        assert(" "@ =~= seq![' ']);
    }
    if opt.adheres_to_line_limit(short_select.as_str()) {
        return short_select;
    }

    let ghost long_texts = s.projection@.map_values(|it: SelectItem| long_item_text(it, *opt));
    let mut long_items: Vec<String> = Vec::new();
    let mut j: usize = 0;
    while j < s.projection.len()
        invariant
            j <= s.projection.len(),
            long_items.deep_view() =~= long_texts.take(j as int),
        decreases s.projection.len() - j,
    {
        long_items.push(format_long_item(&s.projection[j], opt));
        proof {
            assert(long_items.deep_view() =~= long_texts.take(j + 1));
        }
        j = j + 1;
    }
    proof {
        assert(long_texts.take(s.projection@.len() as int) =~= long_texts);
    }
    let long_projection = opt.long_comma_delimiter.join(long_items.as_slice());
    let mut block = opt.long_comma_delimiter.as_whitespace().to_string();
    block.append(long_projection.as_str());
    let indented = opt.indent.apply(block.as_str(), bump_level(indent));
    let mut out = select;
    out.append(indented.as_str());
    out
}

#[verifier::loop_isolation(false)]
pub fn format_from(tables: &Vec<TableWithJoins>, opt: &Options, indent: usize) -> (r: String)
    ensures
        r@ == from_clause_text(tables@, *opt, indent as nat),
{
    let ghost texts = tables@.map_values(|t: TableWithJoins| t.text@);
    let mut items: Vec<String> = Vec::new();
    let mut i: usize = 0;
    while i < tables.len()
        invariant
            i <= tables.len(),
            items.deep_view() =~= texts.take(i as int),
        decreases tables.len() - i,
    {
        let piece = if i == 0 {
            tables[i].format(opt, 0)
        } else {
            tables[i].format(opt, 1)
        };
        items.push(piece);
        proof {
            assert(items.deep_view() =~= texts.take(i + 1));
        }
        i = i + 1;
    }
    proof {
        assert(texts.take(tables@.len() as int) =~= texts);
        reveal_strlit(" ");
        reveal_strlit("");
        assert(" "@ =~= seq![' ']);
    }
    let mut prefix = Keyword::From.format(opt, indent);
    prefix.append(" ");
    opt.join_with_commas(prefix.as_str(), items.as_slice(), "", bump_level(indent))
}

pub fn format_select(s: &Select, opt: &Options, indent: usize) -> (r: String)
    ensures
        r@ == select_node_text(*s, *opt, indent as nat),
{
    let mut components: Vec<String> = Vec::new();
    components.push(format_select_projection(s, opt, indent));
    if s.from.len() > 0 {
        components.push(format_from(&s.from, opt, indent));
    }
    proof {
        assert(components.deep_view() =~= seq![
            select_projection_text(*s, *opt, indent as nat),
        ] + (if s.from.len() > 0 {
            seq![from_clause_text(s.from@, *opt, indent as nat)]
        } else {
            Seq::<Seq<char>>::empty()
        }));
    }
    opt.body_delimiter.join(components.as_slice())
}

impl Format for TableWithJoins {
    open spec fn text(&self, opt: &Options, level: nat) -> Seq<char> {
        self.text@
    }

    fn format(&self, opt: &Options, indent: usize) -> (r: String) {
        self.text.clone()
    }
}

impl Format for Select {
    open spec fn text(&self, opt: &Options, level: nat) -> Seq<char> {
        select_node_text(*self, *opt, level)
    }

    fn format(&self, opt: &Options, indent: usize) -> (r: String) {
        format_select(self, opt, indent)
    }
}

impl Format for Vec<TableWithJoins> {
    open spec fn text(&self, opt: &Options, level: nat) -> Seq<char> {
        from_clause_text(self@, *opt, level)
    }

    fn format(&self, opt: &Options, indent: usize) -> (r: String) {
        format_from(self, opt, indent)
    }
}

} // verus!
