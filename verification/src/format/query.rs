//! The query-level syntax tree and its renderers: statements, queries,
//! common table expressions, aliases, order-by items and identifiers.
//!
//! The tree holds exactly the shapes the renderer has rules for; it is
//! built from an external parser's output at the crate's boundary, where
//! any construct without a rendering rule is refused explicitly.

use vstd::prelude::*;
use vstd::string::StringExecFns;

use crate::format::base::Format;
use crate::format::base::bump_level;
use crate::format::base::next_level;
use crate::format::keywords::Keyword;
use crate::format::keywords::keyword_text;
use crate::format::select::Select;
use crate::format::select::format_select;
use crate::format::select::select_node_text;
use crate::options::Delimiter;
use crate::options::Options;
use crate::options::indent_prefix;
use crate::options::select_text;
use crate::options::ws_text;
use crate::text::join_strings;
use crate::text::join_texts;
use crate::text::nl_expand;

verus! {

broadcast use vstd::std_specs::vec::axiom_vec_index_decreases;

/// An identifier, held as the exact text it renders to.
pub struct Ident {
    pub text: String,
}

/// A verbatim expression: the renderer formats expressions as literal text.
pub struct Expr {
    pub text: String,
}

/// One order-by item: an expression and an optional explicit direction.
pub struct OrderByExpr {
    pub expr: Expr,
    pub asc: Option<bool>,
}

/// An alias with an optional column list.
pub struct TableAlias {
    pub name: Ident,
    pub columns: Vec<Ident>,
}

/// A common table expression: an aliased, nested query.
pub struct Cte {
    pub alias: TableAlias,
    pub query: Query,
}

/// A query: an optional CTE block, a select body, an optional order-by list.
pub struct Query {
    pub ctes: Vec<Cte>,
    pub body: Select,
    pub order_by: Vec<OrderByExpr>,
}

/// A statement the renderer has a rule for.
pub enum Statement {
    Query(Query),
}

/// An identifier's rendering: its text with embedded line breaks indented.
pub open spec fn ident_text(id: Ident, opt: Options, level: nat) -> Seq<char> {
    nl_expand(id.text@, indent_prefix(opt.indent, level))
}

/// A column list's rendering: the identifiers joined by the comma
/// alternatives, most compact fitting form first.
pub open spec fn idents_list_text(cols: Seq<Ident>, opt: Options, level: nat) -> Seq<char> {
    select_text(
        opt.comma_candidates(
            Seq::empty(),
            cols.map_values(|id: Ident| ident_text(id, opt, 0)),
            Seq::empty(),
            level,
        ),
        opt.line_limit as nat,
    )
}

/// A table alias' rendering: its name, then its column list in
/// parentheses when one is present.
pub open spec fn alias_text(a: TableAlias, opt: Options, level: nat) -> Seq<char> {
    if a.columns.len() == 0 {
        ident_text(a.name, opt, level)
    } else {
        ident_text(a.name, opt, level) + seq![' ', '('] + idents_list_text(a.columns@, opt, level)
            + seq![')']
    }
}

/// An order-by item's rendering: the expression, followed by the direction
/// keyword only when a direction was explicitly specified.
pub open spec fn obe_text(o: OrderByExpr, opt: Options, level: nat) -> Seq<char> {
    match o.asc {
        Option::None => o.expr.text@,
        Option::Some(true) => o.expr.text@ + seq![' '] + keyword_text(Keyword::Asc, opt, 0),
        Option::Some(false) => o.expr.text@ + seq![' '] + keyword_text(Keyword::Desc, opt, 0),
    }
}

/// An order-by list's rendering: the keyword, then the items joined by the
/// comma alternatives one level deeper.
pub open spec fn order_by_list_text(items: Seq<OrderByExpr>, opt: Options, level: nat) -> Seq<
    char,
> {
    select_text(
        opt.comma_candidates(
            keyword_text(Keyword::OrderBy, opt, 0) + seq![' '],
            items.map_values(|o: OrderByExpr| obe_text(o, opt, 0)),
            Seq::empty(),
            next_level(level),
        ),
        opt.line_limit as nat,
    )
}

/// A CTE's rendering: `alias AS (`, the nested query one level deeper, and
/// the closing parenthesis, joined by the subquery delimiter.
pub open spec fn cte_text(c: Cte, opt: Options, level: nat) -> Seq<char>
    decreases c, 2int,
{
    join_texts(
        ws_text(opt.subquery_delimiter),
        seq![
            alias_text(c.alias, opt, 0) + seq![' '] + keyword_text(Keyword::As, opt, 0)
                + seq![' ', '('],
            query_text(c.query, opt, next_level(level)),
            seq![')'],
        ],
    )
}

/// The renderings of `ctes[i..]`, one per CTE.
pub open spec fn cte_items(ctes: Vec<Cte>, i: int, opt: Options, level: nat) -> Seq<Seq<char>>
    decreases ctes, ctes.len() - i,
{
    if 0 <= i < ctes.len() {
        seq![cte_text(ctes[i], opt, level)] + cte_items(ctes, i + 1, opt, level)
    } else {
        Seq::empty()
    }
}

/// A CTE block's rendering: the `WITH` keyword, then the CTEs joined with
/// a comma and a space.
pub open spec fn ctes_block_text(ctes: Vec<Cte>, opt: Options, level: nat) -> Seq<char>
    decreases ctes, ctes.len() + 1,
{
    keyword_text(Keyword::With, opt, level) + seq![' '] + join_texts(
        seq![',', ' '],
        cte_items(ctes, 0, opt, level),
    )
}

/// The components a query renders, in fixed order: the CTE block when
/// present, the body, the order-by list when present.
pub open spec fn query_components(q: Query, opt: Options, level: nat) -> Seq<Seq<char>>
    decreases q, 1int,
{
    (if q.ctes.len() > 0 {
        seq![ctes_block_text(q.ctes, opt, level)]
    } else {
        Seq::<Seq<char>>::empty()
    }) + seq![select_node_text(q.body, opt, level)] + (if q.order_by.len() > 0 {
        seq![order_by_list_text(q.order_by@, opt, level)]
    } else {
        Seq::<Seq<char>>::empty()
    })
}

/// A query's rendering: its present components joined by the body delimiter.
pub open spec fn query_text(q: Query, opt: Options, level: nat) -> Seq<char>
    decreases q, 2int,
{
    join_texts(ws_text(opt.body_delimiter), query_components(q, opt, level))
}

/// A statement's rendering.
pub open spec fn statement_text(st: Statement, opt: Options, level: nat) -> Seq<char>
    decreases st, 3int,
{
    match st {
        Statement::Query(q) => query_text(q, opt, level),
    }
}

/// The renderings of `list[i..]`, one per statement.
pub open spec fn statement_items(list: Vec<Statement>, i: int, opt: Options, level: nat) -> Seq<
    Seq<char>,
>
    decreases list, list.len() - i,
{
    if 0 <= i < list.len() {
        seq![statement_text(list[i], opt, level)] + statement_items(list, i + 1, opt, level)
    } else {
        Seq::empty()
    }
}

/// A script's rendering: the statements joined by the statement delimiter.
pub open spec fn statements_text(list: Vec<Statement>, opt: Options, level: nat) -> Seq<char>
    decreases list, list.len() + 1,
{
    join_texts(ws_text(opt.query_delimiter), statement_items(list, 0, opt, level))
}

/// Rendering is a pure function of the tree, the options and the level:
/// any two renderings of the same script with the same configuration are
/// byte-identical.
pub proof fn lemma_render_deterministic(
    a: Seq<char>,
    b: Seq<char>,
    list: Vec<Statement>,
    opt: Options,
    level: nat,
)
    requires
        a == statements_text(list, opt, level),
        b == statements_text(list, opt, level),
    ensures
        a == b,
{
}

pub fn format_ident(id: &Ident, opt: &Options, indent: usize) -> (r: String)
    ensures
        r@ == ident_text(*id, *opt, indent as nat),
{
    opt.indent.apply(id.text.as_str(), indent)
}

#[verifier::loop_isolation(false)]
pub fn format_idents(cols: &Vec<Ident>, opt: &Options, indent: usize) -> (r: String)
    ensures
        r@ == idents_list_text(cols@, *opt, indent as nat),
{
    let ghost texts = cols@.map_values(|id: Ident| ident_text(id, *opt, 0));
    let mut items: Vec<String> = Vec::new();
    let mut i: usize = 0;
    while i < cols.len()
        invariant
            i <= cols.len(),
            items.deep_view() =~= texts.take(i as int),
        decreases cols.len() - i,
    {
        items.push(format_ident(&cols[i], opt, 0));
        proof {
            assert(items.deep_view() =~= texts.take(i + 1));
        }
        i = i + 1;
    }
    proof {
        assert(texts.take(cols@.len() as int) =~= texts);
        reveal_strlit("");
    }
    opt.join_with_commas("", items.as_slice(), "", indent)
}

pub fn format_table_alias(a: &TableAlias, opt: &Options, indent: usize) -> (r: String)
    ensures
        r@ == alias_text(*a, *opt, indent as nat),
{
    let mut out = format_ident(&a.name, opt, indent);
    if a.columns.len() == 0 {
        out
    } else {
        let cols = format_idents(&a.columns, opt, indent);
        out.append(" (");
        out.append(cols.as_str());
        out.append(")");
        proof {
            reveal_strlit(" (");
            reveal_strlit(")");
            assert(" ("@ =~= seq![' ', '(']);
            assert(")"@ =~= seq![')']);
        }
        out
    }
}

pub fn format_order_by_expr(o: &OrderByExpr, opt: &Options, indent: usize) -> (r: String)
    ensures
        r@ == obe_text(*o, *opt, indent as nat),
{
    let mut out = o.expr.text.clone();
    proof {
        reveal_strlit(" ");
        assert(" "@ =~= seq![' ']);
    }
    match o.asc {
        Option::None => out,
        Option::Some(true) => {
            let kw = Keyword::Asc.format(opt, 0);
            out.append(" ");
            out.append(kw.as_str());
            out
        },
        Option::Some(false) => {
            let kw = Keyword::Desc.format(opt, 0);
            out.append(" ");
            out.append(kw.as_str());
            out
        },
    }
}

#[verifier::loop_isolation(false)]
pub fn format_order_by(list: &Vec<OrderByExpr>, opt: &Options, indent: usize) -> (r: String)
    ensures
        r@ == order_by_list_text(list@, *opt, indent as nat),
{
    let ghost texts = list@.map_values(|o: OrderByExpr| obe_text(o, *opt, 0));
    let mut items: Vec<String> = Vec::new();
    let mut i: usize = 0;
    while i < list.len()
        invariant
            i <= list.len(),
            items.deep_view() =~= texts.take(i as int),
        decreases list.len() - i,
    {
        items.push(format_order_by_expr(&list[i], opt, 0));
        proof {
            assert(items.deep_view() =~= texts.take(i + 1));
        }
        i = i + 1;
    }
    proof {
        assert(texts.take(list@.len() as int) =~= texts);
    }
    let mut prefix = Keyword::OrderBy.format(opt, 0);
    prefix.append(" ");
    proof {
        reveal_strlit(" ");
        reveal_strlit("");
        assert(" "@ =~= seq![' ']);
    }
    opt.join_with_commas(prefix.as_str(), items.as_slice(), "", bump_level(indent))
}

pub fn format_cte(c: &Cte, opt: &Options, indent: usize) -> (r: String)
    ensures
        r@ == cte_text(*c, *opt, indent as nat),
    decreases *c,
{
    let mut first = format_table_alias(&c.alias, opt, 0);
    let kw = Keyword::As.format(opt, 0);
    first.append(" ");
    first.append(kw.as_str());
    first.append(" (");
    let inner = format_query(&c.query, opt, bump_level(indent));
    let close = ")".to_owned();
    let mut items: Vec<String> = Vec::new();
    items.push(first);
    items.push(inner);
    items.push(close);
    proof {
        reveal_strlit(" ");
        reveal_strlit(" (");
        reveal_strlit(")");
        assert(" "@ =~= seq![' ']);
        assert(" ("@ =~= seq![' ', '(']);
        assert(")"@ =~= seq![')']);
        assert(items.deep_view() =~= seq![
            alias_text(c.alias, *opt, 0) + seq![' '] + keyword_text(Keyword::As, *opt, 0)
                + seq![' ', '('],
            query_text(c.query, *opt, next_level(indent as nat)),
            seq![')'],
        ]);
    }
    opt.subquery_delimiter.join(items.as_slice())
}

#[verifier::loop_isolation(false)]
pub fn format_ctes_block(ctes: &Vec<Cte>, opt: &Options, indent: usize) -> (r: String)
    ensures
        r@ == ctes_block_text(*ctes, *opt, indent as nat),
    decreases *ctes,
{
    let mut rendered: Vec<String> = Vec::new();
    let mut i: usize = 0;
    while i < ctes.len()
        invariant
            i <= ctes.len(),
            rendered.deep_view() + cte_items(*ctes, i as int, *opt, indent as nat) =~= cte_items(
                *ctes,
                0,
                *opt,
                indent as nat,
            ),
        decreases ctes.len() - i,
    {
        proof {
            vstd::std_specs::vec::axiom_vec_index_decreases(*ctes, i as int);
        }
        let piece = format_cte(&ctes[i], opt, indent);
        rendered.push(piece);
        proof {
            assert(cte_items(*ctes, i as int, *opt, indent as nat) == seq![
                cte_text(ctes@[i as int], *opt, indent as nat),
            ] + cte_items(*ctes, i + 1, *opt, indent as nat));
            assert(rendered.deep_view() + cte_items(*ctes, i + 1, *opt, indent as nat)
                =~= cte_items(*ctes, 0, *opt, indent as nat));
        }
        i = i + 1;
    }
    proof {
        assert(rendered.deep_view() =~= cte_items(*ctes, 0, *opt, indent as nat));
    }
    let joined = join_strings(", ", rendered.as_slice());
    let mut out = Keyword::With.format(opt, indent);
    out.append(" ");
    out.append(joined.as_str());
    proof {
        reveal_strlit(" ");
        reveal_strlit(", ");
        assert(" "@ =~= seq![' ']);
        assert(", "@ =~= seq![',', ' ']);
    }
    out
}

pub fn format_query(q: &Query, opt: &Options, indent: usize) -> (r: String)
    ensures
        r@ == query_text(*q, *opt, indent as nat),
    decreases *q,
{
    let mut components: Vec<String> = Vec::new();
    if q.ctes.len() > 0 {
        components.push(format_ctes_block(&q.ctes, opt, indent));
    }
    components.push(format_select(&q.body, opt, indent));
    if q.order_by.len() > 0 {
        components.push(format_order_by(&q.order_by, opt, indent));
    }
    proof {
        assert(components.deep_view() =~= query_components(*q, *opt, indent as nat));
    }
    opt.body_delimiter.join(components.as_slice())
}

pub fn format_statement(st: &Statement, opt: &Options, indent: usize) -> (r: String)
    ensures
        r@ == statement_text(*st, *opt, indent as nat),
    decreases *st,
{
    match st {
        Statement::Query(q) => format_query(q, opt, indent),
    }
}

#[verifier::loop_isolation(false)]
pub fn format_statements(list: &Vec<Statement>, opt: &Options, indent: usize) -> (r: String)
    ensures
        r@ == statements_text(*list, *opt, indent as nat),
    decreases *list,
{
    let mut rendered: Vec<String> = Vec::new();
    let mut i: usize = 0;
    while i < list.len()
        invariant
            i <= list.len(),
            rendered.deep_view() + statement_items(*list, i as int, *opt, indent as nat)
                =~= statement_items(*list, 0, *opt, indent as nat),
        decreases list.len() - i,
    {
        proof {
            vstd::std_specs::vec::axiom_vec_index_decreases(*list, i as int);
        }
        let piece = format_statement(&list[i], opt, indent);
        rendered.push(piece);
        proof {
            assert(statement_items(*list, i as int, *opt, indent as nat) == seq![
                statement_text(list@[i as int], *opt, indent as nat),
            ] + statement_items(*list, i + 1, *opt, indent as nat));
            assert(rendered.deep_view() + statement_items(*list, i + 1, *opt, indent as nat)
                =~= statement_items(*list, 0, *opt, indent as nat));
        }
        i = i + 1;
    }
    proof {
        assert(rendered.deep_view() =~= statement_items(*list, 0, *opt, indent as nat));
    }
    opt.query_delimiter.join(rendered.as_slice())
}

impl Format for Ident {
    open spec fn text(&self, opt: &Options, level: nat) -> Seq<char> {
        ident_text(*self, *opt, level)
    }

    fn format(&self, opt: &Options, indent: usize) -> (r: String) {
        format_ident(self, opt, indent)
    }
}

impl Format for Vec<Ident> {
    open spec fn text(&self, opt: &Options, level: nat) -> Seq<char> {
        idents_list_text(self@, *opt, level)
    }

    fn format(&self, opt: &Options, indent: usize) -> (r: String) {
        format_idents(self, opt, indent)
    }
}

impl Format for TableAlias {
    open spec fn text(&self, opt: &Options, level: nat) -> Seq<char> {
        alias_text(*self, *opt, level)
    }

    fn format(&self, opt: &Options, indent: usize) -> (r: String) {
        format_table_alias(self, opt, indent)
    }
}

impl Format for Expr {
    open spec fn text(&self, opt: &Options, level: nat) -> Seq<char> {
        self.text@
    }

    fn format(&self, opt: &Options, indent: usize) -> (r: String) {
        self.text.clone()
    }
}

impl Format for OrderByExpr {
    open spec fn text(&self, opt: &Options, level: nat) -> Seq<char> {
        obe_text(*self, *opt, level)
    }

    fn format(&self, opt: &Options, indent: usize) -> (r: String) {
        format_order_by_expr(self, opt, indent)
    }
}

impl Format for Vec<OrderByExpr> {
    open spec fn text(&self, opt: &Options, level: nat) -> Seq<char> {
        order_by_list_text(self@, *opt, level)
    }

    fn format(&self, opt: &Options, indent: usize) -> (r: String) {
        format_order_by(self, opt, indent)
    }
}

impl Format for Cte {
    open spec fn text(&self, opt: &Options, level: nat) -> Seq<char> {
        cte_text(*self, *opt, level)
    }

    fn format(&self, opt: &Options, indent: usize) -> (r: String) {
        format_cte(self, opt, indent)
    }
}

impl Format for Vec<Cte> {
    open spec fn text(&self, opt: &Options, level: nat) -> Seq<char> {
        ctes_block_text(*self, *opt, level)
    }

    fn format(&self, opt: &Options, indent: usize) -> (r: String) {
        format_ctes_block(self, opt, indent)
    }
}

impl Format for Query {
    open spec fn text(&self, opt: &Options, level: nat) -> Seq<char> {
        query_text(*self, *opt, level)
    }

    fn format(&self, opt: &Options, indent: usize) -> (r: String) {
        format_query(self, opt, indent)
    }
}

impl Format for Statement {
    open spec fn text(&self, opt: &Options, level: nat) -> Seq<char> {
        statement_text(*self, *opt, level)
    }

    fn format(&self, opt: &Options, indent: usize) -> (r: String) {
        format_statement(self, opt, indent)
    }
}

impl Format for Vec<Statement> {
    open spec fn text(&self, opt: &Options, level: nat) -> Seq<char> {
        statements_text(*self, *opt, level)
    }

    fn format(&self, opt: &Options, indent: usize) -> (r: String) {
        format_statements(self, opt, indent)
    }
}

} // verus!
