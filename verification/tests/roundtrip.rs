use sqlparser::ast as sql;
use sqlparser::dialect::PostgreSqlDialect;
use sqlparser::parser::Parser;

use squirrel::Format;
use squirrel::Options;
use squirrel::format::query::Expr;
use squirrel::format::query::Ident;
use squirrel::format::query::OrderByExpr;
use squirrel::format::query::Query;
use squirrel::format::query::Statement;
use squirrel::format::select::Select;
use squirrel::format::select::SelectItem;
use squirrel::format::select::TableWithJoins;

fn convert_select(s: &sql::Select) -> Select {
    let projection = s
        .projection
        .iter()
        .map(|it| match it {
            sql::SelectItem::ExprWithAlias { expr, alias } => SelectItem {
                expr: Expr { text: expr.to_string() },
                alias: Some(Ident { text: alias.to_string() }),
            },
            other => SelectItem { expr: Expr { text: other.to_string() }, alias: None },
        })
        .collect();
    let from = s
        .from
        .iter()
        .map(|t| TableWithJoins { text: t.to_string() })
        .collect();
    Select { distinct: s.distinct.is_some(), projection, from }
}

fn convert_query(q: &sql::Query) -> Query {
    let body = match q.body.as_ref() {
        sql::SetExpr::Select(s) => convert_select(s),
        other => panic!("test input uses an unsupported query body: {other}"),
    };
    let order_by = match &q.order_by {
        None => vec![],
        Some(ob) => match &ob.kind {
            sql::OrderByKind::Expressions(exprs) => exprs
                .iter()
                .map(|e| OrderByExpr {
                    expr: Expr { text: e.expr.to_string() },
                    asc: match &e.options.sort {
                        Some(sql::OrderBySort::Asc) => Some(true),
                        Some(sql::OrderBySort::Desc) => Some(false),
                        _ => None,
                    },
                })
                .collect(),
            other => panic!("test input uses an unsupported order by: {other:?}"),
        },
    };
    Query { ctes: vec![], body, order_by }
}

fn parse_and_render(input: &str) -> String {
    let dialect = PostgreSqlDialect {};
    let parsed = Parser::parse_sql(&dialect, input).expect("test input parses");
    let statements: Vec<Statement> = parsed
        .iter()
        .map(|st| match st {
            sql::Statement::Query(q) => Statement::Query(convert_query(q)),
            other => panic!("test input uses an unsupported statement: {other}"),
        })
        .collect();
    let options = Options::default();
    statements.format(&options, 0)
}

#[test]
fn parsed_simple_select_renders_as_expected() {
    assert_eq!(parse_and_render("SELECT a, b FROM t"), "SELECT a, b\nFROM t");
}

#[test]
fn rendered_output_reparses_to_identical_text() {
    let first = parse_and_render("select a, b from t order by a");
    let second = parse_and_render(&first);
    assert_eq!(first, second);
}

#[test]
fn rendered_alias_output_reparses_to_identical_text() {
    let first = parse_and_render("SELECT a AS x, b FROM t");
    let second = parse_and_render(&first);
    assert_eq!(first, second);
}
