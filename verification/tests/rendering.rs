use squirrel::Format;
use squirrel::Options;
use squirrel::format::base::NodeKind;
use squirrel::format::base::UnsupportedConstruct;
use squirrel::format::keywords::Keyword;
use squirrel::format::query::Cte;
use squirrel::format::query::Expr;
use squirrel::format::query::Ident;
use squirrel::format::query::OrderByExpr;
use squirrel::format::query::Query;
use squirrel::format::query::Statement;
use squirrel::format::query::TableAlias;
use squirrel::format::select::Select;
use squirrel::format::select::SelectItem;
use squirrel::format::select::TableWithJoins;
use squirrel::options::Case;

fn item(expr: &str) -> SelectItem {
    SelectItem { expr: Expr { text: String::from(expr) }, alias: None }
}

fn aliased(expr: &str, alias: &str) -> SelectItem {
    SelectItem {
        expr: Expr { text: String::from(expr) },
        alias: Some(Ident { text: String::from(alias) }),
    }
}

fn table(text: &str) -> TableWithJoins {
    TableWithJoins { text: String::from(text) }
}

fn select(items: Vec<SelectItem>, from: Vec<TableWithJoins>) -> Select {
    Select { distinct: false, projection: items, from }
}

fn plain_query(body: Select) -> Query {
    Query { ctes: vec![], body, order_by: vec![] }
}

#[test]
fn keyword_casing_upper() {
    let opt = Options::default();
    assert_eq!(Keyword::Select.format(&opt, 0), "SELECT");
    assert_eq!(Keyword::OrderBy.format(&opt, 0), "ORDER BY");
    assert_eq!(Keyword::Distinct.format(&opt, 0), "DISTINCT");
}

#[test]
fn keyword_casing_lower() {
    let mut opt = Options::default();
    opt.keyword_case = Case::Lower;
    assert_eq!(Keyword::OrderBy.format(&opt, 0), "order by");
    assert_eq!(Keyword::From.format(&opt, 0), "from");
}

#[test]
fn keyword_indented_at_level() {
    let opt = Options::default();
    assert_eq!(Keyword::Select.format(&opt, 1), "    SELECT");
    assert_eq!(Keyword::Select.format(&opt, 2), "        SELECT");
}

#[test]
fn simple_select_splits_from_onto_its_own_line() {
    let opt = Options::default();
    let q = plain_query(select(vec![item("a"), item("b")], vec![table("t")]));
    assert_eq!(q.format(&opt, 0), "SELECT a, b\nFROM t");
}

#[test]
fn rendering_is_deterministic() {
    let opt = Options::default();
    let q = plain_query(select(vec![item("a"), item("b")], vec![table("t")]));
    let first = q.format(&opt, 0);
    let second = q.format(&opt, 0);
    assert_eq!(first, second);
}

#[test]
fn long_projection_switches_to_expanded_form() {
    let opt = Options::default();
    let wide_a = "a".repeat(50);
    let wide_b = "b".repeat(50);
    let q = plain_query(select(vec![item(&wide_a), item(&wide_b)], vec![]));
    let rendered = q.format(&opt, 0);
    let expected = format!("SELECT\n    {}\n    , {}", wide_a, wide_b);
    assert_eq!(rendered, expected);
}

#[test]
fn expanded_form_lines_stay_within_limit_when_possible() {
    let opt = Options::default();
    let wide_a = "a".repeat(50);
    let wide_b = "b".repeat(50);
    let q = plain_query(select(vec![item(&wide_a), item(&wide_b)], vec![]));
    let rendered = q.format(&opt, 0);
    for line in rendered.lines() {
        assert!(line.len() <= opt.line_limit);
    }
}

#[test]
fn expanded_form_aligns_alias_to_position() {
    let opt = Options::default();
    let wide = "a".repeat(100);
    let q = plain_query(select(vec![item(&wide), aliased("b", "c")], vec![]));
    let rendered = q.format(&opt, 0);
    // The short expression is padded with spaces up to column 40.
    let padded = format!("b{}AS c", " ".repeat(39));
    assert!(rendered.contains(&padded));
}

#[test]
fn expanded_form_moves_alias_past_position_to_next_line() {
    let opt = Options::default();
    let wide = "a".repeat(100);
    let q = plain_query(select(vec![aliased(&wide, "c"), item("b")], vec![]));
    let rendered = q.format(&opt, 0);
    // The expression reaches column 40, so the alias moves to the next
    // line, indented to that column (plus the block indent).
    let moved = format!("{}\n    {}AS c", wide, " ".repeat(40));
    assert!(rendered.contains(&moved));
}

#[test]
fn distinct_follows_select_keyword() {
    let opt = Options::default();
    let mut s = select(vec![item("a")], vec![table("t")]);
    s.distinct = true;
    let q = plain_query(s);
    assert_eq!(q.format(&opt, 0), "SELECT DISTINCT a\nFROM t");
}

#[test]
fn order_by_without_direction_has_no_qualifier() {
    let opt = Options::default();
    let mut q = plain_query(select(vec![item("a")], vec![table("t")]));
    q.order_by = vec![OrderByExpr { expr: Expr { text: String::from("col") }, asc: None }];
    let rendered = q.format(&opt, 0);
    assert_eq!(rendered, "SELECT a\nFROM t\nORDER BY col");
    assert!(!rendered.contains("ASC"));
    assert!(!rendered.contains("DESC"));
}

#[test]
fn order_by_with_explicit_directions() {
    let opt = Options::default();
    let mut q = plain_query(select(vec![item("a")], vec![table("t")]));
    q.order_by = vec![
        OrderByExpr { expr: Expr { text: String::from("x") }, asc: Some(true) },
        OrderByExpr { expr: Expr { text: String::from("y") }, asc: Some(false) },
    ];
    assert_eq!(q.format(&opt, 0), "SELECT a\nFROM t\nORDER BY x ASC, y DESC");
}

#[test]
fn cte_nests_inner_query_one_level_deeper() {
    let opt = Options::default();
    let inner = plain_query(select(vec![item("1")], vec![]));
    let outer_body = select(vec![item("a")], vec![table("x")]);
    let q = Query {
        ctes: vec![Cte {
            alias: TableAlias { name: Ident { text: String::from("x") }, columns: vec![] },
            query: inner,
        }],
        body: outer_body,
        order_by: vec![],
    };
    let rendered = q.format(&opt, 0);
    assert_eq!(rendered, "WITH x AS (\n\n    SELECT 1\n\n)\nSELECT a\nFROM x");
    // The inner query sits one indent unit deeper than the WITH keyword.
    assert!(rendered.contains("\n    SELECT 1"));
}

#[test]
fn table_alias_renders_column_list() {
    let opt = Options::default();
    let alias = TableAlias {
        name: Ident { text: String::from("t") },
        columns: vec![Ident { text: String::from("a") }, Ident { text: String::from("b") }],
    };
    assert_eq!(alias.format(&opt, 0), "t (a, b)");
}

#[test]
fn from_clause_joins_tables_with_commas() {
    let opt = Options::default();
    let q = plain_query(select(vec![item("a")], vec![table("t1"), table("t2")]));
    assert_eq!(q.format(&opt, 0), "SELECT a\nFROM t1, t2");
}

#[test]
fn statements_joined_by_statement_delimiter() {
    let opt = Options::default();
    let q1 = Statement::Query(plain_query(select(vec![item("a")], vec![table("t")])));
    let q2 = Statement::Query(plain_query(select(vec![item("b")], vec![table("u")])));
    let script = vec![q1, q2];
    assert_eq!(script.format(&opt, 0), "SELECT a\nFROM t\n\n\nSELECT b\nFROM u");
}

#[test]
fn alias_policy_unquoted_lower_cases_and_strips_quotes() {
    let mut opt = Options::default();
    opt.alias_quotes = Some(false);
    let q = plain_query(select(vec![aliased("a", "\"XY\"")], vec![]));
    assert_eq!(q.format(&opt, 0), "SELECT a AS xy");
}

#[test]
fn alias_policy_quoted_re_quotes() {
    let mut opt = Options::default();
    opt.alias_quotes = Some(true);
    let q = plain_query(select(vec![aliased("a", "XY")], vec![]));
    assert_eq!(q.format(&opt, 0), "SELECT a AS \"xy\"");
}

#[test]
fn alias_without_policy_is_kept_verbatim() {
    let opt = Options::default();
    let q = plain_query(select(vec![aliased("a", "\"XY\"")], vec![]));
    assert_eq!(q.format(&opt, 0), "SELECT a AS \"XY\"");
}

#[test]
fn alias_policy_trims_repeated_quotes() {
    let mut opt = Options::default();
    opt.alias_quotes = Some(false);
    let q = plain_query(select(vec![aliased("a", "\"\"AB\"\"")], vec![]));
    assert_eq!(q.format(&opt, 0), "SELECT a AS ab");
}

#[test]
fn alias_policy_lower_cases_unicode() {
    let mut opt = Options::default();
    opt.alias_quotes = Some(false);
    let q = plain_query(select(vec![aliased("a", "\"\u{c4}Y\"")], vec![]));
    assert_eq!(q.format(&opt, 0), "SELECT a AS \u{e4}y");
}

#[test]
fn unsupported_construct_names_the_node_kind() {
    let err = UnsupportedConstruct { kind: NodeKind::Limit };
    assert_eq!(err.message(), "unsupported construct: limit clause");
    let err = UnsupportedConstruct { kind: NodeKind::QueryBody };
    assert_eq!(err.message(), "unsupported construct: query body");
    let err = UnsupportedConstruct { kind: NodeKind::Offset };
    assert_eq!(err.message(), "unsupported construct: offset clause");
    let err = UnsupportedConstruct { kind: NodeKind::DistinctForm };
    assert_eq!(err.message(), "unsupported construct: distinct form");
    let err = UnsupportedConstruct { kind: NodeKind::OrderByForm };
    assert_eq!(err.message(), "unsupported construct: order by form");
}
