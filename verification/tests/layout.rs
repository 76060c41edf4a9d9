use squirrel::Options;
use squirrel::options::Case;
use squirrel::options::Comma;
use squirrel::options::Delimiter;
use squirrel::options::Indent;
use squirrel::options::Whitespace;

#[test]
fn whitespace_renders_runs() {
    assert_eq!(Whitespace::Empty.to_string(), "");
    assert_eq!(Whitespace::Space(3).to_string(), "   ");
    assert_eq!(Whitespace::Tab(2).to_string(), "\t\t");
    assert_eq!(Whitespace::NewLine(2).to_string(), "\n\n");
    assert_eq!(Whitespace::Space(0).to_string(), "");
}

#[test]
fn whitespace_combo_concatenates_in_order() {
    let combo = Whitespace::Combo(vec![
        Whitespace::NewLine(1),
        Whitespace::Space(2),
        Whitespace::Empty,
        Whitespace::Tab(1),
    ]);
    assert_eq!(combo.to_string(), "\n  \t");
}

#[test]
fn whitespace_combo_nests() {
    let combo = Whitespace::Combo(vec![
        Whitespace::Space(1),
        Whitespace::Combo(vec![Whitespace::Tab(1), Whitespace::Space(1)]),
    ]);
    assert_eq!(combo.to_string(), " \t ");
}

#[test]
fn indent_with_newline_unit_multiplies_line_breaks() {
    // A newline indent unit falls outside the indentation law's premise:
    // the inserted prefix then holds newlines of its own.
    let indent = Indent(Whitespace::NewLine(1));
    assert_eq!(indent.apply("a\nb", 1), "a\n\nb");
}

#[test]
fn indent_with_tab_unit() {
    let indent = Indent(Whitespace::Tab(1));
    assert_eq!(indent.apply("a\nb", 2), "a\n\t\tb");
}

#[test]
fn comma_renders_between_whitespace() {
    let short = Comma { before: Whitespace::Empty, after: Whitespace::Space(1) };
    assert_eq!(short.to_string(), ", ");
    let long = Comma { before: Whitespace::NewLine(1), after: Whitespace::Space(1) };
    assert_eq!(long.to_string(), "\n, ");
}

#[test]
fn delimiter_join_interposes() {
    let sep = Whitespace::Space(1);
    let items = vec![String::from("a"), String::from("b"), String::from("c")];
    assert_eq!(sep.join(&items), "a b c");
    assert_eq!(sep.join(&[]), "");
    assert_eq!(sep.join(&[String::from("one")]), "one");
}

#[test]
fn delimiter_join_with_indent_indents_line_breaks() {
    let long = Comma { before: Whitespace::NewLine(1), after: Whitespace::Space(1) };
    let indent = Indent(Whitespace::Space(4));
    let items = vec![String::from("a"), String::from("b")];
    assert_eq!(long.join_with_indent(&items, &indent, 1), "a\n    , b");
    assert_eq!(long.join_with_indent(&items, &indent, 2), "a\n        , b");
}

#[test]
fn indent_apply_prefixes_every_line_break() {
    let indent = Indent(Whitespace::Space(4));
    assert_eq!(indent.apply("a\nb\nc", 2), "a\n        b\n        c");
    assert_eq!(indent.apply("a\nb", 0), "a\nb");
    assert_eq!(indent.apply("plain", 3), "plain");
    assert_eq!(indent.apply("", 1), "");
}

#[test]
fn indent_apply_keeps_newline_count() {
    let indent = Indent(Whitespace::Space(2));
    let applied = indent.apply("x\ny\nz", 3);
    let before = "x\ny\nz".matches('\n').count();
    let after = applied.matches('\n').count();
    assert_eq!(before, after);
}

#[test]
fn case_apply_upper_and_lower() {
    assert_eq!(Case::Upper.apply("order by"), "ORDER BY");
    assert_eq!(Case::Lower.apply("ORDER BY"), "order by");
    assert_eq!(Case::Upper.apply("mixed Case 1"), "MIXED CASE 1");
    assert_eq!(Case::Lower.apply(""), "");
}

#[test]
fn case_apply_maps_unicode() {
    assert_eq!(Case::Lower.apply("\u{c4}B"), "\u{e4}b");
    assert_eq!(Case::Upper.apply("stra\u{df}e"), "STRASSE");
}

#[test]
fn options_defaults() {
    let opt = Options::default();
    assert_eq!(opt.line_limit, 95);
    assert_eq!(opt.indent.0.to_string(), "    ");
    assert_eq!(opt.body_delimiter.to_string(), "\n");
    assert_eq!(opt.subquery_delimiter.to_string(), "\n\n");
    assert_eq!(opt.query_delimiter.to_string(), "\n\n\n");
    assert_eq!(opt.long_comma_delimiter.to_string(), "\n, ");
    assert_eq!(opt.short_comma_delimiter.to_string(), ", ");
    assert!(opt.alias_quotes.is_none());
}

#[test]
fn line_limit_check_measures_each_line() {
    let mut opt = Options::default();
    opt.line_limit = 3;
    assert!(opt.adheres_to_line_limit("abc\ndef"));
    assert!(!opt.adheres_to_line_limit("abcd\nef"));
    assert!(!opt.adheres_to_line_limit("ab\ncdef"));
    assert!(opt.adheres_to_line_limit(""));
    assert!(opt.adheres_to_line_limit("\n\n\n"));
}

#[test]
fn join_with_commas_picks_compact_when_it_fits() {
    let opt = Options::default();
    let items = vec![String::from("a"), String::from("b")];
    assert_eq!(opt.join_with_commas("X ", &items, ";", 0), "X a, b;");
}

#[test]
fn join_with_commas_switches_to_expanded_form() {
    let mut opt = Options::default();
    opt.line_limit = 6;
    let items = vec![String::from("aaaa"), String::from("bbbb")];
    assert_eq!(opt.join_with_commas("", &items, "", 0), "aaaa\n, bbbb");
}

#[test]
fn join_with_commas_falls_back_to_most_verbose() {
    let mut opt = Options::default();
    opt.line_limit = 2;
    let items = vec![String::from("aaaa"), String::from("bbbb")];
    // Neither alternative fits; the expanded (last) one is still returned.
    assert_eq!(opt.join_with_commas("", &items, "", 0), "aaaa\n, bbbb");
}

#[test]
fn join_alternatives_empty_list_yields_none() {
    let opt = Options::default();
    let alternatives: [&Comma; 0] = [];
    let items = vec![String::from("a")];
    assert!(opt.join_alternatives(&alternatives, "", &items, "", 0).is_none());
}
