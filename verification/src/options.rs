//! Style configuration and the delimiter machinery: whitespace runs, commas,
//! the indent applier, keyword casing, and the alternative-selection
//! algorithm that picks the most compact rendering within the line limit.

use vstd::prelude::*;
use vstd::string::StrSliceExecFns;
use vstd::string::StringExecFns;

use crate::text::check_fits;
use crate::text::expand_newlines;
use crate::text::fits;
use crate::text::join_strings;
use crate::text::join_texts;
use crate::text::lower_char_exec;
use crate::text::nl_expand;
use crate::text::repeat_str;
use crate::text::repeat_text;
use crate::text::upper_char_exec;

verus! {

broadcast use vstd::std_specs::vec::axiom_vec_index_decreases;

/// An atomic renderable run of blank characters, or a sequence of such runs.
pub enum Whitespace {
    Empty,
    Space(u32),
    Tab(u32),
    NewLine(u32),
    Combo(Vec<Whitespace>),
}

/// The text a whitespace value renders to.
pub open spec fn ws_text(w: Whitespace) -> Seq<char>
    decreases w,
{
    match w {
        Whitespace::Empty => Seq::empty(),
        Whitespace::Space(n) => repeat_text(seq![' '], n as nat),
        Whitespace::Tab(n) => repeat_text(seq!['\t'], n as nat),
        Whitespace::NewLine(n) => repeat_text(seq!['\n'], n as nat),
        Whitespace::Combo(list) => combo_text_from(list, 0),
    }
}

/// The concatenated renderings of `list[i..]`.
pub open spec fn combo_text_from(list: Vec<Whitespace>, i: int) -> Seq<char>
    decreases list, list.len() - i,
{
    if 0 <= i < list.len() {
        ws_text(list[i]) + combo_text_from(list, i + 1)
    } else {
        Seq::empty()
    }
}

impl Whitespace {
    #[verifier::loop_isolation(false)]
    pub fn to_string(&self) -> (r: String)
        ensures
            r@ == ws_text(*self),
        decreases self,
    {
        proof {
            reveal_strlit(" ");
            reveal_strlit("\t");
            reveal_strlit("\n");
            assert(" "@ =~= seq![' ']);
            assert("\t"@ =~= seq!['\t']);
            assert("\n"@ =~= seq!['\n']);
        }
        match self {
            Whitespace::Empty => String::new(),
            Whitespace::Space(n) => repeat_str(" ", *n as usize),
            Whitespace::Tab(n) => repeat_str("\t", *n as usize),
            Whitespace::NewLine(n) => repeat_str("\n", *n as usize),
            Whitespace::Combo(list) => {
                let mut out = String::new();
                let mut i: usize = 0;
                while i < list.len()
                    invariant
                        i <= list.len(),
                        out@ + combo_text_from(*list, i as int) == combo_text_from(*list, 0),
                    decreases list.len() - i,
                {
                    let ghost prev = out@;
                    proof {
                        vstd::std_specs::vec::axiom_vec_index_decreases(*list, i as int);
                        assert(decreases_to!(*self => self->Combo_0));
                        assert(decreases_to!(*self => list@[i as int]));
                    }
                    let piece = list[i].to_string();
                    out.append(piece.as_str());
                    proof {
                        assert(combo_text_from(*list, i as int) == ws_text(list@[i as int])
                            + combo_text_from(*list, i + 1));
                        assert(out@ + combo_text_from(*list, i + 1) =~= prev + combo_text_from(
                            *list,
                            i as int,
                        ));
                    }
                    i = i + 1;
                }
                proof {
                    assert(out@ + combo_text_from(*list, list.len() as int) =~= out@);
                }
                out
            },
        }
    }
}

/// Whitespace renders to blank characters only: spaces, tabs and newlines.
pub proof fn lemma_ws_text_blank(w: Whitespace)
    ensures
        forall|i: int|
            0 <= i < ws_text(w).len() ==> crate::text::is_blank_char(#[trigger] ws_text(w)[i]),
    decreases w,
{
    match w {
        Whitespace::Empty => {},
        Whitespace::Space(n) => {
            assert(crate::text::all_chars(seq![' '], |c: char| crate::text::is_blank_char(c)));
            crate::text::lemma_repeat_all_chars(
                seq![' '],
                n as nat,
                |c: char| crate::text::is_blank_char(c),
            );
        },
        Whitespace::Tab(n) => {
            assert(crate::text::all_chars(seq!['\t'], |c: char| crate::text::is_blank_char(c)));
            crate::text::lemma_repeat_all_chars(
                seq!['\t'],
                n as nat,
                |c: char| crate::text::is_blank_char(c),
            );
        },
        Whitespace::NewLine(n) => {
            assert(crate::text::all_chars(seq!['\n'], |c: char| crate::text::is_blank_char(c)));
            crate::text::lemma_repeat_all_chars(
                seq!['\n'],
                n as nat,
                |c: char| crate::text::is_blank_char(c),
            );
        },
        Whitespace::Combo(list) => {
            lemma_combo_blank(list, 0);
            assert forall|i: int| 0 <= i < ws_text(w).len() implies crate::text::is_blank_char(
                #[trigger] ws_text(w)[i],
            ) by {
                assert(ws_text(w)[i] == combo_text_from(list, 0)[i]);
            }
        },
    }
}

proof fn lemma_combo_blank(list: Vec<Whitespace>, i: int)
    ensures
        forall|k: int|
            0 <= k < combo_text_from(list, i).len() ==> crate::text::is_blank_char(
                #[trigger] combo_text_from(list, i)[k],
            ),
    decreases list, list.len() - i,
{
    if 0 <= i < list.len() {
        lemma_ws_text_blank(list[i]);
        lemma_combo_blank(list, i + 1);
        let head = ws_text(list[i]);
        let rest = combo_text_from(list, i + 1);
        assert forall|k: int| 0 <= k < combo_text_from(list, i).len() implies
            crate::text::is_blank_char(#[trigger] combo_text_from(list, i)[k]) by {
            if k < head.len() {
                assert(combo_text_from(list, i)[k] == head[k]);
            } else {
                assert(combo_text_from(list, i)[k] == rest[k - head.len()]);
            }
        }
    }
}

/// A comma separator flanked by a whitespace run on either side.
pub struct Comma {
    pub before: Whitespace,
    pub after: Whitespace,
}

/// The text a comma delimiter renders to: its `before` whitespace,
/// the comma character, then its `after` whitespace.
pub open spec fn comma_text(c: Comma) -> Seq<char> {
    ws_text(c.before) + seq![','] + ws_text(c.after)
}

impl Comma {
    pub fn to_string(&self) -> (r: String)
        ensures
            r@ == comma_text(*self),
    {
        let mut out = self.before.to_string();
        out.append(",");
        let after = self.after.to_string();
        out.append(after.as_str());
        proof {
            reveal_strlit(",");
            assert(out@ =~= comma_text(*self));
        }
        out
    }

    /// The whitespace written before the comma character.
    pub fn as_whitespace(&self) -> (r: &Whitespace)
        ensures
            *r == self.before,
    {
        &self.before
    }
}

/// The unit of indentation; applying it at a nesting level prefixes
/// every line break with `level` repetitions of the unit's rendering.
pub struct Indent(pub Whitespace);

/// The prefix inserted after each newline at the given nesting level.
pub open spec fn indent_prefix(ind: Indent, level: nat) -> Seq<char> {
    repeat_text(ws_text(ind.0), level)
}

impl Indent {
    pub fn apply(&self, s: &str, i: usize) -> (r: String)
        ensures
            r@ == nl_expand(s@, indent_prefix(*self, i as nat)),
    {
        let unit = self.0.to_string();
        let prefix = repeat_str(unit.as_str(), i);
        expand_newlines(s, prefix.as_str())
    }
}

/// Indentation correctness: applying the indent to `s` at level `k`
/// keeps exactly as many newlines as `s` has, each followed immediately
/// by `k` repetitions of the unit's rendering (stated for units that
/// themselves render without newlines).
pub proof fn lemma_indentation(s: Seq<char>, ind: Indent, level: nat)
    requires
        forall|i: int| 0 <= i < ws_text(ind.0).len() ==> ws_text(ind.0)[i] != '\n',
    ensures
        crate::text::count_char(nl_expand(s, indent_prefix(ind, level)), '\n')
            == crate::text::count_char(s, '\n'),
        forall|i: int|
            0 <= i < nl_expand(s, indent_prefix(ind, level)).len() && nl_expand(
                s,
                indent_prefix(ind, level),
            )[i] == '\n' ==> i + 1 + indent_prefix(ind, level).len() <= nl_expand(
                s,
                indent_prefix(ind, level),
            ).len() && nl_expand(s, indent_prefix(ind, level)).subrange(
                i + 1,
                i + 1 + indent_prefix(ind, level).len(),
            ) == indent_prefix(ind, level),
{
    let p = |c: char| c != '\n';
    let prefix = indent_prefix(ind, level);
    assert(crate::text::all_chars(ws_text(ind.0), p));
    crate::text::lemma_repeat_all_chars(ws_text(ind.0), level, p);
    assert forall|k: int| 0 <= k < prefix.len() implies prefix[k] != '\n' by {
        assert(p(prefix[k]));
    }
    crate::text::lemma_nl_expand(s, prefix);
}

/// Keyword casing: render keywords entirely lower-case or entirely upper-case.
pub enum Case {
    Lower,
    Upper,
}

/// The ASCII case mapping a casing choice applies to one character.
pub open spec fn case_char(c: Case, ch: char) -> char {
    match c {
        Case::Upper => crate::text::upper_char(ch),
        Case::Lower => crate::text::lower_char(ch),
    }
}

/// A string case-transformed character by character through the ASCII
/// tables. Exact for ASCII text such as the keyword spellings; general
/// Unicode casing goes through `case_of` instead.
pub open spec fn cased_text(c: Case, s: Seq<char>) -> Seq<char> {
    Seq::new(s.len(), |i: int| case_char(c, s[i]))
}

/// What a casing choice does to arbitrary text: the Unicode case mapping
/// of `str::to_uppercase` / `str::to_lowercase`.
pub open spec fn case_of(c: Case, s: Seq<char>) -> Seq<char> {
    match c {
        Case::Upper => crate::text::upper_of(s),
        Case::Lower => crate::text::lower_of(s),
    }
}

impl Case {
    pub fn apply(&self, s: &str) -> (r: String)
        ensures
            r@ == case_of(*self, s@),
    {
        match self {
            Case::Upper => crate::text::uppercase(s),
            Case::Lower => crate::text::lowercase(s),
        }
    }
}

/// The ASCII case transform, proved character by character; the keyword
/// renderer uses it on the fixed spellings, where it agrees with the
/// Unicode mapping.
pub(crate) fn cased_str_ascii(case: &Case, s: &str) -> (r: String)
    ensures
        r@ == cased_text(*case, s@),
{
    let n = s.unicode_len();
    let mut out = String::new();
    let mut i: usize = 0;
    while i < n
        invariant
            i <= n,
            n == s@.len(),
            out@ == cased_text(*case, s@).take(i as int),
        decreases n - i,
    {
        let c = s.get_char(i);
        let m = match case {
            Case::Upper => upper_char_exec(c),
            Case::Lower => lower_char_exec(c),
        };
        out.push(m);
        proof {
            assert(out@ =~= cased_text(*case, s@).take(i + 1));
        }
        i = i + 1;
    }
    proof {
        assert(cased_text(*case, s@).take(n as int) =~= cased_text(*case, s@));
    }
    out
}

/// A renderable separator that can join a sequence of text fragments,
/// optionally indentation-aware.
pub trait Delimiter {
    /// The text this delimiter renders to.
    spec fn text(&self) -> Seq<char>;

    fn render(&self) -> (r: String)
        ensures
            r@ == self.text(),
    ;

    fn join(&self, items: &[String]) -> (r: String)
        ensures
            r@ == join_texts(self.text(), items.deep_view()),
    ;

    fn join_with_indent(&self, items: &[String], indent: &Indent, level: usize) -> (r: String)
        ensures
            r@ == join_texts(
                nl_expand(self.text(), indent_prefix(*indent, level as nat)),
                items.deep_view(),
            ),
    ;
}

impl Delimiter for Whitespace {
    open spec fn text(&self) -> Seq<char> {
        ws_text(*self)
    }

    fn render(&self) -> (r: String) {
        self.to_string()
    }

    fn join(&self, items: &[String]) -> (r: String) {
        let sep = self.to_string();
        join_strings(sep.as_str(), items)
    }

    fn join_with_indent(&self, items: &[String], indent: &Indent, level: usize) -> (r: String) {
        let sep = self.to_string();
        let indented = indent.apply(sep.as_str(), level);
        join_strings(indented.as_str(), items)
    }
}

impl Delimiter for Comma {
    open spec fn text(&self) -> Seq<char> {
        comma_text(*self)
    }

    fn render(&self) -> (r: String) {
        self.to_string()
    }

    fn join(&self, items: &[String]) -> (r: String) {
        let sep = self.to_string();
        join_strings(sep.as_str(), items)
    }

    fn join_with_indent(&self, items: &[String], indent: &Indent, level: usize) -> (r: String) {
        let sep = self.to_string();
        let indented = indent.apply(sep.as_str(), level);
        join_strings(indented.as_str(), items)
    }
}

/// The style parameters of one render pass; immutable while rendering.
pub struct Options {
    pub line_limit: usize,
    pub indent: Indent,
    pub keyword_case: Case,
    pub body_delimiter: Whitespace,
    pub subquery_delimiter: Whitespace,
    pub query_delimiter: Whitespace,
    pub long_comma_delimiter: Comma,
    pub short_comma_delimiter: Comma,
    pub alias_quotes: Option<bool>,
    pub alias_position: usize,
}

impl Default for Options {
    fn default() -> (r: Options)
        ensures
            r.line_limit == 95,
            r.indent.0 == Whitespace::Space(4),
            r.keyword_case == Case::Upper,
            r.body_delimiter == Whitespace::NewLine(1),
            r.subquery_delimiter == Whitespace::NewLine(2),
            r.query_delimiter == Whitespace::NewLine(3),
            r.long_comma_delimiter.before == Whitespace::NewLine(1),
            r.long_comma_delimiter.after == Whitespace::Space(1),
            r.short_comma_delimiter.before == Whitespace::Empty,
            r.short_comma_delimiter.after == Whitespace::Space(1),
            r.alias_quotes == Option::<bool>::None,
            r.alias_position == 40,
    {
        Options {
            line_limit: 95,
            indent: Indent(Whitespace::Space(4)),
            keyword_case: Case::Upper,
            body_delimiter: Whitespace::NewLine(1),
            subquery_delimiter: Whitespace::NewLine(2),
            query_delimiter: Whitespace::NewLine(3),
            long_comma_delimiter: Comma {
                before: Whitespace::NewLine(1),
                after: Whitespace::Space(1),
            },
            short_comma_delimiter: Comma {
                before: Whitespace::Empty,
                after: Whitespace::Space(1),
            },
            alias_quotes: None,
            alias_position: 40,
        }
    }
}

/// One candidate rendering for alternative selection: the prefix, the items
/// joined by the delimiter text indented to `level`, then the suffix.
pub open spec fn candidate_text(
    d: Seq<char>,
    prefix: Seq<char>,
    items: Seq<Seq<char>>,
    suffix: Seq<char>,
    ind: Indent,
    level: nat,
) -> Seq<char> {
    prefix + join_texts(nl_expand(d, indent_prefix(ind, level)), items) + suffix
}

/// The first candidate, in order from most compact to most verbose, whose
/// every line stays within the limit; the last candidate if none does.
pub open spec fn select_text(cands: Seq<Seq<char>>, limit: nat) -> Seq<char>
    decreases cands.len(),
{
    if cands.len() == 0 {
        Seq::empty()
    } else if cands.len() == 1 || fits(cands.first(), limit) {
        cands.first()
    } else {
        select_text(cands.drop_first(), limit)
    }
}

proof fn lemma_select_skip(cands: Seq<Seq<char>>, limit: nat, i: int)
    requires
        0 <= i < cands.len(),
        forall|j: int| 0 <= j < i ==> !fits(#[trigger] cands[j], limit),
    ensures
        select_text(cands, limit) == select_text(cands.skip(i), limit),
    decreases i,
{
    if i > 0 {
        assert(!fits(cands.first(), limit));
        lemma_select_skip(cands.drop_first(), limit, i - 1);
        assert(cands.drop_first().skip(i - 1) =~= cands.skip(i));
    } else {
        assert(cands.skip(0) =~= cands);
    }
}

/// Whenever some candidate keeps every line within the limit, so does the
/// selected rendering.
pub proof fn lemma_selected_fits(cands: Seq<Seq<char>>, limit: nat)
    requires
        exists|i: int| 0 <= i < cands.len() && fits(#[trigger] cands[i], limit),
    ensures
        fits(select_text(cands, limit), limit),
    decreases cands.len(),
{
    let i = choose|i: int| 0 <= i < cands.len() && fits(#[trigger] cands[i], limit);
    if cands.len() == 1 || fits(cands.first(), limit) {
        if !fits(cands.first(), limit) {
            assert(cands[i] == cands.first());
        }
    } else {
        assert(cands.drop_first()[i - 1] == cands[i]);
        lemma_selected_fits(cands.drop_first(), limit);
    }
}

/// When no candidate fits, the most verbose (last) candidate is selected:
/// verbosity is the fallback of last resort, output is never omitted.
pub proof fn lemma_select_fallback(cands: Seq<Seq<char>>, limit: nat)
    requires
        cands.len() > 0,
        forall|i: int| 0 <= i < cands.len() ==> !fits(#[trigger] cands[i], limit),
    ensures
        select_text(cands, limit) == cands.last(),
    decreases cands.len(),
{
    if cands.len() > 1 {
        assert(forall|i: int|
            0 <= i < cands.drop_first().len() ==> !fits(
                #[trigger] cands.drop_first()[i],
                limit,
            ));
        lemma_select_fallback(cands.drop_first(), limit);
    }
}

/// The selection always returns one of the candidates.
pub proof fn lemma_select_is_candidate(cands: Seq<Seq<char>>, limit: nat)
    requires
        cands.len() > 0,
    ensures
        exists|i: int| 0 <= i < cands.len() && select_text(cands, limit) == #[trigger] cands[i],
    decreases cands.len(),
{
    if cands.len() == 1 || fits(cands.first(), limit) {
        assert(select_text(cands, limit) == cands[0]);
    } else {
        lemma_select_is_candidate(cands.drop_first(), limit);
        let i = choose|i: int|
            0 <= i < cands.drop_first().len() && select_text(cands.drop_first(), limit)
                == #[trigger] cands.drop_first()[i];
        assert(cands.drop_first()[i] == cands[i + 1]);
    }
}

impl Options {
    /// The candidate renderings that `join_alternatives` weighs, one per
    /// delimiter, in the given order.
    pub open spec fn candidates_of<D: Delimiter>(
        &self,
        alternatives: Seq<&D>,
        prefix: Seq<char>,
        items: Seq<Seq<char>>,
        suffix: Seq<char>,
        level: nat,
    ) -> Seq<Seq<char>> {
        Seq::new(
            alternatives.len(),
            |i: int| candidate_text(alternatives[i].text(), prefix, items, suffix, self.indent, level),
        )
    }

    pub fn adheres_to_line_limit(&self, s: &str) -> (r: bool)
        ensures
            r == fits(s@, self.line_limit as nat),
    {
        check_fits(s, self.line_limit)
    }

    pub fn join_alternatives<D: Delimiter>(
        &self,
        alternatives: &[&D],
        prefix: &str,
        items: &[String],
        suffix: &str,
        indent: usize,
    ) -> (r: Option<String>)
        ensures
            (r is Some) <==> alternatives@.len() > 0,
            r matches Some(out) ==> out@ == select_text(
                self.candidates_of(alternatives@, prefix@, items.deep_view(), suffix@, indent as nat),
                self.line_limit as nat,
            ),
    {
        let ghost cands = self.candidates_of(
            alternatives@,
            prefix@,
            items.deep_view(),
            suffix@,
            indent as nat,
        );
        let n = alternatives.len();
        let mut i: usize = 0;
        while i < n
            invariant
                i <= n,
                n == alternatives@.len(),
                cands == self.candidates_of(
                    alternatives@,
                    prefix@,
                    items.deep_view(),
                    suffix@,
                    indent as nat,
                ),
                cands.len() == n,
                n > 0 ==> i < n,
                forall|j: int| 0 <= j < i ==> !fits(#[trigger] cands[j], self.line_limit as nat),
            decreases n - i,
        {
            let joined = alternatives[i].join_with_indent(items, &self.indent, indent);
            let mut cand = prefix.to_owned();
            cand.append(joined.as_str());
            cand.append(suffix);
            proof {
                assert(cand@ == cands[i as int]);
            }
            if i == n - 1 || self.adheres_to_line_limit(cand.as_str()) {
                proof {
                    lemma_select_skip(cands, self.line_limit as nat, i as int);
                    assert(cands.skip(i as int).first() == cands[i as int]);
                    assert(cands.skip(i as int).len() == 1 || fits(
                        cands.skip(i as int).first(),
                        self.line_limit as nat,
                    ));
                }
                return Some(cand);
            }
            i = i + 1;
        }
        None
    }

    /// The two comma candidates weighed by `join_with_commas`: the compact
    /// comma first, the expanded comma as the verbose fallback.
    pub open spec fn comma_candidates(
        &self,
        prefix: Seq<char>,
        items: Seq<Seq<char>>,
        suffix: Seq<char>,
        level: nat,
    ) -> Seq<Seq<char>> {
        seq![
            candidate_text(
                comma_text(self.short_comma_delimiter),
                prefix,
                items,
                suffix,
                self.indent,
                level,
            ),
            candidate_text(
                comma_text(self.long_comma_delimiter),
                prefix,
                items,
                suffix,
                self.indent,
                level,
            ),
        ]
    }

    pub fn join_with_commas(
        &self,
        prefix: &str,
        items: &[String],
        suffix: &str,
        indent: usize,
    ) -> (r: String)
        ensures
            r@ == select_text(
                self.comma_candidates(prefix@, items.deep_view(), suffix@, indent as nat),
                self.line_limit as nat,
            ),
    {
        let alternatives: [&Comma; 2] = [&self.short_comma_delimiter, &self.long_comma_delimiter];
        let r = self.join_alternatives(alternatives.as_slice(), prefix, items, suffix, indent);
        proof {
            assert(self.candidates_of(
                alternatives@,
                prefix@,
                items.deep_view(),
                suffix@,
                indent as nat,
            ) =~= self.comma_candidates(prefix@, items.deep_view(), suffix@, indent as nat));
        }
        match r {
            Some(out) => out,
            None => vstd::pervasive::unreached(),
        }
    }
}

} // verus!
