//! Low-level text primitives shared by the layout engine: repetition,
//! joining, newline expansion (the indent applier's core), line-width
//! checking, and ASCII case mapping.

use vstd::prelude::*;
use vstd::string::StrSliceExecFns;
use vstd::string::StringExecFns;

verus! {

/// Relies on `String::push`: appends the given character to the end of the string.
pub assume_specification[ String::push ](s: &mut String, ch: char)
    ensures
        final(s)@ == old(s)@.push(ch),
;

/// `unit` repeated `n` times, in order.
pub open spec fn repeat_text(unit: Seq<char>, n: nat) -> Seq<char>
    decreases n,
{
    if n == 0 {
        Seq::empty()
    } else {
        repeat_text(unit, (n - 1) as nat) + unit
    }
}

/// The items interposed with `sep`: no separator before the first item
/// or after the last, the empty text for no items.
pub open spec fn join_texts(sep: Seq<char>, items: Seq<Seq<char>>) -> Seq<char>
    decreases items.len(),
{
    if items.len() == 0 {
        Seq::empty()
    } else if items.len() == 1 {
        items[0]
    } else {
        join_texts(sep, items.drop_last()) + sep + items.last()
    }
}

/// `s` with `prefix` inserted immediately after every newline character;
/// all characters of `s`, the newlines included, are kept in place.
pub open spec fn nl_expand(s: Seq<char>, prefix: Seq<char>) -> Seq<char>
    decreases s.len(),
{
    if s.len() == 0 {
        Seq::empty()
    } else {
        nl_expand(s.drop_last(), prefix) + (if s.last() == '\n' {
            seq!['\n'] + prefix
        } else {
            seq![s.last()]
        })
    }
}

/// No newline occurs at positions `i..j` of `s`.
pub open spec fn line_free(s: Seq<char>, i: int, j: int) -> bool {
    forall|k: int| i <= k < j ==> s[k] != '\n'
}

/// Every line of `s` has at most `limit` characters. A line is a maximal
/// run free of newline characters; its length is deliberately counted in
/// characters, not bytes, and a carriage return counts like any other
/// character.
pub open spec fn fits(s: Seq<char>, limit: nat) -> bool {
    forall|i: int, j: int|
        0 <= i <= j <= s.len() && #[trigger] line_free(s, i, j) ==> j - i <= limit
}

/// `c` is an ASCII lower-case letter.
pub open spec fn is_ascii_lower(c: char) -> bool {
    97 <= c as u32 && c as u32 <= 122
}

/// `c` is an ASCII upper-case letter.
pub open spec fn is_ascii_upper(c: char) -> bool {
    65 <= c as u32 && c as u32 <= 90
}

/// ASCII upper-casing of one character: maps `a`..`z` to `A`..`Z` and
/// leaves every other character unchanged.
pub open spec fn upper_char(c: char) -> char {
    if c == 'a' { 'A' } else if c == 'b' { 'B' } else if c == 'c' { 'C' }
    else if c == 'd' { 'D' } else if c == 'e' { 'E' } else if c == 'f' { 'F' }
    else if c == 'g' { 'G' } else if c == 'h' { 'H' } else if c == 'i' { 'I' }
    else if c == 'j' { 'J' } else if c == 'k' { 'K' } else if c == 'l' { 'L' }
    else if c == 'm' { 'M' } else if c == 'n' { 'N' } else if c == 'o' { 'O' }
    else if c == 'p' { 'P' } else if c == 'q' { 'Q' } else if c == 'r' { 'R' }
    else if c == 's' { 'S' } else if c == 't' { 'T' } else if c == 'u' { 'U' }
    else if c == 'v' { 'V' } else if c == 'w' { 'W' } else if c == 'x' { 'X' }
    else if c == 'y' { 'Y' } else if c == 'z' { 'Z' } else { c }
}

/// ASCII lower-casing of one character: maps `A`..`Z` to `a`..`z` and
/// leaves every other character unchanged.
pub open spec fn lower_char(c: char) -> char {
    if c == 'A' { 'a' } else if c == 'B' { 'b' } else if c == 'C' { 'c' }
    else if c == 'D' { 'd' } else if c == 'E' { 'e' } else if c == 'F' { 'f' }
    else if c == 'G' { 'g' } else if c == 'H' { 'h' } else if c == 'I' { 'i' }
    else if c == 'J' { 'j' } else if c == 'K' { 'k' } else if c == 'L' { 'l' }
    else if c == 'M' { 'm' } else if c == 'N' { 'n' } else if c == 'O' { 'o' }
    else if c == 'P' { 'p' } else if c == 'Q' { 'q' } else if c == 'R' { 'r' }
    else if c == 'S' { 's' } else if c == 'T' { 't' } else if c == 'U' { 'u' }
    else if c == 'V' { 'v' } else if c == 'W' { 'w' } else if c == 'X' { 'x' }
    else if c == 'Y' { 'y' } else if c == 'Z' { 'z' } else { c }
}

/// The result of ASCII upper-casing never holds a lower-case letter,
/// and lower-casing never an upper-case one.
pub proof fn lemma_case_char(c: char)
    ensures
        !is_ascii_lower(upper_char(c)),
        !is_ascii_upper(lower_char(c)),
{
}

pub fn upper_char_exec(c: char) -> (r: char)
    ensures
        r == upper_char(c),
{
    if c == 'a' { 'A' } else if c == 'b' { 'B' } else if c == 'c' { 'C' }
    else if c == 'd' { 'D' } else if c == 'e' { 'E' } else if c == 'f' { 'F' }
    else if c == 'g' { 'G' } else if c == 'h' { 'H' } else if c == 'i' { 'I' }
    else if c == 'j' { 'J' } else if c == 'k' { 'K' } else if c == 'l' { 'L' }
    else if c == 'm' { 'M' } else if c == 'n' { 'N' } else if c == 'o' { 'O' }
    else if c == 'p' { 'P' } else if c == 'q' { 'Q' } else if c == 'r' { 'R' }
    else if c == 's' { 'S' } else if c == 't' { 'T' } else if c == 'u' { 'U' }
    else if c == 'v' { 'V' } else if c == 'w' { 'W' } else if c == 'x' { 'X' }
    else if c == 'y' { 'Y' } else if c == 'z' { 'Z' } else { c }
}

pub fn lower_char_exec(c: char) -> (r: char)
    ensures
        r == lower_char(c),
{
    if c == 'A' { 'a' } else if c == 'B' { 'b' } else if c == 'C' { 'c' }
    else if c == 'D' { 'd' } else if c == 'E' { 'e' } else if c == 'F' { 'f' }
    else if c == 'G' { 'g' } else if c == 'H' { 'h' } else if c == 'I' { 'i' }
    else if c == 'J' { 'j' } else if c == 'K' { 'k' } else if c == 'L' { 'l' }
    else if c == 'M' { 'm' } else if c == 'N' { 'n' } else if c == 'O' { 'o' }
    else if c == 'P' { 'p' } else if c == 'Q' { 'q' } else if c == 'R' { 'r' }
    else if c == 'S' { 's' } else if c == 'T' { 't' } else if c == 'U' { 'u' }
    else if c == 'V' { 'v' } else if c == 'W' { 'w' } else if c == 'X' { 'x' }
    else if c == 'Y' { 'y' } else if c == 'Z' { 'z' } else { c }
}

/// What `str::to_lowercase` returns: a function of the characters alone.
pub uninterp spec fn lower_of(s: Seq<char>) -> Seq<char>;

/// What `str::to_uppercase` returns: a function of the characters alone.
pub uninterp spec fn upper_of(s: Seq<char>) -> Seq<char>;

/// Relies on `str::to_lowercase`: the Unicode lower-case equivalent of
/// `s`, depending on the characters of `s` alone.
#[verifier::external_body]
pub(crate) fn lowercase(s: &str) -> (r: String)
    ensures
        r@ == lower_of(s@),
{
    s.to_lowercase()
}

/// Relies on `str::to_uppercase`: the Unicode upper-case equivalent of
/// `s`, depending on the characters of `s` alone.
#[verifier::external_body]
pub(crate) fn uppercase(s: &str) -> (r: String)
    ensures
        r@ == upper_of(s@),
{
    s.to_uppercase()
}

/// How many times `c` occurs in `s`.
pub open spec fn count_char(s: Seq<char>, c: char) -> nat
    decreases s.len(),
{
    if s.len() == 0 {
        0
    } else {
        count_char(s.drop_last(), c) + (if s.last() == c {
            1nat
        } else {
            0nat
        })
    }
}

pub fn repeat_str(unit: &str, n: usize) -> (r: String)
    ensures
        r@ == repeat_text(unit@, n as nat),
{
    let mut out = String::new();
    let mut i: usize = 0;
    while i < n
        invariant
            i <= n,
            out@ == repeat_text(unit@, i as nat),
        decreases n - i,
    {
        out.append(unit);
        i = i + 1;
    }
    out
}

pub fn join_strings(sep: &str, items: &[String]) -> (r: String)
    ensures
        r@ == join_texts(sep@, items.deep_view()),
{
    let ghost dv = items.deep_view();
    let mut out = String::new();
    let mut i: usize = 0;
    while i < items.len()
        invariant
            i <= items.len(),
            dv == items.deep_view(),
            dv.len() == items.len(),
            out@ == join_texts(sep@, dv.take(i as int)),
        decreases items.len() - i,
    {
        if i > 0 {
            out.append(sep);
        }
        out.append(items[i].as_str());
        proof {
            assert(dv.take(i + 1).drop_last() =~= dv.take(i as int));
            assert(dv.take(i + 1).last() == items[i as int]@);
        }
        i = i + 1;
    }
    proof {
        assert(dv.take(items.len() as int) =~= dv);
    }
    out
}

pub fn expand_newlines(s: &str, prefix: &str) -> (r: String)
    ensures
        r@ == nl_expand(s@, prefix@),
{
    let n = s.unicode_len();
    let mut out = String::new();
    let mut i: usize = 0;
    while i < n
        invariant
            i <= n,
            n == s@.len(),
            out@ == nl_expand(s@.take(i as int), prefix@),
        decreases n - i,
    {
        let c = s.get_char(i);
        out.push(c);
        if c == '\n' {
            out.append(prefix);
        }
        proof {
            assert(s@.take(i + 1).drop_last() =~= s@.take(i as int));
            assert(s@.take(i + 1).last() == s@[i as int]);
            if c == '\n' {
                assert(out@ =~= nl_expand(s@.take(i as int), prefix@) + (seq!['\n'] + prefix@));
            } else {
                assert(out@ =~= nl_expand(s@.take(i as int), prefix@) + seq![c]);
            }
        }
        i = i + 1;
    }
    proof {
        assert(s@.take(n as int) =~= s@);
    }
    out
}

/// `c` renders blank: a space, a tab or a newline.
pub open spec fn is_blank_char(c: char) -> bool {
    c == ' ' || c == '\t' || c == '\n'
}

/// Every character of `s` satisfies `p`.
pub open spec fn all_chars(s: Seq<char>, p: spec_fn(char) -> bool) -> bool {
    forall|i: int| 0 <= i < s.len() ==> p(#[trigger] s[i])
}

pub proof fn lemma_repeat_all_chars(unit: Seq<char>, n: nat, p: spec_fn(char) -> bool)
    requires
        all_chars(unit, p),
    ensures
        all_chars(repeat_text(unit, n), p),
    decreases n,
{
    if n > 0 {
        lemma_repeat_all_chars(unit, (n - 1) as nat, p);
    }
}

pub proof fn lemma_count_concat(a: Seq<char>, b: Seq<char>, c: char)
    ensures
        count_char(a + b, c) == count_char(a, c) + count_char(b, c),
    decreases b.len(),
{
    if b.len() == 0 {
        assert(a + b =~= a);
    } else {
        assert((a + b).drop_last() =~= a + b.drop_last());
        lemma_count_concat(a, b.drop_last(), c);
    }
}

/// Newline expansion is newline-preserving and prefix-inserting: when the
/// prefix itself holds no newline, the result has exactly as many newlines
/// as `s`, and each one is followed immediately by that prefix.
pub proof fn lemma_nl_expand(s: Seq<char>, prefix: Seq<char>)
    requires
        forall|k: int| 0 <= k < prefix.len() ==> prefix[k] != '\n',
    ensures
        count_char(nl_expand(s, prefix), '\n') == count_char(s, '\n'),
        forall|i: int|
            0 <= i < nl_expand(s, prefix).len() && nl_expand(s, prefix)[i] == '\n' ==> i + 1
                + prefix.len() <= nl_expand(s, prefix).len() && nl_expand(s, prefix).subrange(
                i + 1,
                i + 1 + prefix.len(),
            ) == prefix,
    decreases s.len(),
{
    if s.len() == 0 {
    } else {
        let r0 = nl_expand(s.drop_last(), prefix);
        let tail: Seq<char> = if s.last() == '\n' {
            seq!['\n'] + prefix
        } else {
            seq![s.last()]
        };
        let r = nl_expand(s, prefix);
        assert(r == r0 + tail);
        lemma_nl_expand(s.drop_last(), prefix);
        lemma_count_concat(r0, tail, '\n');
        assert(count_char(tail, '\n') == (if s.last() == '\n' {
            1nat
        } else {
            0nat
        })) by {
            if s.last() == '\n' {
                lemma_count_concat(seq!['\n'], prefix, '\n');
                lemma_no_char_count(prefix, '\n');
                let one: Seq<char> = seq!['\n'];
                assert(one.len() == 1 && one.last() == '\n');
                assert(one.drop_last() =~= Seq::<char>::empty());
                assert(count_char(one.drop_last(), '\n') == count_char(Seq::<char>::empty(), '\n'));
                assert(count_char(Seq::<char>::empty(), '\n') == 0);
                assert(count_char(one, '\n') == 1);
            } else {
                assert(tail.len() == 1 && tail.last() == s.last());
                assert(tail.drop_last() =~= Seq::<char>::empty());
                assert(count_char(tail.drop_last(), '\n') == count_char(Seq::<char>::empty(), '\n'));
                assert(count_char(Seq::<char>::empty(), '\n') == 0);
            }
        }
        assert forall|i: int| 0 <= i < r.len() && r[i] == '\n' implies i + 1 + prefix.len()
            <= r.len() && r.subrange(i + 1, i + 1 + prefix.len()) == prefix by {
            if i < r0.len() {
                assert(r0[i] == '\n');
                assert(r0.subrange(i + 1, i + 1 + prefix.len()) =~= r.subrange(
                    i + 1,
                    i + 1 + prefix.len(),
                ));
            } else {
                assert(s.last() == '\n' && i == r0.len()) by {
                    if s.last() == '\n' {
                        assert(tail[i - r0.len()] == '\n');
                        if i > r0.len() {
                            assert(prefix[i - r0.len() - 1] == '\n');
                        }
                    } else {
                        assert(tail =~= seq![s.last()]);
                    }
                }
                assert(r.subrange(i + 1, i + 1 + prefix.len()) =~= prefix);
            }
        }
    }
}

proof fn lemma_no_char_count(s: Seq<char>, c: char)
    requires
        forall|i: int| 0 <= i < s.len() ==> s[i] != c,
    ensures
        count_char(s, c) == 0,
    decreases s.len(),
{
    if s.len() > 0 {
        lemma_no_char_count(s.drop_last(), c);
    }
}

pub fn check_fits(s: &str, limit: usize) -> (r: bool)
    ensures
        r == fits(s@, limit as nat),
{
    let n = s.unicode_len();
    let mut run: usize = 0;
    let mut i: usize = 0;
    while i < n
        invariant
            i <= n,
            n == s@.len(),
            run <= i,
            run <= limit,
            line_free(s@, i - run, i as int),
            i - run > 0 ==> s@[i - run - 1] == '\n',
            forall|a: int, b: int|
                0 <= a <= b <= i && #[trigger] line_free(s@, a, b) ==> b - a <= limit,
        decreases n - i,
    {
        let c = s.get_char(i);
        if c == '\n' {
            proof {
                assert forall|a: int, b: int|
                    0 <= a <= b <= i + 1 && #[trigger] line_free(s@, a, b) implies b - a
                    <= limit by {
                    if b == i + 1 && a <= i {
                        assert(s@[i as int] != '\n');
                    }
                }
            }
            run = 0;
        } else {
            if run == limit {
                proof {
                    assert(line_free(s@, i - run, i + 1));
                    assert(!fits(s@, limit as nat)) by {
                        if fits(s@, limit as nat) {
                            assert(0 <= i - run <= i + 1 <= s@.len() && line_free(
                                s@,
                                i - run,
                                i + 1,
                            ) ==> (i + 1) - (i - run) <= limit);
                        }
                    }
                }
                return false;
            }
            proof {
                assert(line_free(s@, i - run, i + 1));
                assert forall|a: int, b: int|
                    0 <= a <= b <= i + 1 && #[trigger] line_free(s@, a, b) implies b - a
                    <= limit by {
                    if b == i + 1 {
                        if a < i - run {
                            assert(s@[i - run - 1] == '\n');
                            assert(!line_free(s@, a, b));
                        } else {
                            assert(b - a <= run + 1);
                        }
                    }
                }
            }
            run = run + 1;
        }
        i = i + 1;
    }
    true
}

/// `s` with every leading quote character removed.
pub open spec fn trim_quotes_front(s: Seq<char>) -> Seq<char>
    decreases s.len(),
{
    if s.len() > 0 && s.first() == '"' {
        trim_quotes_front(s.drop_first())
    } else {
        s
    }
}

/// `s` with every trailing quote character removed.
pub open spec fn trim_quotes_back(s: Seq<char>) -> Seq<char>
    decreases s.len(),
{
    if s.len() > 0 && s.last() == '"' {
        trim_quotes_back(s.drop_last())
    } else {
        s
    }
}

/// `s` with every leading and trailing quote character removed.
pub open spec fn trim_quotes(s: Seq<char>) -> Seq<char> {
    trim_quotes_back(trim_quotes_front(s))
}

proof fn lemma_trim_quotes_front_range(s: Seq<char>, lo: int)
    requires
        0 <= lo <= s.len(),
        forall|k: int| 0 <= k < lo ==> s[k] == '"',
        lo < s.len() ==> s[lo] != '"',
    ensures
        trim_quotes_front(s) == s.skip(lo),
    decreases lo,
{
    if lo == 0 {
        assert(s.skip(0) =~= s);
    } else {
        assert(s.first() == '"');
        lemma_trim_quotes_front_range(s.drop_first(), lo - 1);
        assert(s.drop_first().skip(lo - 1) =~= s.skip(lo));
    }
}

proof fn lemma_trim_quotes_back_range(s: Seq<char>, hi: int)
    requires
        0 <= hi <= s.len(),
        forall|k: int| hi <= k < s.len() ==> s[k] == '"',
        hi > 0 ==> s[hi - 1] != '"',
    ensures
        trim_quotes_back(s) == s.take(hi),
    decreases s.len() - hi,
{
    if hi == s.len() {
        assert(s.take(hi) =~= s);
    } else {
        assert(s.last() == '"');
        lemma_trim_quotes_back_range(s.drop_last(), hi);
        assert(s.drop_last().take(hi) =~= s.take(hi));
    }
}

pub fn trim_quotes_str<'a>(s: &'a str) -> (r: &'a str)
    ensures
        r@ == trim_quotes(s@),
{
    let n = s.unicode_len();
    let mut lo: usize = 0;
    while lo < n && s.get_char(lo) == '"'
        invariant
            lo <= n,
            n == s@.len(),
            forall|k: int| 0 <= k < lo ==> s@[k] == '"',
        decreases n - lo,
    {
        lo = lo + 1;
    }
    proof {
        lemma_trim_quotes_front_range(s@, lo as int);
    }
    let mut hi: usize = n;
    while hi > lo && s.get_char(hi - 1) == '"'
        invariant
            lo <= hi <= n,
            n == s@.len(),
            forall|k: int| hi <= k < n ==> s@[k] == '"',
        decreases hi,
    {
        hi = hi - 1;
    }
    proof {
        let front = s@.skip(lo as int);
        lemma_trim_quotes_back_range(front, hi - lo);
        assert(front.take(hi - lo) =~= s@.subrange(lo as int, hi as int));
    }
    s.substring_char(lo, hi)
}

} // verus!
