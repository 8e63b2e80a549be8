//! Line-oriented text helpers shared by the plain-text asset tables: line
//! splitting, whitespace tokenizing, and sectioned line grouping.

use vstd::prelude::*;
use vstd::string::StrSliceExecFns;

verus! {

/// Whether a character is ASCII whitespace: space, tab, line feed, form
/// feed or carriage return.
pub open spec fn sp_is_ws(c: char) -> bool {
    c == ' ' || c == '\t' || c == '\n' || c == '\r' || c == '\u{0C}'
}

pub fn is_ws(c: char) -> (r: bool)
    ensures
        r == sp_is_ws(c),
{
    c == ' ' || c == '\t' || c == '\n' || c == '\r' || c == '\u{0C}'
}

/// Offset of the first line feed of `s`, or its length if there is none.
pub open spec fn sp_line_break(s: Seq<char>) -> int
    decreases s.len(),
{
    if s.len() == 0 {
        0
    } else if s[0] == '\n' {
        0
    } else {
        1 + sp_line_break(s.drop_first())
    }
}

/// `sp_line_break` is the unique cut: no line feed before it, and a line
/// feed at it unless it is the length.
pub proof fn lemma_line_break(s: Seq<char>, m: int)
    requires
        0 <= m <= s.len(),
        m == s.len() || s[m] == '\n',
        forall|j: int| 0 <= j < m ==> s[j] != '\n',
    ensures
        sp_line_break(s) == m,
    decreases s.len(),
{
    if s.len() == 0 {
    } else if s[0] == '\n' {
        assert(m == 0);
    } else {
        assert(m >= 1);
        lemma_line_break(s.drop_first(), m - 1);
    }
}

proof fn lemma_line_break_bounds(s: Seq<char>)
    ensures
        0 <= sp_line_break(s) <= s.len(),
    decreases s.len(),
{
    if s.len() > 0 && s[0] != '\n' {
        lemma_line_break_bounds(s.drop_first());
    }
}

/// A line with its trailing carriage return, if any, dropped.
pub open spec fn sp_strip_cr(l: Seq<char>) -> Seq<char> {
    if l.len() > 0 && l.last() == '\r' {
        l.drop_last()
    } else {
        l
    }
}

/// The lines of a text: split at line feeds, each line's trailing
/// carriage return dropped, with no final empty line after a trailing
/// line feed.
pub open spec fn sp_lines(s: Seq<char>) -> Seq<Seq<char>>
    decreases s.len(),
    via sp_lines_decreases
{
    if s.len() == 0 {
        Seq::empty()
    } else {
        let j = sp_line_break(s);
        let line = sp_strip_cr(s.take(j));
        if j == s.len() {
            seq![line]
        } else {
            seq![line] + sp_lines(s.skip(j + 1))
        }
    }
}

#[via_fn]
proof fn sp_lines_decreases(s: Seq<char>) {
    lemma_line_break_bounds(s);
}

/// Relies on `String::push`: appends exactly one character.
#[verifier::external_body]
pub(crate) fn push_char(s: &mut String, c: char)
    ensures
        final (s)@ == old(s)@.push(c),
{
    s.push(c);
}

/// Copy the characters `text[from..to]` into an owned string.
pub fn chars_between(text: &str, from: usize, to: usize) -> (r: String)
    requires
        from <= to <= text@.len(),
    ensures
        r@ == text@.subrange(from as int, to as int),
{
    let mut r = String::new();
    let mut k: usize = from;
    while k < to
        invariant
            from <= k <= to <= text@.len(),
            r@ == text@.subrange(from as int, k as int),
        decreases to - k,
    {
        let c = text.get_char(k);
        push_char(&mut r, c);
        proof {
            assert(text@.subrange(from as int, k + 1) =~= text@.subrange(
                from as int,
                k as int,
            ).push(text@[k as int]));
        }
        k = k + 1;
    }
    r
}

/// Split a text into its lines.
#[verifier::loop_isolation(false)]
pub fn split_lines(text: &str) -> (r: Vec<String>)
    ensures
        r@.map_values(|l: String| l@) == sp_lines(text@),
{
    let n = text.unicode_len();
    let mut r: Vec<String> = Vec::new();
    let mut i: usize = 0;
    proof {
        assert(text@.skip(0) =~= text@);
        assert(Seq::<Seq<char>>::empty() + sp_lines(text@.skip(0)) =~= sp_lines(text@.skip(0)));
    }
    while i < n
        invariant
            i <= n == text@.len(),
            sp_lines(text@) == r@.map_values(|l: String| l@) + sp_lines(text@.skip(i as int)),
        decreases n - i,
    {
        let ghost old_r = r@;
        let ghost rem = text@.skip(i as int);
        let mut j: usize = i;
        while j < n && text.get_char(j) != '\n'
            invariant
                i <= j <= n,
                forall|k: int| i <= k < j ==> text@[k] != '\n',
            decreases n - j,
        {
            j = j + 1;
        }
        proof {
            assert(forall|k: int| 0 <= k < j - i ==> #[trigger] rem[k] == text@[i + k]);
            lemma_line_break(rem, j - i);
        }
        let line_end = if j > i && text.get_char(j - 1) == '\r' {
            j - 1
        } else {
            j
        };
        let line = chars_between(text, i, line_end);
        r.push(line);
        proof {
            assert(rem.take(j - i) =~= text@.subrange(i as int, j as int));
            if j > i && text@[j - 1] == '\r' {
                assert(rem.take(j - i).last() == '\r');
                assert(sp_strip_cr(rem.take(j - i)) =~= text@.subrange(
                    i as int,
                    line_end as int,
                ));
            } else {
                assert(sp_strip_cr(rem.take(j - i)) =~= text@.subrange(
                    i as int,
                    line_end as int,
                ));
            }
            assert(r@.map_values(|l: String| l@) =~= old_r.map_values(|l: String| l@) + seq![
                text@.subrange(i as int, line_end as int),
            ]);
            if j == n {
                assert(sp_lines(rem) =~= seq![sp_strip_cr(rem.take(j - i))]);
                assert(sp_lines(text@) =~= r@.map_values(|l: String| l@));
                assert(text@.skip(n as int).len() == 0);
                assert(sp_lines(text@.skip(n as int)) =~= Seq::<Seq<char>>::empty());
                assert(r@.map_values(|l: String| l@) + sp_lines(text@.skip(n as int))
                    =~= r@.map_values(|l: String| l@));
            } else {
                assert(rem.skip(j - i + 1) =~= text@.skip(j + 1));
                assert(sp_lines(rem) =~= seq![sp_strip_cr(rem.take(j - i))] + sp_lines(
                    text@.skip(j + 1),
                ));
                assert((old_r.map_values(|l: String| l@) + (seq![
                    sp_strip_cr(rem.take(j - i)),
                ] + sp_lines(text@.skip(j + 1)))) =~= (r@.map_values(|l: String| l@)
                    + sp_lines(text@.skip(j + 1))));
            }
        }
        if j == n {
            i = n;
        } else {
            i = j + 1;
        }
    }
    proof {
        assert(text@.skip(n as int).len() == 0);
        assert(sp_lines(text@.skip(n as int)) =~= Seq::<Seq<char>>::empty());
        assert(r@.map_values(|l: String| l@) + Seq::<Seq<char>>::empty() =~= r@.map_values(
            |l: String| l@,
        ));
    }
    r
}


/// Length of the leading whitespace-free token of `s`.
pub open spec fn sp_token_len(s: Seq<char>) -> int
    decreases s.len(),
{
    if s.len() == 0 || sp_is_ws(s[0]) {
        0
    } else {
        1 + sp_token_len(s.drop_first())
    }
}

/// `sp_token_len` is the unique cut: no whitespace before it, and
/// whitespace at it unless it is the length.
pub proof fn lemma_token_len(s: Seq<char>, m: int)
    requires
        0 <= m <= s.len(),
        m == s.len() || sp_is_ws(s[m]),
        forall|j: int| 0 <= j < m ==> !sp_is_ws(s[j]),
    ensures
        sp_token_len(s) == m,
    decreases s.len(),
{
    if s.len() == 0 {
    } else if sp_is_ws(s[0]) {
        assert(m == 0);
    } else {
        assert(m >= 1);
        lemma_token_len(s.drop_first(), m - 1);
    }
}

proof fn lemma_token_len_bounds(s: Seq<char>)
    ensures
        0 <= sp_token_len(s) <= s.len(),
    decreases s.len(),
{
    if s.len() > 0 && !sp_is_ws(s[0]) {
        lemma_token_len_bounds(s.drop_first());
    }
}

/// The whitespace-separated tokens of a line, in order.
pub open spec fn sp_split_ws(s: Seq<char>) -> Seq<Seq<char>>
    decreases s.len(),
    via sp_split_ws_decreases
{
    if s.len() == 0 {
        Seq::empty()
    } else if sp_is_ws(s[0]) {
        sp_split_ws(s.drop_first())
    } else {
        let t = sp_token_len(s);
        seq![s.take(t)] + sp_split_ws(s.skip(t))
    }
}

#[via_fn]
proof fn sp_split_ws_decreases(s: Seq<char>) {
    lemma_token_len_bounds(s);
    if s.len() > 0 && !sp_is_ws(s[0]) {
        lemma_token_len_bounds(s.drop_first());
        assert(sp_token_len(s) == 1 + sp_token_len(s.drop_first()));
        assert(sp_token_len(s) >= 1);
        assert(s.skip(sp_token_len(s)).len() == s.len() - sp_token_len(s));
    }
}

/// A token with its leading commas dropped.
pub open spec fn sp_drop_lead_commas(t: Seq<char>) -> Seq<char>
    decreases t.len(),
{
    if t.len() > 0 && t[0] == ',' {
        sp_drop_lead_commas(t.drop_first())
    } else {
        t
    }
}

/// A token with its trailing commas dropped.
pub open spec fn sp_drop_trail_commas(t: Seq<char>) -> Seq<char>
    decreases t.len(),
{
    if t.len() > 0 && t.last() == ',' {
        sp_drop_trail_commas(t.drop_last())
    } else {
        t
    }
}

/// A token with the commas at both ends dropped.
pub open spec fn sp_trim_commas(t: Seq<char>) -> Seq<char> {
    sp_drop_trail_commas(sp_drop_lead_commas(t))
}

proof fn lemma_drop_lead_commas(t: Seq<char>, a: int)
    requires
        0 <= a <= t.len(),
        forall|j: int| 0 <= j < a ==> t[j] == ',',
        a == t.len() || t[a] != ',',
    ensures
        sp_drop_lead_commas(t) == t.skip(a),
    decreases t.len(),
{
    if t.len() == 0 || t[0] != ',' {
        assert(a == 0);
        assert(t.skip(0) =~= t);
    } else {
        lemma_drop_lead_commas(t.drop_first(), a - 1);
        assert(t.drop_first().skip(a - 1) =~= t.skip(a));
    }
}

proof fn lemma_drop_trail_commas(t: Seq<char>, b: int)
    requires
        0 <= b <= t.len(),
        forall|j: int| b <= j < t.len() ==> t[j] == ',',
        b == 0 || t[b - 1] != ',',
    ensures
        sp_drop_trail_commas(t) == t.take(b),
    decreases t.len(),
{
    if t.len() == 0 || t.last() != ',' {
        assert(b == t.len());
        assert(t.take(b) =~= t);
    } else {
        lemma_drop_trail_commas(t.drop_last(), b);
        assert(t.drop_last().take(b) =~= t.take(b));
    }
}

/// The fields of one line of an asset table: the whitespace-separated
/// tokens, each with the commas at its ends dropped.
pub open spec fn sp_split_line(s: Seq<char>) -> Seq<Seq<char>> {
    sp_split_ws(s).map_values(|t: Seq<char>| sp_trim_commas(t))
}

/// Split a line into its fields: whitespace-separated tokens, trimmed of
/// the commas at their ends. A token of commas alone yields an empty
/// field.
#[verifier::rlimit(100)]
#[verifier::loop_isolation(false)]
pub fn split_line(line: &str) -> (r: Vec<String>)
    ensures
        r@.map_values(|f: String| f@) == sp_split_line(line@),
{
    let n = line.unicode_len();
    let mut r: Vec<String> = Vec::new();
    let mut i: usize = 0;
    proof {
        assert(line@.skip(0) =~= line@);
        assert(Seq::<Seq<char>>::empty() + sp_split_ws(line@).map_values(
            |t: Seq<char>| sp_trim_commas(t),
        ) =~= sp_split_ws(line@).map_values(|t: Seq<char>| sp_trim_commas(t)));
    }
    while i < n
        invariant
            i <= n == line@.len(),
            sp_split_line(line@) == r@.map_values(|f: String| f@) + sp_split_ws(
                line@.skip(i as int),
            ).map_values(|t: Seq<char>| sp_trim_commas(t)),
        decreases n - i,
    {
        let ghost old_r = r@;
        let ghost rem = line@.skip(i as int);
        if is_ws(line.get_char(i)) {
            proof {
                assert(rem[0] == line@[i as int]);
                assert(rem.drop_first() =~= line@.skip(i + 1));
            }
            i = i + 1;
        } else {
            let mut j: usize = i + 1;
            while j < n && !is_ws(line.get_char(j))
                invariant
                    i < j <= n,
                    forall|k: int| i <= k < j ==> !sp_is_ws(line@[k]),
                decreases n - j,
            {
                j = j + 1;
            }
            let mut a: usize = i;
            while a < j && line.get_char(a) == ','
                invariant
                    i <= a <= j,
                    forall|k: int| i <= k < a ==> line@[k] == ',',
                decreases j - a,
            {
                a = a + 1;
            }
            let mut b: usize = j;
            while b > a && line.get_char(b - 1) == ','
                invariant
                    a <= b <= j,
                    forall|k: int| b <= k < j ==> line@[k] == ',',
                decreases b,
            {
                b = b - 1;
            }
            let field = chars_between(line, a, b);
            r.push(field);
            proof {
                let t = j - i;
                assert(forall|k: int| 0 <= k < rem.len() ==> #[trigger] rem[k] == line@[i + k]);
                lemma_token_len(rem, t as int);
                let tok = rem.take(t as int);
                assert(tok =~= line@.subrange(i as int, j as int));
                lemma_drop_lead_commas(tok, a - i);
                assert(tok.skip(a - i) =~= line@.subrange(a as int, j as int));
                lemma_drop_trail_commas(line@.subrange(a as int, j as int), b - a);
                assert(line@.subrange(a as int, j as int).take(b - a) =~= line@.subrange(
                    a as int,
                    b as int,
                ));
                assert(sp_trim_commas(tok) == line@.subrange(a as int, b as int));
                assert(rem.skip(t as int) =~= line@.skip(j as int));
                assert(sp_split_ws(rem) == seq![tok] + sp_split_ws(line@.skip(j as int)));
                assert(r@.map_values(|f: String| f@) =~= old_r.map_values(|f: String| f@)
                    + seq![line@.subrange(a as int, b as int)]);
                assert((seq![tok] + sp_split_ws(line@.skip(j as int))).map_values(
                    |t2: Seq<char>| sp_trim_commas(t2),
                ) =~= seq![sp_trim_commas(tok)] + sp_split_ws(line@.skip(j as int)).map_values(
                    |t2: Seq<char>| sp_trim_commas(t2),
                ));
                assert((old_r.map_values(|f: String| f@) + (seq![sp_trim_commas(tok)]
                    + sp_split_ws(line@.skip(j as int)).map_values(
                    |t2: Seq<char>| sp_trim_commas(t2),
                ))) =~= (r@.map_values(|f: String| f@) + sp_split_ws(
                    line@.skip(j as int),
                ).map_values(|t2: Seq<char>| sp_trim_commas(t2))));
            }
            i = j;
        }
    }
    proof {
        assert(line@.skip(n as int).len() == 0);
        assert(sp_split_ws(line@.skip(n as int)) =~= Seq::<Seq<char>>::empty());
        assert(sp_split_ws(line@.skip(n as int)).map_values(|t: Seq<char>| sp_trim_commas(t))
            =~= Seq::<Seq<char>>::empty());
        assert(r@.map_values(|f: String| f@) + Seq::<Seq<char>>::empty() =~= r@.map_values(
            |f: String| f@,
        ));
    }
    r
}


/// A line that grouping ignores: a comment (leading `#`) or a line of
/// whitespace alone.
pub open spec fn sp_skip_line(l: Seq<char>) -> bool {
    (l.len() > 0 && l[0] == '#') || (forall|k: int| 0 <= k < l.len() ==> sp_is_ws(l[k]))
}

/// The word that closes a section.
pub open spec fn sp_end_word() -> Seq<char> {
    seq!['e', 'n', 'd']
}

/// Index of the first section carrying a name, if any.
pub open spec fn sp_find_section(
    secs: Seq<(Seq<char>, Seq<Seq<char>>)>,
    name: Seq<char>,
) -> Option<int>
    decreases secs.len(),
{
    if secs.len() == 0 {
        None
    } else if secs[0].0 == name {
        Some(0)
    } else {
        match sp_find_section(secs.drop_first(), name) {
            Some(i) => Some(i + 1),
            None => None,
        }
    }
}

/// State of line grouping after the first `k` lines: the named sections
/// with their lines so far, and the currently open section. A line opens
/// a section when none is open (re-opening a name empties it), `end`
/// closes the open section, and any other line joins the open section.
pub open spec fn sp_categorise(lines: Seq<Seq<char>>, k: int) -> (
    Seq<(Seq<char>, Seq<Seq<char>>)>,
    Option<int>,
)
    decreases k,
{
    if k <= 0 {
        (Seq::empty(), None)
    } else {
        let st = sp_categorise(lines, k - 1);
        let line = lines[k - 1];
        if sp_skip_line(line) {
            st
        } else {
            match st.1 {
                Some(si) => if line == sp_end_word() {
                    (st.0, None)
                } else {
                    (st.0.update(si, (st.0[si].0, st.0[si].1.push(line))), st.1)
                },
                None => match sp_find_section(st.0, line) {
                    Some(k2) => (st.0.update(k2, (line, Seq::empty())), Some(k2)),
                    None => (st.0.push((line, Seq::empty())), Some(st.0.len() as int)),
                },
            }
        }
    }
}

/// The grouped sections of a text's lines.
pub open spec fn sp_categorised(s: Seq<char>) -> Seq<(Seq<char>, Seq<Seq<char>>)> {
    sp_categorise(sp_lines(s), sp_lines(s).len() as int).0
}

/// The view of a section table.
pub open spec fn secs_view(s: Seq<(String, Vec<String>)>) -> Seq<(Seq<char>, Seq<Seq<char>>)> {
    s.map_values(|e: (String, Vec<String>)| (e.0@, e.1@.map_values(|l: String| l@)))
}

/// Whether a line is ignored by grouping.
#[verifier::loop_isolation(false)]
pub fn skip_line(line: &String) -> (r: bool)
    ensures
        r == sp_skip_line(line@),
{
    let n = line.as_str().unicode_len();
    if n > 0 && line.as_str().get_char(0) == '#' {
        return true;
    }
    let mut k: usize = 0;
    while k < n
        invariant
            k <= n == line@.len(),
            forall|j: int| 0 <= j < k ==> sp_is_ws(line@[j]),
        decreases n - k,
    {
        if !is_ws(line.as_str().get_char(k)) {
            proof {
                assert(!sp_is_ws(line@[k as int]));
            }
            return false;
        }
        k = k + 1;
    }
    true
}

/// Whether a line is exactly the section-closing word.
fn is_end_word(line: &String) -> (r: bool)
    ensures
        r == (line@ == sp_end_word()),
{
    let n = line.as_str().unicode_len();
    if n == 3 && line.as_str().get_char(0) == 'e' && line.as_str().get_char(1) == 'n'
        && line.as_str().get_char(2) == 'd' {
        proof {
            assert(line@ =~= sp_end_word());
        }
        true
    } else {
        proof {
            if line@ == sp_end_word() {
                assert(line@.len() == 3);
                assert(line@[0] == 'e' && line@[1] == 'n' && line@[2] == 'd');
            }
        }
        false
    }
}

/// Find the section a name refers to, if any.
#[verifier::loop_isolation(false)]
fn find_section(secs: &Vec<(String, Vec<String>)>, name: &String) -> (r: Option<usize>)
    ensures
        match sp_find_section(secs_view(secs@), name@) {
            Some(i) => r matches Some(i2) && i2 == i && i < secs@.len(),
            None => r is None,
        },
{
    let n = secs.len();
    let mut i: usize = 0;
    proof {
        assert(secs_view(secs@).skip(0) =~= secs_view(secs@));
    }
    while i < n
        invariant
            i <= n == secs@.len(),
            secs_view(secs@).len() == n,
            sp_find_section(secs_view(secs@), name@) == (match sp_find_section(
                secs_view(secs@).skip(i as int),
                name@,
            ) {
                Some(k) => Some(k + i),
                None => None,
            }),
        decreases n - i,
    {
        let ghost rem = secs_view(secs@).skip(i as int);
        proof {
            assert(rem[0] == secs_view(secs@)[i as int]);
            assert(rem.drop_first() =~= secs_view(secs@).skip(i + 1));
        }
        if secs[i].0.eq(name) {
            return Some(i);
        }
        i = i + 1;
    }
    proof {
        assert(secs_view(secs@).skip(n as int) =~= Seq::<(Seq<char>, Seq<Seq<char>>)>::empty());
    }
    None
}

/// Group the lines of a sectioned text table: a header line opens a named
/// section, its following lines belong to it until an `end` line closes
/// it, and comment and blank lines are ignored. Re-opening a section name
/// empties it; the order of first appearance is kept.
#[verifier::rlimit(100)]
#[verifier::loop_isolation(false)]
pub fn categorise_lines(data: &str) -> (r: Vec<(String, Vec<String>)>)
    ensures
        secs_view(r@) == sp_categorised(data@),
{
    let lines = split_lines(data);
    let ghost linesv = sp_lines(data@);
    let n = lines.len();
    let mut secs: Vec<(String, Vec<String>)> = Vec::new();
    let mut cur: Option<usize> = None;
    proof {
        assert(secs_view(secs@) =~= Seq::<(Seq<char>, Seq<Seq<char>>)>::empty());
    }
    let mut i: usize = 0;
    while i < n
        invariant
            i <= n == linesv.len(),
            lines@.map_values(|l: String| l@) == linesv,
            lines@.len() == n,
            secs_view(secs@) == sp_categorise(linesv, i as int).0,
            (match cur {
                Some(si) => sp_categorise(linesv, i as int).1 == Some(si as int) && si
                    < secs@.len(),
                None => sp_categorise(linesv, i as int).1 is None,
            }),
        decreases n - i,
    {
        let line = &lines[i];
        proof {
            assert(line@ == linesv[i as int]);
        }
        let ghost old_secs = secs@;
        if !skip_line(line) {
            match cur {
                Some(si) => {
                    if is_end_word(line) {
                        cur = None;
                    } else {
                        let mut entry = secs.remove(si);
                        entry.1.push(line.clone());
                        secs.insert(si, entry);
                        proof {
                            assert(secs_view(secs@) =~~= secs_view(old_secs).update(
                                si as int,
                                (
                                    secs_view(old_secs)[si as int].0,
                                    secs_view(old_secs)[si as int].1.push(line@),
                                ),
                            ));
                        }
                    }
                },
                None => {
                    match find_section(&secs, line) {
                        Some(k2) => {
                            let _old_entry = secs.remove(k2);
                            secs.insert(k2, (line.clone(), Vec::new()));
                            cur = Some(k2);
                            proof {
                                assert(secs_view(secs@) =~~= secs_view(old_secs).update(
                                    k2 as int,
                                    (line@, Seq::<Seq<char>>::empty()),
                                ));
                            }
                        },
                        None => {
                            cur = Some(secs.len());
                            secs.push((line.clone(), Vec::new()));
                            proof {
                                assert(secs_view(secs@) =~~= secs_view(old_secs).push(
                                    (line@, Seq::<Seq<char>>::empty()),
                                ));
                            }
                        },
                    }
                },
            }
        }
        i = i + 1;
    }
    secs
}

} // verus!
