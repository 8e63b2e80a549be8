//! The game data index: a line-oriented table that names the object
//! definition and placement files to load, with historical path fixes
//! applied to a handful of entries.

use vstd::prelude::*;
use vstd::string::StrSliceExecFns;
use vstd::string::StringExecFns;

use crate::text::chars_between;
use crate::text::push_char;
use crate::text::sp_lines;
use crate::text::sp_skip_line;
use crate::text::skip_line;
use crate::text::split_lines;

verus! {

/// The definition and placement file paths a data index names, in order.
#[derive(Debug, PartialEq, Eq, Clone)]
pub struct GtaVcDat {
    pub ides: Vec<String>,
    pub ipls: Vec<String>,
}

/// Ghost view of [`GtaVcDat`].
pub struct GtaVcDatV {
    pub ides: Seq<Seq<char>>,
    pub ipls: Seq<Seq<char>>,
}

impl View for GtaVcDat {
    type V = GtaVcDatV;

    open spec fn view(&self) -> GtaVcDatV {
        GtaVcDatV {
            ides: self.ides@.map_values(|s: String| s@),
            ipls: self.ipls@.map_values(|s: String| s@),
        }
    }
}

/// Whether `s` begins with `p`.
pub open spec fn sp_starts_with(s: Seq<char>, p: Seq<char>) -> bool {
    p.len() <= s.len() && s.take(p.len() as int) == p
}

/// Whether `s` ends with `p`.
pub open spec fn sp_ends_with(s: Seq<char>, p: Seq<char>) -> bool {
    p.len() <= s.len() && s.skip(s.len() - p.len()) == p
}

/// Offset of the first space of `s`, or its length if there is none.
pub open spec fn sp_space_idx(s: Seq<char>) -> int
    decreases s.len(),
{
    if s.len() == 0 {
        0
    } else if s[0] == ' ' {
        0
    } else {
        1 + sp_space_idx(s.drop_first())
    }
}

/// `sp_space_idx` is the unique cut: no space before it, and a space at
/// it unless it is the length.
pub proof fn lemma_space_idx(s: Seq<char>, m: int)
    requires
        0 <= m <= s.len(),
        m == s.len() || s[m] == ' ',
        forall|j: int| 0 <= j < m ==> s[j] != ' ',
    ensures
        sp_space_idx(s) == m,
    decreases s.len(),
{
    if s.len() == 0 {
    } else if s[0] == ' ' {
        assert(m == 0);
    } else {
        assert(m >= 1);
        lemma_space_idx(s.drop_first(), m - 1);
    }
}

/// `s` split at its first space: the parts before and after it.
pub open spec fn sp_split_space(s: Seq<char>) -> Option<(Seq<char>, Seq<char>)> {
    let i = sp_space_idx(s);
    if i == s.len() {
        None
    } else {
        Some((s.take(i), s.skip(i + 1)))
    }
}

/// `s` with every occurrence of `pat` replaced by `to`, scanning left to
/// right without rescanning replacements.
pub open spec fn sp_replace(s: Seq<char>, pat: Seq<char>, to: Seq<char>) -> Seq<char>
    decreases s.len(),
{
    if s.len() == 0 {
        s
    } else if 0 < pat.len() <= s.len() && s.take(pat.len() as int) == pat {
        to + sp_replace(s.skip(pat.len() as int), pat, to)
    } else {
        seq![s[0]] + sp_replace(s.drop_first(), pat, to)
    }
}

/// Replace every occurrence of `pat` in `s` by `to`.
#[verifier::rlimit(100)]
#[verifier::loop_isolation(false)]
pub fn replace_all(s: &String, pat: &str, to: &str) -> (r: String)
    requires
        pat@.len() > 0,
    ensures
        r@ == sp_replace(s@, pat@, to@),
{
    let n = s.as_str().unicode_len();
    let plen = pat.unicode_len();
    let mut out = String::new();
    let mut i: usize = 0;
    proof {
        assert(s@.skip(0) =~= s@);
        assert(Seq::<char>::empty() + sp_replace(s@, pat@, to@) =~= sp_replace(s@, pat@, to@));
    }
    while i < n
        invariant
            i <= n == s@.len(),
            plen == pat@.len(),
            sp_replace(s@, pat@, to@) == out@ + sp_replace(s@.skip(i as int), pat@, to@),
        decreases n - i,
    {
        let ghost old_out = out@;
        let ghost rem = s@.skip(i as int);
        let mut matches_here = plen <= n - i;
        let mut j: usize = 0;
        while matches_here && j < plen
            invariant
                j <= plen,
                i <= n,
                matches_here ==> plen <= n - i && (forall|k: int|
                    0 <= k < j ==> s@[i + k] == pat@[k]),
                (!matches_here && plen <= n - i) ==> exists|k: int|
                    0 <= k < plen && s@[i + k] != pat@[k],
            decreases (if matches_here {
                1int
            } else {
                0int
            }), plen - j,
        {
            if s.as_str().get_char(i + j) != pat.get_char(j) {
                proof {
                    assert(s@[i + j] != pat@[j as int]);
                }
                matches_here = false;
            } else {
                j = j + 1;
            }
        }
        if matches_here {
            proof {
                assert(forall|k: int| 0 <= k < rem.len() ==> #[trigger] rem[k] == s@[i + k]);
                assert(rem.take(plen as int) =~= pat@);
                assert(rem.skip(plen as int) =~= s@.skip(i + plen));
            }
            out.append(to);
            i = i + plen;
            proof {
                assert((old_out + (to@ + sp_replace(s@.skip(i as int), pat@, to@))) =~= (out@
                    + sp_replace(s@.skip(i as int), pat@, to@)));
            }
        } else {
            proof {
                assert(forall|k: int| 0 <= k < rem.len() ==> #[trigger] rem[k] == s@[i + k]);
                if plen <= n - i {
                    let k = choose|k: int| 0 <= k < plen && s@[i + k] != pat@[k];
                    assert(rem.take(plen as int)[k] != pat@[k]);
                    assert(rem.take(plen as int) != pat@);
                }
                assert(rem.drop_first() =~= s@.skip(i + 1));
            }
            let c = s.as_str().get_char(i);
            push_char(&mut out, c);
            i = i + 1;
            proof {
                assert((old_out + (seq![rem[0]] + sp_replace(s@.skip(i as int), pat@, to@)))
                    =~= (out@ + sp_replace(s@.skip(i as int), pat@, to@)));
            }
        }
    }
    proof {
        assert(s@.skip(n as int).len() == 0);
        assert(sp_replace(s@.skip(n as int), pat@, to@) =~= Seq::<char>::empty());
        assert(out@ + Seq::<char>::empty() =~= out@);
    }
    out
}

/// The historical path fixes the data index applies to a map entry:
/// backslashes become slashes, the directory and the extensions are
/// lowered, and a handful of entries whose on-disk case differs are
/// corrected.
pub open spec fn sp_fix_path(p: Seq<char>) -> Seq<char> {
    let p1 = sp_replace(p, "\\"@, "/"@);
    let p2 = sp_replace(p1, "DATA/MAPS"@, "data/maps"@);
    let p3 = sp_replace(p2, ".IDE"@, ".ide"@);
    let p4 = sp_replace(p3, ".IPL"@, ".ipl"@);
    let p5 = sp_replace(p4, "haitin/haitin.ide"@, "haitiN/haitiN.ide"@);
    let p6 = sp_replace(p5, "oceandn/oceandn"@, "oceandn/oceandN"@);
    let p7 = sp_replace(p6, "club.ipl"@, "CLUB.ipl"@);
    sp_replace(p7, "haitin/haitin.ipl"@, "haitiN/haitin.ipl"@)
}

/// What one line of the data index contributes: a definition path, a
/// placement path, or nothing. Comment and blank lines, lines without a
/// space, entries outside the map directory, and one known-unwanted
/// placement file are all skipped.
pub open spec fn sp_dat_line(l: Seq<char>) -> (Option<Seq<char>>, Option<Seq<char>>) {
    if sp_skip_line(l) {
        (None, None)
    } else {
        match sp_split_space(l) {
            None => (None, None),
            Some(parts) => {
                if !sp_starts_with(parts.1, "DATA\\MAPS"@) {
                    (None, None)
                } else {
                    let p = sp_fix_path(parts.1);
                    if sp_ends_with(p, "islandsf.ipl"@) {
                        (None, None)
                    } else if parts.0 == "IDE"@ {
                        (Some(p), None)
                    } else if parts.0 == "IPL"@ {
                        (None, Some(p))
                    } else {
                        (None, None)
                    }
                }
            },
        }
    }
}

/// The paths collected from the first `k` lines of a data index, after
/// the fixed leading default-definition entry.
pub open spec fn sp_parse_dat(lines: Seq<Seq<char>>, k: int) -> (Seq<Seq<char>>, Seq<Seq<char>>)
    decreases k,
{
    if k <= 0 {
        (seq!["data/default.ide"@], Seq::empty())
    } else {
        let st = sp_parse_dat(lines, k - 1);
        let c = sp_dat_line(lines[k - 1]);
        (
            match c.0 {
                Some(p) => st.0.push(p),
                None => st.0,
            },
            match c.1 {
                Some(p) => st.1.push(p),
                None => st.1,
            },
        )
    }
}

/// Whether `s` begins with `p`.
pub fn starts_with(s: &String, p: &str) -> (r: bool)
    ensures
        r == sp_starts_with(s@, p@),
{
    let n = s.as_str().unicode_len();
    let plen = p.unicode_len();
    if plen > n {
        return false;
    }
    let mut j: usize = 0;
    while j < plen
        invariant
            j <= plen == p@.len(),
            plen <= n == s@.len(),
            forall|k: int| 0 <= k < j ==> s@[k] == p@[k],
        decreases plen - j,
    {
        if s.as_str().get_char(j) != p.get_char(j) {
            proof {
                assert(s@.take(plen as int)[j as int] != p@[j as int]);
            }
            return false;
        }
        j = j + 1;
    }
    proof {
        assert(s@.take(plen as int) =~= p@);
    }
    true
}

/// Whether `s` ends with `p`.
pub fn ends_with(s: &String, p: &str) -> (r: bool)
    ensures
        r == sp_ends_with(s@, p@),
{
    let n = s.as_str().unicode_len();
    let plen = p.unicode_len();
    if plen > n {
        return false;
    }
    let base = n - plen;
    let mut j: usize = 0;
    while j < plen
        invariant
            j <= plen == p@.len(),
            plen <= n == s@.len(),
            base == n - plen,
            forall|k: int| 0 <= k < j ==> s@[base + k] == p@[k],
        decreases plen - j,
    {
        if s.as_str().get_char(base + j) != p.get_char(j) {
            proof {
                assert(s@.skip(base as int)[j as int] != p@[j as int]);
            }
            return false;
        }
        j = j + 1;
    }
    proof {
        assert(s@.skip(base as int) =~= p@);
    }
    true
}

/// Whether the characters of `s` are exactly those of `p`.
pub fn str_content_eq(s: &String, p: &str) -> (r: bool)
    ensures
        r == (s@ == p@),
{
    let n = s.as_str().unicode_len();
    let plen = p.unicode_len();
    if plen != n {
        return false;
    }
    let mut j: usize = 0;
    while j < plen
        invariant
            j <= plen == p@.len(),
            plen == n == s@.len(),
            forall|k: int| 0 <= k < j ==> s@[k] == p@[k],
        decreases plen - j,
    {
        if s.as_str().get_char(j) != p.get_char(j) {
            return false;
        }
        j = j + 1;
    }
    proof {
        assert(s@ =~= p@);
    }
    true
}

/// Split a line at its first space.
pub fn split_space(line: &String) -> (r: Option<(String, String)>)
    ensures
        match sp_split_space(line@) {
            Some(m) => r matches Some(v) && v.0@ == m.0 && v.1@ == m.1,
            None => r is None,
        },
{
    let n = line.as_str().unicode_len();
    let mut j: usize = 0;
    while j < n && line.as_str().get_char(j) != ' '
        invariant
            j <= n == line@.len(),
            forall|k: int| 0 <= k < j ==> line@[k] != ' ',
        decreases n - j,
    {
        j = j + 1;
    }
    proof {
        lemma_space_idx(line@, j as int);
    }
    if j == n {
        None
    } else {
        Some((chars_between(line.as_str(), 0, j), chars_between(line.as_str(), j + 1, n)))
    }
}

/// Parse a game data index: collect the definition and placement file
/// paths of its map entries, in order, with the historical path fixes
/// applied, after a fixed leading default-definition entry.
#[verifier::rlimit(100)]
#[verifier::loop_isolation(false)]
pub fn parse_gta_vc_dat(dat: &str) -> (r: GtaVcDat)
    ensures
        ({
            let m = sp_parse_dat(sp_lines(dat@), sp_lines(dat@).len() as int);
            r@.ides == m.0 && r@.ipls == m.1
        }),
{
    let lines = split_lines(dat);
    let ghost linesv = sp_lines(dat@);
    let mut ides: Vec<String> = Vec::new();
    ides.push(String::from_str("data/default.ide"));
    let mut ipls: Vec<String> = Vec::new();
    let n = lines.len();
    proof {
        assert(ides@.map_values(|s: String| s@) =~= seq!["data/default.ide"@]);
        assert(ipls@.map_values(|s: String| s@) =~= Seq::<Seq<char>>::empty());
    }
    let mut i: usize = 0;
    while i < n
        invariant
            i <= n == linesv.len(),
            lines@.map_values(|l: String| l@) == linesv,
            lines@.len() == n,
            ides@.map_values(|s: String| s@) == sp_parse_dat(linesv, i as int).0,
            ipls@.map_values(|s: String| s@) == sp_parse_dat(linesv, i as int).1,
        decreases n - i,
    {
        let line = &lines[i];
        proof {
            assert(line@ == linesv[i as int]);
        }
        let ghost old_ides = ides@;
        let ghost old_ipls = ipls@;
        if !skip_line(line) {
            match split_space(line) {
                None => {},
                Some(parts) => {
                    let (filetype, path) = parts;
                    proof {
                        reveal_strlit("DATA\\MAPS");
                    }
                    if starts_with(&path, "DATA\\MAPS") {
                        proof {
                            reveal_strlit("\\");
                            reveal_strlit("DATA/MAPS");
                            reveal_strlit(".IDE");
                            reveal_strlit(".IPL");
                            reveal_strlit("haitin/haitin.ide");
                            reveal_strlit("oceandn/oceandn");
                            reveal_strlit("club.ipl");
                            reveal_strlit("haitin/haitin.ipl");
                        }
                        let p1 = replace_all(&path, "\\", "/");
                        let p2 = replace_all(&p1, "DATA/MAPS", "data/maps");
                        let p3 = replace_all(&p2, ".IDE", ".ide");
                        let p4 = replace_all(&p3, ".IPL", ".ipl");
                        let p5 = replace_all(&p4, "haitin/haitin.ide", "haitiN/haitiN.ide");
                        let p6 = replace_all(&p5, "oceandn/oceandn", "oceandn/oceandN");
                        let p7 = replace_all(&p6, "club.ipl", "CLUB.ipl");
                        let p8 = replace_all(&p7, "haitin/haitin.ipl", "haitiN/haitin.ipl");
                        if !ends_with(&p8, "islandsf.ipl") {
                            if str_content_eq(&filetype, "IDE") {
                                ides.push(p8);
                                proof {
                                    assert(ides@.map_values(|s: String| s@) =~= old_ides.map_values(
                                        |s: String| s@,
                                    ).push(sp_fix_path(sp_split_space(line@)->Some_0.1)));
                                }
                            } else if str_content_eq(&filetype, "IPL") {
                                ipls.push(p8);
                                proof {
                                    assert(ipls@.map_values(|s: String| s@) =~= old_ipls.map_values(
                                        |s: String| s@,
                                    ).push(sp_fix_path(sp_split_space(line@)->Some_0.1)));
                                }
                            }
                        }
                    }
                },
            }
        }
        i = i + 1;
    }
    GtaVcDat { ides, ipls }
}

} // verus!
