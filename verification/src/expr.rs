//! The platform-conditional expression language: a boolean expression over
//! platform attributes, written `cfg(...)`, with `not`/`any`/`all` operators
//! and leaf predicates (target-family membership, `key = "value"` attribute
//! match). A bare triple is normalized to `cfg(target = "<triple>")` before
//! parsing.
//!
//! The grammar is specified by the recursive functions `spec_parse_cfg`,
//! `spec_parse_expr` and `spec_parse_args`; the executable parser is proved
//! to return exactly what they describe. Evaluation against a triple's
//! attributes is specified by `eval_expr`.

use vstd::prelude::*;

use crate::text::starts_with;
use crate::text::str_eq;

verus! {

/// Operating-system family of a target platform.
#[derive(PartialEq, Eq, Structural, Clone, Copy, Debug)]
pub enum OsFamily {
    Unix,
    Windows,
}

/// Mathematical form of a parsed conditional expression. `any`/`all` lists
/// are folded into binary disjunctions/conjunctions; unknown predicates
/// (identifiers other than `unix`/`windows`, key/value pairs whose key is
/// not `target`) become `UnknownPred`, which never matches any platform.
pub enum CfgExprS {
    NotExpr(Box<CfgExprS>),
    OrExpr(Box<CfgExprS>, Box<CfgExprS>),
    AndExpr(Box<CfgExprS>, Box<CfgExprS>),
    FamilyPred(OsFamily),
    TargetPred(Seq<char>),
    UnknownPred,
    TrueConst,
    FalseConst,
}

/// Executable form of a parsed conditional expression.
pub enum CfgExpr {
    NotExpr(Box<CfgExpr>),
    OrExpr(Box<CfgExpr>, Box<CfgExpr>),
    AndExpr(Box<CfgExpr>, Box<CfgExpr>),
    FamilyPred(OsFamily),
    TargetPred(String),
    UnknownPred,
    TrueConst,
    FalseConst,
}

pub open spec fn expr_view(e: CfgExpr) -> CfgExprS
    decreases e,
{
    match e {
        CfgExpr::NotExpr(inner) => CfgExprS::NotExpr(Box::new(expr_view(*inner))),
        CfgExpr::OrExpr(x, y) => CfgExprS::OrExpr(
            Box::new(expr_view(*x)),
            Box::new(expr_view(*y)),
        ),
        CfgExpr::AndExpr(x, y) => CfgExprS::AndExpr(
            Box::new(expr_view(*x)),
            Box::new(expr_view(*y)),
        ),
        CfgExpr::FamilyPred(f) => CfgExprS::FamilyPred(f),
        CfgExpr::TargetPred(t) => CfgExprS::TargetPred(t@),
        CfgExpr::UnknownPred => CfgExprS::UnknownPred,
        CfgExpr::TrueConst => CfgExprS::TrueConst,
        CfgExpr::FalseConst => CfgExprS::FalseConst,
    }
}

impl View for CfgExpr {
    type V = CfgExprS;

    open spec fn view(&self) -> CfgExprS {
        expr_view(*self)
    }
}

/// What an expression means on a platform with the given OS family and
/// triple identifier: `not`/`any`/`all` are the usual boolean operators,
/// a family predicate compares the OS family, a `target = "..."` predicate
/// compares the exact triple identifier, and any other predicate is false.
pub open spec fn eval_expr(e: CfgExprS, family: Option<OsFamily>, triple: Seq<char>) -> bool
    decreases e,
{
    match e {
        CfgExprS::NotExpr(inner) => !eval_expr(*inner, family, triple),
        CfgExprS::OrExpr(x, y) => eval_expr(*x, family, triple) || eval_expr(*y, family, triple),
        CfgExprS::AndExpr(x, y) => eval_expr(*x, family, triple) && eval_expr(*y, family, triple),
        CfgExprS::FamilyPred(f) => family == Some(f),
        CfgExprS::TargetPred(t) => t == triple,
        CfgExprS::UnknownPred => false,
        CfgExprS::TrueConst => true,
        CfgExprS::FalseConst => false,
    }
}

/// Whitespace accepted between tokens.
pub open spec fn is_ws(c: char) -> bool {
    c == ' ' || c == '\t' || c == '\n' || c == '\r'
}

/// Characters an identifier may consist of: ASCII letters, digits, `_`.
pub open spec fn is_ident_char(c: char) -> bool {
    (97 <= c as int && c as int <= 122) || (65 <= c as int && c as int <= 90) || (48 <= c as int
        && c as int <= 57) || c as int == 95
}

/// First position at or after `i` holding a non-whitespace character.
pub open spec fn spec_skip_ws(s: Seq<char>, i: int) -> int
    decreases s.len() - i,
{
    if 0 <= i && i < s.len() && is_ws(s[i]) {
        spec_skip_ws(s, i + 1)
    } else {
        i
    }
}

/// End of the identifier-character run starting at `i`.
pub open spec fn spec_ident_end(s: Seq<char>, i: int) -> int
    decreases s.len() - i,
{
    if 0 <= i && i < s.len() && is_ident_char(s[i]) {
        spec_ident_end(s, i + 1)
    } else {
        i
    }
}

/// First position at or after `i` holding a double quote, or the end of the
/// input if there is none.
pub open spec fn spec_value_end(s: Seq<char>, i: int) -> int
    decreases s.len() - i,
{
    if 0 <= i && i < s.len() {
        if s[i] == '"' {
            i
        } else {
            spec_value_end(s, i + 1)
        }
    } else {
        i
    }
}

/// The leaf an identifier predicate denotes: `unix` and `windows` are
/// target-family predicates; anything else is an unknown predicate.
pub open spec fn leaf_of_ident(id: Seq<char>) -> CfgExprS {
    if id == "unix"@ {
        CfgExprS::FamilyPred(OsFamily::Unix)
    } else if id == "windows"@ {
        CfgExprS::FamilyPred(OsFamily::Windows)
    } else {
        CfgExprS::UnknownPred
    }
}

/// `any(e1, ..., en)` folded to nested disjunctions; empty `any()` is false.
pub open spec fn fold_any(es: Seq<CfgExprS>) -> CfgExprS
    decreases es.len(),
{
    if es.len() == 0 {
        CfgExprS::FalseConst
    } else {
        CfgExprS::OrExpr(Box::new(es[0]), Box::new(fold_any(es.drop_first())))
    }
}

/// `all(e1, ..., en)` folded to nested conjunctions; empty `all()` is true.
pub open spec fn fold_all(es: Seq<CfgExprS>) -> CfgExprS
    decreases es.len(),
{
    if es.len() == 0 {
        CfgExprS::TrueConst
    } else {
        CfgExprS::AndExpr(Box::new(es[0]), Box::new(fold_all(es.drop_first())))
    }
}

/// Parses one expression starting at `i`: `not(e)`, `any(list)`, `all(list)`,
/// `ident = "value"`, or a bare identifier. Returns the expression and the
/// position just after it (trailing whitespace not consumed).
pub open spec fn spec_parse_expr(s: Seq<char>, i: int) -> Option<(CfgExprS, int)>
    decreases s.len() - i, 1int,
{
    let i1 = spec_skip_ws(s, i);
    let i2 = spec_ident_end(s, i1);
    if !(i <= i1 && i1 < i2 && i2 <= s.len()) {
        None
    } else {
        let id = s.subrange(i1, i2);
        let i3 = spec_skip_ws(s, i2);
        if i2 <= i3 && i3 < s.len() && s[i3] == '(' && (id == "not"@ || id == "any"@ || id
            == "all"@) {
            if id == "not"@ {
                match spec_parse_expr(s, i3 + 1) {
                    None => None,
                    Some((e, j)) => {
                        let j1 = spec_skip_ws(s, j);
                        if j1 < s.len() && s[j1] == ')' {
                            Some((CfgExprS::NotExpr(Box::new(e)), j1 + 1))
                        } else {
                            None
                        }
                    },
                }
            } else {
                match spec_parse_args(s, i3 + 1) {
                    None => None,
                    Some((es, j)) => Some(
                        (
                            if id == "any"@ {
                                fold_any(es)
                            } else {
                                fold_all(es)
                            },
                            j,
                        ),
                    ),
                }
            }
        } else if i3 < s.len() && s[i3] == '=' {
            let i4 = spec_skip_ws(s, i3 + 1);
            if i4 < s.len() && s[i4] == '"' {
                let i5 = spec_value_end(s, i4 + 1);
                if i4 + 1 <= i5 && i5 < s.len() && s[i5] == '"' {
                    let v = s.subrange(i4 + 1, i5);
                    Some(
                        (
                            if id == "target"@ {
                                CfgExprS::TargetPred(v)
                            } else {
                                CfgExprS::UnknownPred
                            },
                            i5 + 1,
                        ),
                    )
                } else {
                    None
                }
            } else {
                None
            }
        } else {
            Some((leaf_of_ident(id), i2))
        }
    }
}

/// Parses an argument list up to and including the closing parenthesis:
/// `)` ends the list, `,` continues it; a trailing comma is accepted.
pub open spec fn spec_parse_args(s: Seq<char>, i: int) -> Option<(Seq<CfgExprS>, int)>
    decreases s.len() - i, 2int,
{
    let i0 = spec_skip_ws(s, i);
    if i0 < s.len() && s[i0] == ')' {
        Some((Seq::empty(), i0 + 1))
    } else {
        match spec_parse_expr(s, i) {
            None => None,
            Some((e, j)) => {
                let j0 = spec_skip_ws(s, j);
                if j0 < s.len() && s[j0] == ')' {
                    Some((seq![e], j0 + 1))
                } else if i < j0 + 1 && j0 < s.len() && s[j0] == ',' {
                    match spec_parse_args(s, j0 + 1) {
                        None => None,
                        Some((es, k)) => Some((seq![e] + es, k)),
                    }
                } else {
                    None
                }
            },
        }
    }
}

/// Parses a whole conditional expression: `cfg( <expr> )`, with optional
/// surrounding whitespace and nothing after the closing parenthesis.
pub open spec fn spec_parse_cfg(s: Seq<char>) -> Option<CfgExprS> {
    let i1 = spec_skip_ws(s, 0);
    let i2 = spec_ident_end(s, i1);
    if !(0 <= i1 && i1 < i2 && i2 <= s.len() && s.subrange(i1, i2) == "cfg"@) {
        None
    } else {
        let i3 = spec_skip_ws(s, i2);
        if i3 < s.len() && s[i3] == '(' {
            match spec_parse_expr(s, i3 + 1) {
                None => None,
                Some((e, j)) => {
                    let j1 = spec_skip_ws(s, j);
                    if j1 < s.len() && s[j1] == ')' && spec_skip_ws(s, j1 + 1) == s.len() {
                        Some(e)
                    } else {
                        None
                    }
                },
            }
        } else {
            None
        }
    }
}

/// A target string already written as a `cfg(...)` expression.
pub open spec fn spec_has_cfg_prefix(t: Seq<char>) -> bool {
    starts_with("cfg("@, t)
}

/// A bare triple is normalized to an equivalent single-predicate expression.
pub open spec fn spec_normalized(t: Seq<char>) -> Seq<char> {
    if spec_has_cfg_prefix(t) {
        t
    } else {
        "cfg(target = \""@ + t + "\")"@
    }
}

/// The views of a list of parsed expressions.
pub open spec fn views_of_exprs(es: Seq<CfgExpr>) -> Seq<CfgExprS> {
    es.map_values(|x: CfgExpr| x@)
}

fn char_is_ws(c: char) -> (r: bool)
    ensures
        r == is_ws(c),
{
    c == ' ' || c == '\t' || c == '\n' || c == '\r'
}

fn char_is_ident(c: char) -> (r: bool)
    ensures
        r == is_ident_char(c),
{
    let u = c as u32;
    (97 <= u && u <= 122) || (65 <= u && u <= 90) || (48 <= u && u <= 57) || u == 95
}

fn skip_ws(s: &str, len: usize, i: usize) -> (r: usize)
    requires
        len == s@.len(),
        i <= len,
    ensures
        r == spec_skip_ws(s@, i as int),
        i <= r <= len,
    decreases len - i,
{
    if i < len {
        let c = s.get_char(i);
        if char_is_ws(c) {
            return skip_ws(s, len, i + 1);
        }
    }
    i
}

fn ident_end(s: &str, len: usize, i: usize) -> (r: usize)
    requires
        len == s@.len(),
        i <= len,
    ensures
        r == spec_ident_end(s@, i as int),
        i <= r <= len,
    decreases len - i,
{
    if i < len {
        let c = s.get_char(i);
        if char_is_ident(c) {
            return ident_end(s, len, i + 1);
        }
    }
    i
}

fn value_end(s: &str, len: usize, i: usize) -> (r: usize)
    requires
        len == s@.len(),
        i <= len,
    ensures
        r == spec_value_end(s@, i as int),
        i <= r <= len,
    decreases len - i,
{
    if i < len {
        let c = s.get_char(i);
        if c != '"' {
            return value_end(s, len, i + 1);
        }
    }
    i
}

/// Compares the character range `[lo, hi)` of `s` with the word `w`.
fn range_eq(s: &str, lo: usize, hi: usize, w: &str) -> (r: bool)
    requires
        lo <= hi,
        hi <= s@.len(),
    ensures
        r == (s@.subrange(lo as int, hi as int) == w@),
{
    let wlen = w.unicode_len();
    if hi - lo != wlen {
        assert(s@.subrange(lo as int, hi as int).len() != w@.len());
        return false;
    }
    let mut j: usize = 0;
    while j < wlen
        invariant
            j <= wlen,
            lo + wlen <= s@.len(),
            wlen == w@.len(),
            hi == lo + wlen,
            forall|k: int| 0 <= k < j ==> s@[lo + k] == w@[k],
        decreases wlen - j,
    {
        let cs = s.get_char(lo + j);
        let cw = w.get_char(j);
        if cs != cw {
            assert(s@.subrange(lo as int, hi as int)[j as int] != w@[j as int]);
            return false;
        }
        j = j + 1;
    }
    assert(s@.subrange(lo as int, hi as int) =~= w@);
    true
}

fn parse_expr(s: &str, len: usize, i: usize) -> (r: Option<(CfgExpr, usize)>)
    requires
        len == s@.len(),
        i <= len,
    ensures
        r is None ==> spec_parse_expr(s@, i as int) is None,
        r is Some ==> {
            let (e, j) = r->Some_0;
            spec_parse_expr(s@, i as int) == Some((e@, j as int)) && i < j <= len
        },
    decreases len - i, 1int,
{
    let i1 = skip_ws(s, len, i);
    let i2 = ident_end(s, len, i1);
    if i2 == i1 {
        return None;
    }
    let i3 = skip_ws(s, len, i2);
    let id_not = range_eq(s, i1, i2, "not");
    let id_any = range_eq(s, i1, i2, "any");
    let id_all = range_eq(s, i1, i2, "all");
    if i3 < len && (id_not || id_any || id_all) && s.get_char(i3) == '(' {
        if id_not {
            match parse_expr(s, len, i3 + 1) {
                None => None,
                Some((e, j)) => {
                    let j1 = skip_ws(s, len, j);
                    if j1 < len && s.get_char(j1) == ')' {
                        Some((CfgExpr::NotExpr(Box::new(e)), j1 + 1))
                    } else {
                        None
                    }
                },
            }
        } else {
            match parse_args(s, len, i3 + 1) {
                None => None,
                Some((es, j)) => {
                    if id_any {
                        Some((fold_any_exec(es), j))
                    } else {
                        Some((fold_all_exec(es), j))
                    }
                },
            }
        }
    } else if i3 < len && s.get_char(i3) == '=' {
        let i4 = skip_ws(s, len, i3 + 1);
        if i4 < len && s.get_char(i4) == '"' {
            let i5 = value_end(s, len, i4 + 1);
            if i5 < len && s.get_char(i5) == '"' {
                let v = s.substring_char(i4 + 1, i5).to_owned();
                if range_eq(s, i1, i2, "target") {
                    Some((CfgExpr::TargetPred(v), i5 + 1))
                } else {
                    Some((CfgExpr::UnknownPred, i5 + 1))
                }
            } else {
                None
            }
        } else {
            None
        }
    } else {
        let e = if range_eq(s, i1, i2, "unix") {
            CfgExpr::FamilyPred(OsFamily::Unix)
        } else if range_eq(s, i1, i2, "windows") {
            CfgExpr::FamilyPred(OsFamily::Windows)
        } else {
            CfgExpr::UnknownPred
        };
        Some((e, i2))
    }
}

fn parse_args(s: &str, len: usize, i: usize) -> (r: Option<(Vec<CfgExpr>, usize)>)
    requires
        len == s@.len(),
        i <= len,
    ensures
        r is None ==> spec_parse_args(s@, i as int) is None,
        r is Some ==> {
            let (es, j) = r->Some_0;
            spec_parse_args(s@, i as int) == Some((views_of_exprs(es@), j as int)) && i < j <= len
        },
    decreases len - i, 2int,
{
    let i0 = skip_ws(s, len, i);
    if i0 < len && s.get_char(i0) == ')' {
        let v: Vec<CfgExpr> = Vec::new();
        assert(views_of_exprs(v@) =~= Seq::<CfgExprS>::empty());
        return Some((v, i0 + 1));
    }
    match parse_expr(s, len, i) {
        None => None,
        Some((e, j)) => {
            let j0 = skip_ws(s, len, j);
            if j0 < len && s.get_char(j0) == ')' {
                let ghost ev = e@;
                let mut v: Vec<CfgExpr> = Vec::new();
                v.push(e);
                assert(views_of_exprs(v@) =~= seq![ev]);
                Some((v, j0 + 1))
            } else if j0 < len && s.get_char(j0) == ',' {
                match parse_args(s, len, j0 + 1) {
                    None => None,
                    Some((es, k)) => {
                        let ghost ev = e@;
                        let ghost tail = es@;
                        let mut es = es;
                        es.insert(0, e);
                        assert(views_of_exprs(es@) =~= seq![ev] + views_of_exprs(tail));
                        Some((es, k))
                    },
                }
            } else {
                None
            }
        },
    }
}

fn fold_any_exec(es: Vec<CfgExpr>) -> (r: CfgExpr)
    ensures
        r@ == fold_any(views_of_exprs(es@)),
    decreases es@.len(),
{
    let mut es = es;
    if es.len() == 0 {
        assert(views_of_exprs(es@) =~= Seq::<CfgExprS>::empty());
        CfgExpr::FalseConst
    } else {
        let ghost orig = es@;
        let first = es.remove(0);
        proof {
            assert(es@ =~= orig.drop_first());
            assert(views_of_exprs(orig).drop_first() =~= views_of_exprs(orig.drop_first()));
        }
        let rest = fold_any_exec(es);
        CfgExpr::OrExpr(Box::new(first), Box::new(rest))
    }
}

fn fold_all_exec(es: Vec<CfgExpr>) -> (r: CfgExpr)
    ensures
        r@ == fold_all(views_of_exprs(es@)),
    decreases es@.len(),
{
    let mut es = es;
    if es.len() == 0 {
        assert(views_of_exprs(es@) =~= Seq::<CfgExprS>::empty());
        CfgExpr::TrueConst
    } else {
        let ghost orig = es@;
        let first = es.remove(0);
        proof {
            assert(es@ =~= orig.drop_first());
            assert(views_of_exprs(orig).drop_first() =~= views_of_exprs(orig.drop_first()));
        }
        let rest = fold_all_exec(es);
        CfgExpr::AndExpr(Box::new(first), Box::new(rest))
    }
}

/// Parses a whole `cfg(...)` expression string.
pub fn parse_cfg(s: &str) -> (r: Option<CfgExpr>)
    ensures
        r is None ==> spec_parse_cfg(s@) is None,
        r is Some ==> spec_parse_cfg(s@) == Some(r->Some_0@),
{
    let len = s.unicode_len();
    let i1 = skip_ws(s, len, 0);
    let i2 = ident_end(s, len, i1);
    if i2 == i1 {
        return None;
    }
    if !range_eq(s, i1, i2, "cfg") {
        return None;
    }
    let i3 = skip_ws(s, len, i2);
    if i3 >= len {
        return None;
    }
    if s.get_char(i3) != '(' {
        return None;
    }
    match parse_expr(s, len, i3 + 1) {
        None => None,
        Some((e, j)) => {
            let j1 = skip_ws(s, len, j);
            if j1 < len && s.get_char(j1) == ')' && skip_ws(s, len, j1 + 1) == len {
                Some(e)
            } else {
                None
            }
        },
    }
}

/// Evaluates a parsed expression against one platform's attributes.
pub fn eval_expr_exec(e: &CfgExpr, family: Option<OsFamily>, triple: &str) -> (r: bool)
    ensures
        r == eval_expr(e@, family, triple@),
    decreases *e,
{
    match e {
        CfgExpr::NotExpr(inner) => !eval_expr_exec(inner, family, triple),
        CfgExpr::OrExpr(x, y) => {
            let a = eval_expr_exec(x, family, triple);
            let b = eval_expr_exec(y, family, triple);
            a || b
        },
        CfgExpr::AndExpr(x, y) => {
            let a = eval_expr_exec(x, family, triple);
            let b = eval_expr_exec(y, family, triple);
            a && b
        },
        CfgExpr::FamilyPred(f) => match family {
            Some(g) => *f == g,
            None => false,
        },
        CfgExpr::TargetPred(t) => str_eq(t.as_str(), triple),
        CfgExpr::UnknownPred => false,
        CfgExpr::TrueConst => true,
        CfgExpr::FalseConst => false,
    }
}

/// Normalizes a target string: an expression already of the form `cfg(...)`
/// is kept; a bare triple is wrapped as `cfg(target = "<triple>")`.
pub fn normalize_target(t: &str) -> (r: String)
    ensures
        r@ == spec_normalized(t@),
{
    let len = t.unicode_len();
    proof {
        reveal_strlit("cfg(");
    }
    let has_prefix = if len >= 4 {
        range_eq(t, 0, 4, "cfg(")
    } else {
        false
    };
    if has_prefix {
        t.to_owned()
    } else {
        let mut out = String::from_str("cfg(target = \"");
        out.append(t);
        out.append("\")");
        out
    }
}

} // verus!
