//! The platform catalog and the platform resolver.
//!
//! The catalog is a fixed, compiled-in, ordered list of target triples, each
//! with its derived OS family. The resolver classifies a conditional
//! expression against the whole catalog (`is_bazel_supported_platform`),
//! extracts the exact matching subset (`get_matching_bazel_triples`),
//! filters and canonicalizes triple lists (`filter_bazel_triples`), and maps
//! validated triples to platform-selector labels
//! (`generate_bazel_conditions`).

use vstd::prelude::*;

use crate::errors::RazeError;
use crate::expr::CfgExprS;
use crate::expr::OsFamily;
use crate::expr::eval_expr;
use crate::expr::parse_cfg;
use crate::expr::normalize_target;
use crate::expr::spec_normalized;
use crate::expr::spec_parse_cfg;
use crate::text::contains_str;
use crate::text::lex_leq_pair;
use crate::text::sort_strings;
use crate::text::str_eq;
use crate::text::views_of;

verus! {

/// One supported target platform: its triple identifier and OS family.
pub struct Platform {
    pub triple: String,
    pub family: Option<OsFamily>,
}

/// Number of triples in the catalog.
pub open spec fn catalog_len() -> int {
    18
}

/// The catalog triples, in their fixed order: a primary tier followed by a
/// secondary tier (the partition is documentary; both tiers are evaluated
/// identically).
pub open spec fn catalog_triples() -> Seq<Seq<char>> {
    seq![
        "i686-apple-darwin"@,
        "i686-pc-windows-gnu"@,
        "i686-unknown-linux-gnu"@,
        "x86_64-apple-darwin"@,
        "x86_64-pc-windows-gnu"@,
        "x86_64-unknown-linux-gnu"@,
        "aarch64-apple-ios"@,
        "aarch64-linux-android"@,
        "aarch64-unknown-linux-gnu"@,
        "arm-unknown-linux-gnueabi"@,
        "i686-linux-android"@,
        "i686-unknown-freebsd"@,
        "powerpc-unknown-linux-gnu"@,
        "s390x-unknown-linux-gnu"@,
        "wasm32-unknown-unknown"@,
        "x86_64-apple-ios"@,
        "x86_64-linux-android"@,
        "x86_64-unknown-freebsd"@,
    ]
}

/// The OS family of each catalog triple, in the same order.
pub open spec fn catalog_families() -> Seq<Option<OsFamily>> {
    seq![
        Some(OsFamily::Unix),
        Some(OsFamily::Windows),
        Some(OsFamily::Unix),
        Some(OsFamily::Unix),
        Some(OsFamily::Windows),
        Some(OsFamily::Unix),
        Some(OsFamily::Unix),
        Some(OsFamily::Unix),
        Some(OsFamily::Unix),
        Some(OsFamily::Unix),
        Some(OsFamily::Unix),
        Some(OsFamily::Unix),
        Some(OsFamily::Unix),
        Some(OsFamily::Unix),
        None,
        Some(OsFamily::Unix),
        Some(OsFamily::Unix),
        Some(OsFamily::Unix),
    ]
}

fn mk_platform(triple: &str, family: Option<OsFamily>) -> (r: Platform)
    ensures
        r.triple@ == triple@,
        r.family == family,
{
    Platform { triple: triple.to_owned(), family }
}

/// The platform catalog as executable data, matching `catalog_triples` and
/// `catalog_families` entry for entry.
pub fn supported_platform_triples() -> (r: Vec<Platform>)
    ensures
        r@.len() == catalog_len(),
        forall|j: int|
            0 <= j < catalog_len() ==> #[trigger] r@[j].triple@ == catalog_triples()[j]
                && r@[j].family == catalog_families()[j],
{
    let mut v: Vec<Platform> = Vec::new();
    v.push(mk_platform("i686-apple-darwin", Some(OsFamily::Unix)));
    v.push(mk_platform("i686-pc-windows-gnu", Some(OsFamily::Windows)));
    v.push(mk_platform("i686-unknown-linux-gnu", Some(OsFamily::Unix)));
    v.push(mk_platform("x86_64-apple-darwin", Some(OsFamily::Unix)));
    v.push(mk_platform("x86_64-pc-windows-gnu", Some(OsFamily::Windows)));
    v.push(mk_platform("x86_64-unknown-linux-gnu", Some(OsFamily::Unix)));
    v.push(mk_platform("aarch64-apple-ios", Some(OsFamily::Unix)));
    v.push(mk_platform("aarch64-linux-android", Some(OsFamily::Unix)));
    v.push(mk_platform("aarch64-unknown-linux-gnu", Some(OsFamily::Unix)));
    v.push(mk_platform("arm-unknown-linux-gnueabi", Some(OsFamily::Unix)));
    v.push(mk_platform("i686-linux-android", Some(OsFamily::Unix)));
    v.push(mk_platform("i686-unknown-freebsd", Some(OsFamily::Unix)));
    v.push(mk_platform("powerpc-unknown-linux-gnu", Some(OsFamily::Unix)));
    v.push(mk_platform("s390x-unknown-linux-gnu", Some(OsFamily::Unix)));
    v.push(mk_platform("wasm32-unknown-unknown", None));
    v.push(mk_platform("x86_64-apple-ios", Some(OsFamily::Unix)));
    v.push(mk_platform("x86_64-linux-android", Some(OsFamily::Unix)));
    v.push(mk_platform("x86_64-unknown-freebsd", Some(OsFamily::Unix)));
    v
}

/// Looks one triple up in the catalog, returning its attributes.
#[verifier::loop_isolation(false)]
pub fn get_platform_by_triple(triple: &str) -> (r: Option<Platform>)
    ensures
        r is Some <==> catalog_triples().contains(triple@),
        r is Some ==> r->Some_0.triple@ == triple@,
{
    let platforms = supported_platform_triples();
    let mut j: usize = 0;
    while j < platforms.len()
        invariant
            j <= platforms@.len(),
            forall|q: int| 0 <= q < j ==> catalog_triples()[q] != triple@,
        decreases platforms@.len() - j,
    {
        if str_eq(platforms[j].triple.as_str(), triple) {
            let p = Platform {
                triple: platforms[j].triple.clone(),
                family: platforms[j].family,
            };
            assert(catalog_triples()[j as int] == triple@);
            return Some(p);
        }
        j = j + 1;
    }
    proof {
        if catalog_triples().contains(triple@) {
            let q = choose|q: int| 0 <= q < catalog_triples().len() && catalog_triples()[q] == triple@;
            assert(false);
        }
    }
    None
}

/// Expression `e` matches the catalog entry at index `j`.
pub open spec fn eval_on_catalog(e: CfgExprS, j: int) -> bool {
    eval_expr(e, catalog_families()[j], catalog_triples()[j])
}

/// The classification pair for a parsed expression: supported by at least
/// one catalog triple, and matched by every catalog triple.
pub open spec fn spec_supported_pair(e: CfgExprS) -> (bool, bool) {
    (
        exists|j: int| 0 <= j < catalog_len() && #[trigger] eval_on_catalog(e, j),
        forall|j: int| 0 <= j < catalog_len() ==> #[trigger] eval_on_catalog(e, j),
    )
}

/// The classification of a target string: an unparseable expression is
/// `(false, false)`; otherwise the pair of `spec_supported_pair`.
pub open spec fn spec_is_supported(t: Seq<char>) -> (bool, bool) {
    match spec_parse_cfg(spec_normalized(t)) {
        None => (false, false),
        Some(e) => spec_supported_pair(e),
    }
}

/// Classifies a conditional expression against the whole catalog.
///
/// Returns `(is_supported, matches_all)`: whether the expression matches at
/// least one catalog triple, and whether it matches every catalog triple. A
/// target that fails to parse is simply not a supported platform:
/// `(false, false)`, not an error.
#[verifier::loop_isolation(false)]
pub fn is_bazel_supported_platform(target: &String) -> (r: (bool, bool))
    ensures
        r == spec_is_supported(target@),
{
    let normalized = normalize_target(target.as_str());
    match parse_cfg(normalized.as_str()) {
        None => (false, false),
        Some(e) => {
            let ghost ev = e@;
            let platforms = supported_platform_triples();
            let mut is_supported = false;
            let mut matches_all = true;
            let mut j: usize = 0;
            while j < platforms.len()
                invariant
                    j <= platforms@.len(),
                    is_supported == exists|q: int|
                        0 <= q < j && #[trigger] eval_on_catalog(ev, q),
                    matches_all == forall|q: int|
                        0 <= q < j ==> #[trigger] eval_on_catalog(ev, q),
                decreases platforms@.len() - j,
            {
                let m = crate::expr::eval_expr_exec(&e, platforms[j].family, platforms[j].triple.as_str());
                assert(m == eval_on_catalog(ev, j as int));
                if m {
                    is_supported = true;
                } else {
                    matches_all = false;
                }
                j = j + 1;
            }
            (is_supported, matches_all)
        },
    }
}

/// The catalog triples matching `e` among the first `k` entries, in catalog
/// order.
pub open spec fn matching_upto(e: CfgExprS, k: int) -> Seq<Seq<char>>
    decreases k,
{
    if k <= 0 {
        Seq::empty()
    } else {
        matching_upto(e, k - 1) + if eval_on_catalog(e, k - 1) {
            seq![catalog_triples()[k - 1]]
        } else {
            Seq::empty()
        }
    }
}

/// Every catalog triple matching `e`, in catalog order.
pub open spec fn spec_matching_triples(e: CfgExprS) -> Seq<Seq<char>> {
    matching_upto(e, catalog_len())
}

/// Extracts the exact subset of catalog triples a conditional expression
/// matches.
///
/// Unlike `is_bazel_supported_platform`, a malformed expression here is an
/// error surfaced to the caller: callers of this function are committed to
/// emitting a conditional rule and need a concrete triple list.
#[verifier::loop_isolation(false)]
pub fn get_matching_bazel_triples(target: &String) -> (r: Result<Vec<String>, RazeError>)
    ensures
        spec_parse_cfg(spec_normalized(target@)) is None ==> r is Err
            && r->Err_0 is Parse && r->Err_0.message_view()
            == "unable to parse target expression"@,
        spec_parse_cfg(spec_normalized(target@)) matches Some(e) ==> r is Ok && views_of(
            r->Ok_0@,
        ) == spec_matching_triples(e),
{
    let normalized = normalize_target(target.as_str());
    match parse_cfg(normalized.as_str()) {
        None => Err(
            RazeError::Parse { message: String::from_str("unable to parse target expression") },
        ),
        Some(e) => {
            let ghost ev = e@;
            let platforms = supported_platform_triples();
            let mut triples: Vec<String> = Vec::new();
            let mut j: usize = 0;
            proof {
                assert(views_of(triples@) =~= matching_upto(ev, 0));
            }
            while j < platforms.len()
                invariant
                    j <= platforms@.len(),
                    views_of(triples@) == matching_upto(ev, j as int),
                decreases platforms@.len() - j,
            {
                let m = crate::expr::eval_expr_exec(&e, platforms[j].family, platforms[j].triple.as_str());
                assert(m == eval_on_catalog(ev, j as int));
                let ghost before = views_of(triples@);
                if m {
                    triples.push(platforms[j].triple.clone());
                    proof {
                        assert(views_of(triples@) =~= before + seq![catalog_triples()[j as int]]);
                    }
                } else {
                    proof {
                        assert(before + Seq::<Seq<char>>::empty() =~= before);
                    }
                }
                j = j + 1;
            }
            Ok(triples)
        },
    }
}

/// The membership predicate used when filtering against a whitelist.
pub open spec fn in_whitelist(wl: Seq<Seq<char>>) -> spec_fn(Seq<char>) -> bool {
    |t: Seq<char>| wl.contains(t)
}

/// Intersects a triple list with a whitelist, in place.
///
/// An empty whitelist means "allow all" and the list is left untouched.
/// Otherwise only triples present in the whitelist are retained, and the
/// result is sorted lexicographically — the single point guaranteeing
/// output order stability downstream.
pub fn filter_bazel_triples(triples: &mut Vec<String>, triples_whitelist: &Vec<String>)
    ensures
        triples_whitelist@.len() == 0 ==> final(triples)@ == old(triples)@,
        triples_whitelist@.len() > 0 ==> views_of(final(triples)@) == views_of(old(triples)@)
            .filter(in_whitelist(views_of(triples_whitelist@))).sort_by(lex_leq_pair()),
{
    broadcast use vstd::seq_lib::group_seq_properties;

    if triples_whitelist.len() == 0 {
        return ;
    }
    let ghost orig = views_of(old(triples)@);
    let ghost pred = in_whitelist(views_of(triples_whitelist@));
    let mut kept: Vec<String> = Vec::new();
    let mut i: usize = 0;
    proof {
        assert(views_of(kept@) =~= orig.take(0).filter(pred));
    }
    while i < triples.len()
        invariant
            i <= triples@.len(),
            triples@ == old(triples)@,
            orig == views_of(old(triples)@),
            pred == in_whitelist(views_of(triples_whitelist@)),
            views_of(kept@) == orig.take(i as int).filter(pred),
        decreases triples@.len() - i,
    {
        let keep = contains_str(triples_whitelist, triples[i].as_str());
        let ghost before = views_of(kept@);
        if keep {
            kept.push(triples[i].clone());
        }
        proof {
            assert(orig.take(i + 1) =~= orig.take(i as int) + seq![orig[i as int]]);
            Seq::<Seq<char>>::filter_distributes_over_add(
                orig.take(i as int),
                seq![orig[i as int]],
                pred,
            );
            reveal_with_fuel(Seq::<_>::filter, 2);
            if keep {
                assert(seq![orig[i as int]].filter(pred) =~= seq![orig[i as int]]);
                assert(views_of(kept@) =~= before + seq![orig[i as int]]);
            } else {
                assert(seq![orig[i as int]].filter(pred) =~= Seq::<Seq<char>>::empty());
                assert(views_of(kept@) =~= before + Seq::<Seq<char>>::empty());
            }
        }
        i = i + 1;
    }
    proof {
        assert(orig.take(orig.len() as int) =~= orig);
    }
    let sorted = sort_strings(kept);
    *triples = sorted;
}

/// Index of the first triple in `ts` that is not in the catalog, or
/// `ts.len()` when every triple is known.
pub open spec fn first_unknown_from(ts: Seq<Seq<char>>, k: int) -> int
    decreases ts.len() - k,
{
    if k < 0 || k >= ts.len() {
        ts.len() as int
    } else if !catalog_triples().contains(ts[k]) {
        k
    } else {
        first_unknown_from(ts, k + 1)
    }
}

/// The platform-selector label for one triple.
pub open spec fn platform_label(t: Seq<char>) -> Seq<char> {
    "@io_bazel_rules_rust//rust/platform:"@ + t
}

/// The labels for a validated triple list, sorted for stable output.
pub open spec fn spec_conditions(ts: Seq<Seq<char>>) -> Seq<Seq<char>> {
    ts.map_values(|t: Seq<char>| platform_label(t)).sort_by(lex_leq_pair())
}

/// Maps a triple list to fully qualified platform-selector labels, sorted
/// lexicographically — the keys of a generated `select(...)` map.
///
/// Validation is all-or-nothing: the first triple not present in the catalog
/// fails the whole batch, naming the offending triple, and no partial output
/// is produced.
pub fn generate_bazel_conditions(triples: &Vec<String>) -> (r: Result<Vec<String>, RazeError>)
    ensures
        first_unknown_from(views_of(triples@), 0) == views_of(triples@).len() ==> r is Ok
            && views_of(r->Ok_0@) == spec_conditions(views_of(triples@)),
        first_unknown_from(views_of(triples@), 0) < views_of(triples@).len() ==> r is Err
            && r->Err_0 is Validation && r->Err_0.message_view() == "Not a triple: '"@ + views_of(
            triples@,
        )[first_unknown_from(views_of(triples@), 0)] + "'"@,
{
    let ghost vs = views_of(triples@);
    let mut k: usize = 0;
    while k < triples.len()
        invariant
            k <= triples@.len(),
            vs == views_of(triples@),
            first_unknown_from(vs, 0) == first_unknown_from(vs, k as int),
        decreases triples@.len() - k,
    {
        let known = is_known_triple(triples[k].as_str());
        if !known {
            assert(first_unknown_from(vs, k as int) == k as int);
            let mut message = String::from_str("Not a triple: '");
            message.append(triples[k].as_str());
            message.append("'");
            return Err(RazeError::Validation { message });
        }
        k = k + 1;
    }
    assert(first_unknown_from(vs, 0) == vs.len());
    let mut labels: Vec<String> = Vec::new();
    let mut i: usize = 0;
    proof {
        assert(views_of(labels@) =~= vs.take(0).map_values(|t: Seq<char>| platform_label(t)));
    }
    while i < triples.len()
        invariant
            i <= triples@.len(),
            vs == views_of(triples@),
            views_of(labels@) == vs.take(i as int).map_values(|t: Seq<char>| platform_label(t)),
        decreases triples@.len() - i,
    {
        let mut label = String::from_str("@io_bazel_rules_rust//rust/platform:");
        label.append(triples[i].as_str());
        let ghost before = views_of(labels@);
        labels.push(label);
        proof {
            assert(label@ == platform_label(vs[i as int]));
            assert(views_of(labels@) =~= before.push(label@));
            assert(vs.take(i + 1) =~= vs.take(i as int).push(vs[i as int]));
            assert forall|k: int| 0 <= k < i + 1 implies vs.take(i + 1).map_values(
                |t: Seq<char>| platform_label(t),
            )[k] == views_of(labels@)[k] by {}
            assert(views_of(labels@) =~= vs.take(i + 1).map_values(
                |t: Seq<char>| platform_label(t),
            ));
        }
        i = i + 1;
    }
    proof {
        assert(vs.take(vs.len() as int) =~= vs);
    }
    let sorted = sort_strings(labels);
    proof {
        assert(views_of(sorted@) == spec_conditions(vs));
    }
    Ok(sorted)
}

/// Whether a triple is present in the catalog.
#[verifier::loop_isolation(false)]
pub fn is_known_triple(triple: &str) -> (r: bool)
    ensures
        r == catalog_triples().contains(triple@),
{
    let platforms = supported_platform_triples();
    let mut j: usize = 0;
    while j < platforms.len()
        invariant
            j <= platforms@.len(),
            forall|q: int| 0 <= q < j ==> catalog_triples()[q] != triple@,
        decreases platforms@.len() - j,
    {
        if str_eq(platforms[j].triple.as_str(), triple) {
            assert(catalog_triples()[j as int] == triple@);
            return true;
        }
        j = j + 1;
    }
    proof {
        if catalog_triples().contains(triple@) {
            let q = choose|q: int| 0 <= q < catalog_triples().len() && catalog_triples()[q] == triple@;
            assert(false);
        }
    }
    false
}

/// Whether a directory whose entries are given is a workspace root: it holds
/// a file named `WORKSPACE.bazel` or `WORKSPACE`.
pub fn is_workspace_root(dir_entries: &Vec<String>) -> (r: bool)
    ensures
        r == (views_of(dir_entries@).contains("WORKSPACE.bazel"@) || views_of(
            dir_entries@,
        ).contains("WORKSPACE"@)),
{
    if contains_str(dir_entries, "WORKSPACE.bazel") {
        return true;
    }
    if contains_str(dir_entries, "WORKSPACE") {
        return true;
    }
    false
}

/// A tautology over the catalog is fully supported: an expression that
/// every catalog triple matches (for example the negation of a platform
/// absent from the catalog) classifies as `(true, true)`.
pub proof fn lemma_tautology_fully_supported(t: Seq<char>, e: CfgExprS)
    requires
        spec_parse_cfg(spec_normalized(t)) == Some(e),
        forall|j: int| 0 <= j < catalog_len() ==> #[trigger] eval_on_catalog(e, j),
    ensures
        spec_is_supported(t) == (true, true),
{
    assert(eval_on_catalog(e, 0));
}

/// An expression that is exactly the `unix` family predicate is partially
/// supported: the catalog is mixed by construction, holding both unix
/// triples and non-unix triples, so the classification is `(true, false)`.
pub proof fn lemma_unix_only_partially_supported(t: Seq<char>)
    requires
        spec_parse_cfg(spec_normalized(t)) == Some(CfgExprS::FamilyPred(OsFamily::Unix)),
    ensures
        spec_is_supported(t) == (true, false),
{
    let e = CfgExprS::FamilyPred(OsFamily::Unix);
    assert(catalog_families()[0] == Some(OsFamily::Unix));
    assert(catalog_families()[1] == Some(OsFamily::Windows));
    assert(eval_on_catalog(e, 0));
    assert(!eval_on_catalog(e, 1));
}

/// A syntactically invalid expression classifies as `(false, false)`. (In
/// the matching-triples path the same condition is surfaced as a parse
/// error instead: see `get_matching_bazel_triples`.)
pub proof fn lemma_invalid_expression_rejected(t: Seq<char>)
    requires
        spec_parse_cfg(spec_normalized(t)) is None,
    ensures
        spec_is_supported(t) == (false, false),
{
}

/// The canonical unix-only expression string classifies as partially
/// supported: `cfg(unix)` parses to the unix family predicate, and the
/// mixed catalog then gives `(true, false)`.
pub proof fn lemma_cfg_unix_string_partially_supported()
    ensures
        spec_is_supported("cfg(unix)"@) == (true, false),
{
    reveal_strlit("cfg(unix)");
    reveal_strlit("cfg(");
    reveal_strlit("cfg");
    reveal_strlit("unix");
    reveal_strlit("windows");
    reveal_strlit("not");
    reveal_strlit("any");
    reveal_strlit("all");
    let s = "cfg(unix)"@;
    assert(s.subrange(0, 4) =~= "cfg("@);
    assert(crate::text::starts_with("cfg("@, s));
    assert(spec_normalized(s) == s);
    reveal_with_fuel(crate::expr::spec_skip_ws, 3);
    reveal_with_fuel(crate::expr::spec_ident_end, 6);
    reveal_with_fuel(crate::expr::spec_parse_expr, 2);
    assert(crate::expr::spec_skip_ws(s, 0) == 0);
    assert(crate::expr::spec_ident_end(s, 0) == 3);
    assert(s.subrange(0, 3) =~= "cfg"@);
    assert(crate::expr::spec_skip_ws(s, 3) == 3);
    assert(crate::expr::spec_skip_ws(s, 4) == 4);
    assert(crate::expr::spec_ident_end(s, 4) == 8);
    assert(s.subrange(4, 8) =~= "unix"@);
    assert(crate::expr::spec_skip_ws(s, 8) == 8);
    assert(crate::expr::spec_skip_ws(s, 9) == 9);
    assert(crate::expr::spec_parse_expr(s, 4) == Some(
        (CfgExprS::FamilyPred(OsFamily::Unix), 8int),
    ));
    assert(spec_parse_cfg(s) == Some(CfgExprS::FamilyPred(OsFamily::Unix)));
    lemma_unix_only_partially_supported(s);
}

/// The negation of a platform absent from the catalog is a tautology over
/// it: `cfg(not(fuchsia))` classifies as `(true, true)` and is treated as
/// an unconditional dependency.
pub proof fn lemma_cfg_not_fuchsia_fully_supported()
    ensures
        spec_is_supported("cfg(not(fuchsia))"@) == (true, true),
{
    reveal_strlit("cfg(not(fuchsia))");
    reveal_strlit("cfg(");
    reveal_strlit("cfg");
    reveal_strlit("unix");
    reveal_strlit("windows");
    reveal_strlit("not");
    reveal_strlit("any");
    reveal_strlit("all");
    reveal_strlit("fuchsia");
    let s = "cfg(not(fuchsia))"@;
    assert(s.subrange(0, 4) =~= "cfg("@);
    assert(crate::text::starts_with("cfg("@, s));
    assert(spec_normalized(s) == s);
    reveal_with_fuel(crate::expr::spec_skip_ws, 3);
    reveal_with_fuel(crate::expr::spec_ident_end, 9);
    reveal_with_fuel(crate::expr::spec_parse_expr, 3);
    assert(crate::expr::spec_skip_ws(s, 0) == 0);
    assert(crate::expr::spec_ident_end(s, 0) == 3);
    assert(s.subrange(0, 3) =~= "cfg"@);
    assert(crate::expr::spec_skip_ws(s, 3) == 3);
    assert(crate::expr::spec_skip_ws(s, 4) == 4);
    assert(crate::expr::spec_ident_end(s, 4) == 7);
    assert(s.subrange(4, 7) =~= "not"@);
    assert(crate::expr::spec_skip_ws(s, 7) == 7);
    assert(crate::expr::spec_skip_ws(s, 8) == 8);
    assert(crate::expr::spec_ident_end(s, 8) == 15);
    assert(s.subrange(8, 15) =~= "fuchsia"@);
    assert(crate::expr::spec_skip_ws(s, 15) == 15);
    assert(s.subrange(8, 15)[0] == 'f' && "windows"@[0] == 'w');
    assert(s.subrange(8, 15) != "windows"@);
    assert(s.subrange(8, 15) != "unix"@);
    assert(crate::expr::spec_parse_expr(s, 8) == Some(
        (CfgExprS::UnknownPred, 15int),
    ));
    assert(crate::expr::spec_parse_expr(s, 4) == Some(
        (CfgExprS::NotExpr(Box::new(CfgExprS::UnknownPred)), 16int),
    ));
    assert(crate::expr::spec_skip_ws(s, 16) == 16);
    assert(crate::expr::spec_skip_ws(s, 17) == 17);
    let e = CfgExprS::NotExpr(Box::new(CfgExprS::UnknownPred));
    assert(spec_parse_cfg(s) == Some(e));
    assert forall|j: int| 0 <= j < catalog_len() implies #[trigger] eval_on_catalog(e, j) by {
        reveal_with_fuel(crate::expr::eval_expr, 3);
        assert(!eval_expr(CfgExprS::UnknownPred, catalog_families()[j], catalog_triples()[j]));
    }
    lemma_tautology_fully_supported(s, e);
}

/// Filtering a sequence in which every element satisfies the predicate
/// leaves it unchanged.
pub proof fn lemma_filter_all_true<A>(s: Seq<A>, pred: spec_fn(A) -> bool)
    requires
        forall|k: int| 0 <= k < s.len() ==> #[trigger] pred(s[k]),
    ensures
        s.filter(pred) == s,
    decreases s.len(),
{
    reveal_with_fuel(Seq::filter, 2);
    if s.len() == 0 {
        assert(s.filter(pred) =~= s);
    } else {
        lemma_filter_all_true(s.drop_last(), pred);
        assert(pred(s.last()));
        assert(s.filter(pred) =~= s);
    }
}

/// Filtering and sorting is idempotent: filtering an already-filtered,
/// already-sorted triple list against the same non-empty whitelist yields
/// the same list.
pub proof fn lemma_filter_triples_idempotent(ts: Seq<Seq<char>>, wl: Seq<Seq<char>>)
    requires
        wl.len() > 0,
    ensures
        ({
            let once = ts.filter(in_whitelist(wl)).sort_by(lex_leq_pair());
            once.filter(in_whitelist(wl)).sort_by(lex_leq_pair()) == once
        }),
{
    broadcast use vstd::seq_lib::group_filter_ensures;
    broadcast use vstd::seq_lib::group_to_multiset_ensures;

    let pred = in_whitelist(wl);
    let leq = lex_leq_pair();
    let f = ts.filter(pred);
    crate::text::lemma_lex_leq_total_ordering();
    f.lemma_sort_by_ensures(leq);
    let once = f.sort_by(leq);
    assert forall|k: int| 0 <= k < once.len() implies #[trigger] pred(once[k]) by {
        assert(once.to_multiset().contains(once[k]));
        assert(f.to_multiset().contains(once[k]));
        assert(f.contains(once[k]));
        let q = choose|q: int| 0 <= q < f.len() && f[q] == once[k];
    }
    lemma_filter_all_true(once, pred);
    once.lemma_sort_by_ensures(leq);
    vstd::seq_lib::lemma_sorted_unique(once.sort_by(leq), once, leq);
}

proof fn lemma_first_unknown_le(ts: Seq<Seq<char>>, j: int, k: int)
    requires
        0 <= j <= k < ts.len(),
        !catalog_triples().contains(ts[k]),
    ensures
        first_unknown_from(ts, j) <= k,
    decreases k - j,
{
    if j < k && catalog_triples().contains(ts[j]) {
        lemma_first_unknown_le(ts, j + 1, k);
    }
}

/// Label generation is all-or-nothing: a triple list containing any entry
/// not in the catalog fails validation, wherever in the list the invalid
/// entry appears, and no partial label list is produced.
pub proof fn lemma_conditions_all_or_nothing(ts: Seq<Seq<char>>)
    requires
        exists|k: int| 0 <= k < ts.len() && !catalog_triples().contains(ts[k]),
    ensures
        first_unknown_from(ts, 0) < ts.len(),
{
    let k = choose|k: int| 0 <= k < ts.len() && !catalog_triples().contains(ts[k]);
    lemma_first_unknown_le(ts, 0, k);
}

} // verus!
