//! The build plan renderer: a pure function from render configuration and
//! a planned build to a list of `(path, contents)` file outputs, in a local
//! vendored-sources topology and a remote fetched-sources topology.
//!
//! All generated text is specified exactly, character for character, by the
//! spec functions in this module; the executable renderer is proved to
//! produce it. The renderer guarantees semantic content — which labels
//! appear where, under which platform condition — through that text.

use vstd::prelude::*;

use crate::context::BuildableTarget;
use crate::context::CrateContext;
use crate::context::CrateDependencyContext;
use crate::context::CrateTargetedDepContext;
use crate::context::DependencyAlias;
use crate::context::FileOutputs;
use crate::context::PlannedBuild;
use crate::context::RenderDetails;
use crate::context::WorkspaceContext;
use crate::errors::RazeError;
use crate::expr::spec_normalized;
use crate::expr::spec_parse_cfg;
use crate::platform::first_unknown_from;
use crate::platform::generate_bazel_conditions;
use crate::platform::get_matching_bazel_triples;
use crate::platform::is_bazel_supported_platform;
use crate::platform::catalog_triples;
use crate::platform::matching_upto;
use crate::platform::spec_conditions;
use crate::platform::spec_is_supported;
use crate::platform::spec_matching_triples;
use crate::text::concat_texts;
use crate::text::views_of;

verus! {

/// `s` wrapped in double quotes.
pub open spec fn quoted(s: Seq<char>) -> Seq<char> {
    "\""@ + s + "\""@
}

/// One quoted, comma-terminated list line per item, at the given indent.
pub open spec fn quoted_lines(items: Seq<Seq<char>>, indent: Seq<char>) -> Seq<char> {
    concat_texts(items.map_values(|d: Seq<char>| indent + quoted(d) + ",\n"@))
}

/// The platform-conditional part of a dependency list: the labels a
/// condition resolved to, each mapped to the dependencies it scopes.
pub struct CondBlock {
    pub labels: Vec<String>,
    pub deps: Vec<String>,
}

/// Spec-level form of a conditional block: label views and dependency
/// views.
pub open spec fn block_views(blocks: Seq<CondBlock>) -> Seq<(Seq<Seq<char>>, Seq<Seq<char>>)> {
    blocks.map_values(|b: CondBlock| (views_of(b.labels@), views_of(b.deps@)))
}

/// The entries of one `select` map: every platform label keyed to the same
/// scoped dependency list.
pub open spec fn select_entries(labels: Seq<Seq<char>>, deps: Seq<Seq<char>>) -> Seq<char> {
    concat_texts(
        labels.map_values(
            |l: Seq<char>|
                "        "@ + quoted(l) + ": [\n"@ + quoted_lines(deps, "            "@)
                    + "        ],\n"@,
        ),
    )
}

/// One appended `select` expression for one conditional block, closed by an
/// empty default branch.
pub open spec fn one_select(b: (Seq<Seq<char>>, Seq<Seq<char>>)) -> Seq<char> {
    " + select({\n"@ + select_entries(b.0, b.1) + "        \"//conditions:default\": [],\n    })"@
}

/// A dependency attribute: the unconditional list, then one `select` per
/// conditional block.
pub open spec fn dep_attr_text(
    name: Seq<char>,
    base: Seq<Seq<char>>,
    blocks: Seq<(Seq<Seq<char>>, Seq<Seq<char>>)>,
) -> Seq<char> {
    "    "@ + name + " = [\n"@ + quoted_lines(base, "        "@) + "    ]"@ + concat_texts(
        blocks.map_values(|b: (Seq<Seq<char>>, Seq<Seq<char>>)| one_select(b)),
    ) + ",\n"@
}

/// A plain list attribute, such as `crate_features`.
pub open spec fn list_attr_text(name: Seq<char>, items: Seq<Seq<char>>) -> Seq<char> {
    "    "@ + name + " = [\n"@ + quoted_lines(items, "        "@) + "    ],\n"@
}

/// The aliases attribute; omitted entirely when no dependency is aliased.
pub open spec fn aliases_attr_text(aliases: Seq<DependencyAlias>) -> Seq<char> {
    if aliases.len() == 0 {
        Seq::empty()
    } else {
        "    aliases = {\n"@ + concat_texts(
            aliases.map_values(
                |a: DependencyAlias|
                    "        "@ + quoted(a.target@) + ": "@ + quoted(a.alias@) + ",\n"@,
            ),
        ) + "    },\n"@
    }
}

/// The classification of one conditional bundle, as the resolver computes
/// it.
pub open spec fn td_pair(td: CrateTargetedDepContext) -> (bool, bool) {
    spec_is_supported(td.target@)
}

/// The bundle's expression is a tautology over the catalog: its
/// dependencies fold into the unconditional section.
pub open spec fn td_all(td: CrateTargetedDepContext) -> bool {
    td_pair(td).1
}

/// The bundle's expression matches part of the catalog: it becomes a
/// platform-keyed conditional block.
pub open spec fn td_partial(td: CrateTargetedDepContext) -> bool {
    td_pair(td).0 && !td_pair(td).1
}

/// The sorted platform-selector labels of a partially supported bundle.
pub open spec fn td_labels(td: CrateTargetedDepContext) -> Seq<Seq<char>> {
    match spec_parse_cfg(spec_normalized(td.target@)) {
        Some(e) => spec_conditions(spec_matching_triples(e)),
        None => Seq::empty(),
    }
}

/// Dependencies of tautological bundles among the first `k`, folded in
/// order into the unconditional section of one role.
pub open spec fn extra_base_upto(
    tds: Seq<CrateTargetedDepContext>,
    k: int,
    role: spec_fn(CrateDependencyContext) -> Seq<Seq<char>>,
) -> Seq<Seq<char>>
    decreases k,
{
    if k <= 0 {
        Seq::empty()
    } else {
        extra_base_upto(tds, k - 1, role) + if td_all(tds[k - 1]) {
            role(tds[k - 1].deps)
        } else {
            Seq::empty()
        }
    }
}

/// Conditional blocks of partially supported bundles among the first `k`,
/// for one role; unsupported bundles are dropped.
pub open spec fn blocks_upto(
    tds: Seq<CrateTargetedDepContext>,
    k: int,
    role: spec_fn(CrateDependencyContext) -> Seq<Seq<char>>,
) -> Seq<(Seq<Seq<char>>, Seq<Seq<char>>)>
    decreases k,
{
    if k <= 0 {
        Seq::empty()
    } else {
        blocks_upto(tds, k - 1, role) + if td_partial(tds[k - 1]) {
            seq![(td_labels(tds[k - 1]), role(tds[k - 1].deps))]
        } else {
            Seq::empty()
        }
    }
}

pub open spec fn role_normal() -> spec_fn(CrateDependencyContext) -> Seq<Seq<char>> {
    |d: CrateDependencyContext| views_of(d.dependencies@)
}

pub open spec fn role_proc_macro() -> spec_fn(CrateDependencyContext) -> Seq<Seq<char>> {
    |d: CrateDependencyContext| views_of(d.proc_macro_dependencies@)
}

pub open spec fn role_build() -> spec_fn(CrateDependencyContext) -> Seq<Seq<char>> {
    |d: CrateDependencyContext| views_of(d.build_dependencies@)
}

pub open spec fn role_build_proc_macro() -> spec_fn(CrateDependencyContext) -> Seq<Seq<char>> {
    |d: CrateDependencyContext| views_of(d.build_proc_macro_dependencies@)
}

/// The unconditional ordinary dependencies of a crate: the build-script
/// rule when one exists (wired as an implicit dependency input), the
/// default bundle, then every tautological conditional bundle.
pub open spec fn spec_normal_base(c: CrateContext) -> Seq<Seq<char>> {
    (if c.build_script_target is Some {
        seq![":build_script"@]
    } else {
        Seq::empty()
    }) + views_of(c.default_deps.dependencies@) + extra_base_upto(
        c.targeted_deps@,
        c.targeted_deps@.len() as int,
        role_normal(),
    )
}

pub open spec fn spec_proc_macro_base(c: CrateContext) -> Seq<Seq<char>> {
    views_of(c.default_deps.proc_macro_dependencies@) + extra_base_upto(
        c.targeted_deps@,
        c.targeted_deps@.len() as int,
        role_proc_macro(),
    )
}

pub open spec fn spec_build_base(c: CrateContext) -> Seq<Seq<char>> {
    views_of(c.default_deps.build_dependencies@) + extra_base_upto(
        c.targeted_deps@,
        c.targeted_deps@.len() as int,
        role_build(),
    )
}

pub open spec fn spec_build_proc_macro_base(c: CrateContext) -> Seq<Seq<char>> {
    views_of(c.default_deps.build_proc_macro_dependencies@) + extra_base_upto(
        c.targeted_deps@,
        c.targeted_deps@.len() as int,
        role_build_proc_macro(),
    )
}

pub open spec fn spec_blocks(
    c: CrateContext,
    role: spec_fn(CrateDependencyContext) -> Seq<Seq<char>>,
) -> Seq<(Seq<Seq<char>>, Seq<Seq<char>>)> {
    blocks_upto(c.targeted_deps@, c.targeted_deps@.len() as int, role)
}

/// The resolved dependency data of one crate, ready for rendering: per
/// role, an unconditional list and the conditional blocks.
pub struct DepPlan {
    pub normal_base: Vec<String>,
    pub normal_blocks: Vec<CondBlock>,
    pub proc_macro_base: Vec<String>,
    pub proc_macro_blocks: Vec<CondBlock>,
    pub build_base: Vec<String>,
    pub build_blocks: Vec<CondBlock>,
    pub build_proc_macro_base: Vec<String>,
    pub build_proc_macro_blocks: Vec<CondBlock>,
}

/// The plan matches the spec-level classification of `c`.
pub open spec fn plan_matches(p: DepPlan, c: CrateContext) -> bool {
    &&& views_of(p.normal_base@) == spec_normal_base(c)
    &&& block_views(p.normal_blocks@) == spec_blocks(c, role_normal())
    &&& views_of(p.proc_macro_base@) == spec_proc_macro_base(c)
    &&& block_views(p.proc_macro_blocks@) == spec_blocks(c, role_proc_macro())
    &&& views_of(p.build_base@) == spec_build_base(c)
    &&& block_views(p.build_blocks@) == spec_blocks(c, role_build())
    &&& views_of(p.build_proc_macro_base@) == spec_build_proc_macro_base(c)
    &&& block_views(p.build_proc_macro_blocks@) == spec_blocks(c, role_build_proc_macro())
}

fn clone_strings(v: &Vec<String>) -> (r: Vec<String>)
    ensures
        r@ == v@,
{
    let mut r: Vec<String> = Vec::new();
    let mut i: usize = 0;
    while i < v.len()
        invariant
            i <= v@.len(),
            r@ == v@.take(i as int),
        decreases v@.len() - i,
    {
        r.push(v[i].clone());
        proof {
            assert(r@ =~= v@.take(i + 1));
        }
        i = i + 1;
    }
    proof {
        assert(v@.take(v@.len() as int) =~= v@);
    }
    r
}

fn extend_strings(dst: &mut Vec<String>, src: &Vec<String>)
    ensures
        final(dst)@ == old(dst)@ + src@,
{
    let mut i: usize = 0;
    proof {
        assert(dst@ =~= old(dst)@ + src@.take(0));
    }
    while i < src.len()
        invariant
            i <= src@.len(),
            dst@ == old(dst)@ + src@.take(i as int),
        decreases src@.len() - i,
    {
        dst.push(src[i].clone());
        proof {
            assert(dst@ =~= old(dst)@ + src@.take(i + 1));
        }
        i = i + 1;
    }
    proof {
        assert(src@.take(src@.len() as int) =~= src@);
    }
}

proof fn lemma_matching_triples_known(e: crate::expr::CfgExprS, k: int)
    requires
        0 <= k <= crate::platform::catalog_len(),
    ensures
        forall|q: int|
            0 <= q < matching_upto(e, k).len() ==> catalog_triples().contains(
                #[trigger] matching_upto(e, k)[q],
            ),
    decreases k,
{
    if k > 0 {
        lemma_matching_triples_known(e, k - 1);
        assert(catalog_triples().contains(catalog_triples()[k - 1]));
        assert forall|q: int| 0 <= q < matching_upto(e, k).len() implies catalog_triples()
            .contains(#[trigger] matching_upto(e, k)[q]) by {
            if q < matching_upto(e, k - 1).len() {
                assert(matching_upto(e, k)[q] == matching_upto(e, k - 1)[q]);
            } else {
                assert(matching_upto(e, k)[q] == catalog_triples()[k - 1]);
            }
        }
    }
}

/// Mapping views distributes over concatenation.
pub proof fn lemma_views_of_add(a: Seq<String>, b: Seq<String>)
    ensures
        views_of(a + b) == views_of(a) + views_of(b),
{
    assert(views_of(a + b) =~= views_of(a) + views_of(b));
}

proof fn lemma_extra_step(
    tds: Seq<CrateTargetedDepContext>,
    k: int,
    role: spec_fn(CrateDependencyContext) -> Seq<Seq<char>>,
)
    requires
        0 <= k < tds.len(),
    ensures
        td_all(tds[k]) ==> extra_base_upto(tds, k + 1, role) == extra_base_upto(tds, k, role)
            + role(tds[k].deps),
        !td_all(tds[k]) ==> extra_base_upto(tds, k + 1, role) == extra_base_upto(tds, k, role),
{
    if !td_all(tds[k]) {
        assert(extra_base_upto(tds, k + 1, role) =~= extra_base_upto(tds, k, role));
    }
}

proof fn lemma_blocks_step(
    tds: Seq<CrateTargetedDepContext>,
    k: int,
    role: spec_fn(CrateDependencyContext) -> Seq<Seq<char>>,
)
    requires
        0 <= k < tds.len(),
    ensures
        td_partial(tds[k]) ==> blocks_upto(tds, k + 1, role) == blocks_upto(tds, k, role).push(
            (td_labels(tds[k]), role(tds[k].deps)),
        ),
        !td_partial(tds[k]) ==> blocks_upto(tds, k + 1, role) == blocks_upto(tds, k, role),
{
    if td_partial(tds[k]) {
        assert(blocks_upto(tds, k + 1, role) =~= blocks_upto(tds, k, role).push(
            (td_labels(tds[k]), role(tds[k].deps)),
        ));
    } else {
        assert(blocks_upto(tds, k + 1, role) =~= blocks_upto(tds, k, role));
    }
}

proof fn lemma_block_views_push(bs: Seq<CondBlock>, b: CondBlock)
    ensures
        block_views(bs.push(b)) == block_views(bs).push((views_of(b.labels@), views_of(b.deps@))),
{
    assert(block_views(bs.push(b)) =~= block_views(bs).push(
        (views_of(b.labels@), views_of(b.deps@)),
    ));
}

proof fn lemma_all_known_no_unknown(ts: Seq<Seq<char>>, j: int)
    requires
        0 <= j <= ts.len(),
        forall|q: int| 0 <= q < ts.len() ==> catalog_triples().contains(#[trigger] ts[q]),
    ensures
        first_unknown_from(ts, j) == ts.len(),
    decreases ts.len() - j,
{
    if j < ts.len() {
        lemma_all_known_no_unknown(ts, j + 1);
    }
}

/// Classifies every conditional bundle of `c` with the platform resolver
/// and assembles the dependency data for rendering: tautological bundles
/// fold into the unconditional lists, partially supported bundles become
/// conditional blocks keyed by their platform labels, unsupported bundles
/// are dropped. One classification per expression, shared by every role.
#[verifier::loop_isolation(false)]
pub fn crate_dep_plan(c: &CrateContext) -> (p: DepPlan)
    ensures
        plan_matches(p, *c),
{
    let ghost tds = c.targeted_deps@;
    let mut normal_base: Vec<String> = Vec::new();
    match &c.build_script_target {
        Some(_) => {
            normal_base.push(String::from_str(":build_script"));
            proof {
                assert(views_of(normal_base@) =~= seq![":build_script"@]);
            }
        },
        None => {
            proof {
                assert(views_of(normal_base@) =~= Seq::<Seq<char>>::empty());
            }
        },
    }
    extend_strings(&mut normal_base, &c.default_deps.dependencies);
    let mut proc_macro_base = clone_strings(&c.default_deps.proc_macro_dependencies);
    let mut build_base = clone_strings(&c.default_deps.build_dependencies);
    let mut build_proc_macro_base = clone_strings(&c.default_deps.build_proc_macro_dependencies);
    let mut normal_blocks: Vec<CondBlock> = Vec::new();
    let mut proc_macro_blocks: Vec<CondBlock> = Vec::new();
    let mut build_blocks: Vec<CondBlock> = Vec::new();
    let mut build_proc_macro_blocks: Vec<CondBlock> = Vec::new();
    let ghost bs_part: Seq<Seq<char>> = if c.build_script_target is Some {
        seq![":build_script"@]
    } else {
        Seq::empty()
    };
    proof {
        assert(views_of(normal_base@) =~= bs_part + views_of(c.default_deps.dependencies@)
            + extra_base_upto(tds, 0, role_normal()));
        assert(views_of(proc_macro_base@) =~= views_of(c.default_deps.proc_macro_dependencies@)
            + extra_base_upto(tds, 0, role_proc_macro()));
        assert(views_of(build_base@) =~= views_of(c.default_deps.build_dependencies@)
            + extra_base_upto(tds, 0, role_build()));
        assert(views_of(build_proc_macro_base@) =~= views_of(
            c.default_deps.build_proc_macro_dependencies@,
        ) + extra_base_upto(tds, 0, role_build_proc_macro()));
        assert(block_views(normal_blocks@) =~= blocks_upto(tds, 0, role_normal()));
        assert(block_views(proc_macro_blocks@) =~= blocks_upto(tds, 0, role_proc_macro()));
        assert(block_views(build_blocks@) =~= blocks_upto(tds, 0, role_build()));
        assert(block_views(build_proc_macro_blocks@) =~= blocks_upto(
            tds,
            0,
            role_build_proc_macro(),
        ));
    }
    let mut k: usize = 0;
    while k < c.targeted_deps.len()
        invariant
            k <= tds.len(),
            views_of(normal_base@) == bs_part + views_of(c.default_deps.dependencies@)
                + extra_base_upto(tds, k as int, role_normal()),
            views_of(proc_macro_base@) == views_of(c.default_deps.proc_macro_dependencies@)
                + extra_base_upto(tds, k as int, role_proc_macro()),
            views_of(build_base@) == views_of(c.default_deps.build_dependencies@)
                + extra_base_upto(tds, k as int, role_build()),
            views_of(build_proc_macro_base@) == views_of(
                c.default_deps.build_proc_macro_dependencies@,
            ) + extra_base_upto(tds, k as int, role_build_proc_macro()),
            block_views(normal_blocks@) == blocks_upto(tds, k as int, role_normal()),
            block_views(proc_macro_blocks@) == blocks_upto(tds, k as int, role_proc_macro()),
            block_views(build_blocks@) == blocks_upto(tds, k as int, role_build()),
            block_views(build_proc_macro_blocks@) == blocks_upto(
                tds,
                k as int,
                role_build_proc_macro(),
            ),
        decreases tds.len() - k,
    {
        let td = &c.targeted_deps[k];
        let (is_supported, matches_all) = is_bazel_supported_platform(&td.target);
        proof {
            lemma_extra_step(tds, k as int, role_normal());
            lemma_extra_step(tds, k as int, role_proc_macro());
            lemma_extra_step(tds, k as int, role_build());
            lemma_extra_step(tds, k as int, role_build_proc_macro());
            lemma_blocks_step(tds, k as int, role_normal());
            lemma_blocks_step(tds, k as int, role_proc_macro());
            lemma_blocks_step(tds, k as int, role_build());
            lemma_blocks_step(tds, k as int, role_build_proc_macro());
        }
        if matches_all {
            assert(td_all(tds[k as int]));
            let ghost nb0 = normal_base@;
            let ghost pb0 = proc_macro_base@;
            let ghost bb0 = build_base@;
            let ghost bpb0 = build_proc_macro_base@;
            extend_strings(&mut normal_base, &td.deps.dependencies);
            extend_strings(&mut proc_macro_base, &td.deps.proc_macro_dependencies);
            extend_strings(&mut build_base, &td.deps.build_dependencies);
            extend_strings(&mut build_proc_macro_base, &td.deps.build_proc_macro_dependencies);
            proof {
                lemma_views_of_add(nb0, tds[k as int].deps.dependencies@);
                lemma_views_of_add(pb0, tds[k as int].deps.proc_macro_dependencies@);
                lemma_views_of_add(bb0, tds[k as int].deps.build_dependencies@);
                lemma_views_of_add(bpb0, tds[k as int].deps.build_proc_macro_dependencies@);
                assert(views_of(normal_base@) =~= bs_part + views_of(c.default_deps.dependencies@)
                    + extra_base_upto(tds, k + 1, role_normal()));
                assert(views_of(proc_macro_base@) =~= views_of(
                    c.default_deps.proc_macro_dependencies@,
                ) + extra_base_upto(tds, k + 1, role_proc_macro()));
                assert(views_of(build_base@) =~= views_of(c.default_deps.build_dependencies@)
                    + extra_base_upto(tds, k + 1, role_build()));
                assert(views_of(build_proc_macro_base@) =~= views_of(
                    c.default_deps.build_proc_macro_dependencies@,
                ) + extra_base_upto(tds, k + 1, role_build_proc_macro()));
            }
        } else if is_supported {
            assert(td_partial(tds[k as int]));
            let triples = match get_matching_bazel_triples(&td.target) {
                Ok(t) => t,
                Err(_) => {
                    proof {
                        assert(false);
                    }
                    Vec::new()
                },
            };
            let ghost e = spec_parse_cfg(spec_normalized(td.target@))->Some_0;
            proof {
                lemma_matching_triples_known(e, crate::platform::catalog_len());
                lemma_all_known_no_unknown(views_of(triples@), 0);
            }
            let labels = match generate_bazel_conditions(&triples) {
                Ok(l) => l,
                Err(_) => {
                    proof {
                        assert(false);
                    }
                    Vec::new()
                },
            };
            assert(views_of(labels@) == td_labels(tds[k as int]));
            let ghost nbl0 = normal_blocks@;
            let ghost pbl0 = proc_macro_blocks@;
            let ghost bbl0 = build_blocks@;
            let ghost bpbl0 = build_proc_macro_blocks@;
            let b1 = CondBlock {
                labels: clone_strings(&labels),
                deps: clone_strings(&td.deps.dependencies),
            };
            let b2 = CondBlock {
                labels: clone_strings(&labels),
                deps: clone_strings(&td.deps.proc_macro_dependencies),
            };
            let b3 = CondBlock {
                labels: clone_strings(&labels),
                deps: clone_strings(&td.deps.build_dependencies),
            };
            let b4 = CondBlock {
                labels: labels,
                deps: clone_strings(&td.deps.build_proc_macro_dependencies),
            };
            normal_blocks.push(b1);
            proc_macro_blocks.push(b2);
            build_blocks.push(b3);
            build_proc_macro_blocks.push(b4);
            proof {
                lemma_block_views_push(nbl0, b1);
                lemma_block_views_push(pbl0, b2);
                lemma_block_views_push(bbl0, b3);
                lemma_block_views_push(bpbl0, b4);
                assert(extra_base_upto(tds, k + 1, role_normal()) == extra_base_upto(
                    tds,
                    k as int,
                    role_normal(),
                ));
                assert(block_views(normal_blocks@) == blocks_upto(tds, k + 1, role_normal()));
                assert(block_views(proc_macro_blocks@) == blocks_upto(
                    tds,
                    k + 1,
                    role_proc_macro(),
                ));
                assert(block_views(build_blocks@) == blocks_upto(tds, k + 1, role_build()));
                assert(block_views(build_proc_macro_blocks@) == blocks_upto(
                    tds,
                    k + 1,
                    role_build_proc_macro(),
                ));
            }
        } else {
            assert(!td_all(tds[k as int]) && !td_partial(tds[k as int]));
        }
        k = k + 1;
    }
    DepPlan {
        normal_base,
        normal_blocks,
        proc_macro_base,
        proc_macro_blocks,
        build_base,
        build_blocks,
        build_proc_macro_base,
        build_proc_macro_blocks,
    }
}

/// The header of a crate's generated build file.
pub open spec fn spec_header(c: CrateContext) -> Seq<char> {
    "\"\"\"\nGenerated build targets for "@ + c.pkg_name@ + "-"@ + c.pkg_version@
        + "\nLicense: "@ + c.license.name@
        + "\n\"\"\"\n\npackage(default_visibility = [\"//visibility:public\"])\n\n"@
}

/// The name a library rule is emitted under: the normalized library target
/// name when present, else the package name.
pub open spec fn lib_name(c: CrateContext) -> Seq<char> {
    match c.lib_target_name {
        Some(n) => n@,
        None => c.pkg_name@,
    }
}

/// The build-script rule of a crate with a build-script target.
pub open spec fn spec_build_script_rule(c: CrateContext, t: BuildableTarget) -> Seq<char> {
    "rust_build_script(\n    name = \"build_script\",\n    crate_root = "@ + quoted(t.path@)
        + ",\n    edition = "@ + quoted(t.edition@) + ",\n"@ + list_attr_text(
        "crate_features"@,
        views_of(c.features@),
    ) + dep_attr_text("deps"@, spec_build_base(c), spec_blocks(c, role_build())) + dep_attr_text(
        "proc_macro_deps"@,
        spec_build_proc_macro_base(c),
        spec_blocks(c, role_build_proc_macro()),
    ) + ")\n\n"@
}

/// The library rule of a library-kind target.
pub open spec fn spec_library_rule(c: CrateContext, t: BuildableTarget) -> Seq<char> {
    "rust_library(\n    name = "@ + quoted(lib_name(c)) + ",\n    crate_root = "@ + quoted(
        t.path@,
    ) + ",\n    edition = "@ + quoted(t.edition@) + ",\n"@ + list_attr_text(
        "crate_features"@,
        views_of(c.features@),
    ) + aliases_attr_text(c.default_deps.aliased_dependencies@) + dep_attr_text(
        "deps"@,
        spec_normal_base(c),
        spec_blocks(c, role_normal()),
    ) + dep_attr_text(
        "proc_macro_deps"@,
        spec_proc_macro_base(c),
        spec_blocks(c, role_proc_macro()),
    ) + ")\n\n"@
}

/// The binary rule of a binary-kind target.
pub open spec fn spec_binary_rule(c: CrateContext, t: BuildableTarget) -> Seq<char> {
    "rust_binary(\n    name = "@ + quoted(t.name@) + ",\n    crate_root = "@ + quoted(t.path@)
        + ",\n    edition = "@ + quoted(t.edition@) + ",\n"@ + list_attr_text(
        "crate_features"@,
        views_of(c.features@),
    ) + aliases_attr_text(c.default_deps.aliased_dependencies@) + dep_attr_text(
        "deps"@,
        spec_normal_base(c),
        spec_blocks(c, role_normal()),
    ) + dep_attr_text(
        "proc_macro_deps"@,
        spec_proc_macro_base(c),
        spec_blocks(c, role_proc_macro()),
    ) + ")\n\n"@
}

/// What one buildable target contributes to the crate's build file: a
/// library rule for a library-kind target, a binary rule for a binary-kind
/// target, nothing for any other kind.
pub open spec fn spec_target_text(c: CrateContext, t: BuildableTarget) -> Seq<char> {
    if t.kind@ == "lib"@ {
        spec_library_rule(c, t)
    } else if t.kind@ == "bin"@ {
        spec_binary_rule(c, t)
    } else {
        Seq::empty()
    }
}

/// The build-script section of the crate's build file.
pub open spec fn spec_build_script_text(c: CrateContext) -> Seq<char> {
    match c.build_script_target {
        Some(t) => spec_build_script_rule(c, t),
        None => Seq::empty(),
    }
}

/// The whole generated body of one crate's build file.
pub open spec fn spec_crate_text(c: CrateContext) -> Seq<char> {
    spec_header(c) + spec_build_script_text(c) + concat_texts(
        c.targets@.map_values(|t: BuildableTarget| spec_target_text(c, t)),
    )
}

pub proof fn lemma_concat_texts_push(pieces: Seq<Seq<char>>, x: Seq<char>)
    ensures
        concat_texts(pieces.push(x)) == concat_texts(pieces) + x,
{
    assert(pieces.push(x).drop_last() =~= pieces);
    assert(pieces.push(x).last() == x);
}

fn push_quoted(out: &mut String, s: &str)
    ensures
        final(out)@ == old(out)@ + quoted(s@),
{
    out.append("\"");
    out.append(s);
    out.append("\"");
    proof {
        assert(out@ =~= old(out)@ + quoted(s@));
    }
}

fn push_quoted_lines(out: &mut String, items: &Vec<String>, indent: &str)
    ensures
        final(out)@ == old(out)@ + quoted_lines(views_of(items@), indent@),
{
    let ghost base = out@;
    let ghost vs = views_of(items@);
    let ghost line_fn = |d: Seq<char>| indent@ + quoted(d) + ",\n"@;
    let mut i: usize = 0;
    proof {
        assert(vs.take(0).map_values(line_fn) =~= Seq::<Seq<char>>::empty());
        assert(out@ =~= base + concat_texts(vs.take(0).map_values(line_fn)));
    }
    while i < items.len()
        invariant
            i <= items@.len(),
            vs == views_of(items@),
            base == old(out)@,
            line_fn == (|d: Seq<char>| indent@ + quoted(d) + ",\n"@),
            out@ == base + concat_texts(vs.take(i as int).map_values(line_fn)),
        decreases items@.len() - i,
    {
        let ghost before = out@;
        out.append(indent);
        push_quoted(out, items[i].as_str());
        out.append(",\n");
        proof {
            assert(out@ =~= before + line_fn(vs[i as int]));
            assert(vs.take(i + 1) =~= vs.take(i as int).push(vs[i as int]));
            assert(vs.take(i + 1).map_values(line_fn) =~= vs.take(i as int).map_values(
                line_fn,
            ).push(line_fn(vs[i as int])));
            lemma_concat_texts_push(vs.take(i as int).map_values(line_fn), line_fn(vs[i as int]));
            assert(out@ =~= base + concat_texts(vs.take(i + 1).map_values(line_fn)));
        }
        i = i + 1;
    }
    proof {
        assert(vs.take(vs.len() as int) =~= vs);
    }
}

fn push_select(out: &mut String, b: &CondBlock)
    ensures
        final(out)@ == old(out)@ + one_select((views_of(b.labels@), views_of(b.deps@))),
{
    let ghost base = out@;
    let ghost ls = views_of(b.labels@);
    let ghost ds = views_of(b.deps@);
    let ghost entry_fn = |l: Seq<char>|
        "        "@ + quoted(l) + ": [\n"@ + quoted_lines(ds, "            "@) + "        ],\n"@;
    out.append(" + select({\n");
    let mut i: usize = 0;
    proof {
        assert(ls.take(0).map_values(entry_fn) =~= Seq::<Seq<char>>::empty());
        assert(out@ =~= base + " + select({\n"@ + concat_texts(ls.take(0).map_values(entry_fn)));
    }
    while i < b.labels.len()
        invariant
            i <= b.labels@.len(),
            ls == views_of(b.labels@),
            ds == views_of(b.deps@),
            base == old(out)@,
            entry_fn == (|l: Seq<char>|
                "        "@ + quoted(l) + ": [\n"@ + quoted_lines(ds, "            "@)
                    + "        ],\n"@),
            out@ == base + " + select({\n"@ + concat_texts(ls.take(i as int).map_values(entry_fn)),
        decreases b.labels@.len() - i,
    {
        let ghost before = out@;
        out.append("        ");
        push_quoted(out, b.labels[i].as_str());
        out.append(": [\n");
        push_quoted_lines(out, &b.deps, "            ");
        out.append("        ],\n");
        proof {
            assert(out@ =~= before + entry_fn(ls[i as int]));
            assert(ls.take(i + 1) =~= ls.take(i as int).push(ls[i as int]));
            assert(ls.take(i + 1).map_values(entry_fn) =~= ls.take(i as int).map_values(
                entry_fn,
            ).push(entry_fn(ls[i as int])));
            lemma_concat_texts_push(ls.take(i as int).map_values(entry_fn), entry_fn(ls[i as int]));
            assert(out@ =~= base + " + select({\n"@ + concat_texts(
                ls.take(i + 1).map_values(entry_fn),
            ));
        }
        i = i + 1;
    }
    out.append("        \"//conditions:default\": [],\n    })");
    proof {
        assert(ls.take(ls.len() as int) =~= ls);
        assert(out@ =~= old(out)@ + one_select((ls, ds)));
    }
}

fn push_dep_attr(out: &mut String, name: &str, base_list: &Vec<String>, blocks: &Vec<CondBlock>)
    ensures
        final(out)@ == old(out)@ + dep_attr_text(
            name@,
            views_of(base_list@),
            block_views(blocks@),
        ),
{
    let ghost base = out@;
    let ghost bvs = block_views(blocks@);
    out.append("    ");
    out.append(name);
    out.append(" = [\n");
    push_quoted_lines(out, base_list, "        ");
    out.append("    ]");
    let ghost sel_fn = |b: (Seq<Seq<char>>, Seq<Seq<char>>)| one_select(b);
    let ghost mid = out@;
    let mut i: usize = 0;
    proof {
        assert(bvs.take(0).map_values(sel_fn) =~= Seq::<Seq<char>>::empty());
        assert(out@ =~= mid + concat_texts(bvs.take(0).map_values(sel_fn)));
    }
    while i < blocks.len()
        invariant
            i <= blocks@.len(),
            bvs == block_views(blocks@),
            sel_fn == (|b: (Seq<Seq<char>>, Seq<Seq<char>>)| one_select(b)),
            out@ == mid + concat_texts(bvs.take(i as int).map_values(sel_fn)),
        decreases blocks@.len() - i,
    {
        let ghost before = out@;
        push_select(out, &blocks[i]);
        proof {
            assert(bvs[i as int] == (views_of(blocks@[i as int].labels@), views_of(
                blocks@[i as int].deps@,
            )));
            assert(out@ =~= before + sel_fn(bvs[i as int]));
            assert(bvs.take(i + 1) =~= bvs.take(i as int).push(bvs[i as int]));
            assert(bvs.take(i + 1).map_values(sel_fn) =~= bvs.take(i as int).map_values(
                sel_fn,
            ).push(sel_fn(bvs[i as int])));
            lemma_concat_texts_push(bvs.take(i as int).map_values(sel_fn), sel_fn(bvs[i as int]));
            assert(out@ =~= mid + concat_texts(bvs.take(i + 1).map_values(sel_fn)));
        }
        i = i + 1;
    }
    out.append(",\n");
    proof {
        assert(bvs.take(bvs.len() as int) =~= bvs);
        assert(out@ =~= old(out)@ + dep_attr_text(name@, views_of(base_list@), bvs));
    }
}

fn push_list_attr(out: &mut String, name: &str, items: &Vec<String>)
    ensures
        final(out)@ == old(out)@ + list_attr_text(name@, views_of(items@)),
{
    out.append("    ");
    out.append(name);
    out.append(" = [\n");
    push_quoted_lines(out, items, "        ");
    out.append("    ],\n");
    proof {
        assert(out@ =~= old(out)@ + list_attr_text(name@, views_of(items@)));
    }
}

fn push_aliases_attr(out: &mut String, aliases: &Vec<DependencyAlias>)
    ensures
        final(out)@ == old(out)@ + aliases_attr_text(aliases@),
{
    if aliases.len() == 0 {
        proof {
            assert(out@ =~= old(out)@ + aliases_attr_text(aliases@));
        }
        return ;
    }
    let ghost base = out@;
    let ghost entry_fn = |a: DependencyAlias|
        "        "@ + quoted(a.target@) + ": "@ + quoted(a.alias@) + ",\n"@;
    out.append("    aliases = {\n");
    let mut i: usize = 0;
    proof {
        assert(aliases@.take(0).map_values(entry_fn) =~= Seq::<Seq<char>>::empty());
        assert(out@ =~= base + "    aliases = {\n"@ + concat_texts(
            aliases@.take(0).map_values(entry_fn),
        ));
    }
    while i < aliases.len()
        invariant
            i <= aliases@.len(),
            base == old(out)@,
            aliases@.len() > 0,
            entry_fn == (|a: DependencyAlias|
                "        "@ + quoted(a.target@) + ": "@ + quoted(a.alias@) + ",\n"@),
            out@ == base + "    aliases = {\n"@ + concat_texts(
                aliases@.take(i as int).map_values(entry_fn),
            ),
        decreases aliases@.len() - i,
    {
        let ghost before = out@;
        out.append("        ");
        push_quoted(out, aliases[i].target.as_str());
        out.append(": ");
        push_quoted(out, aliases[i].alias.as_str());
        out.append(",\n");
        proof {
            assert(out@ =~= before + entry_fn(aliases@[i as int]));
            assert(aliases@.take(i + 1) =~= aliases@.take(i as int).push(aliases@[i as int]));
            assert(aliases@.take(i + 1).map_values(entry_fn) =~= aliases@.take(
                i as int,
            ).map_values(entry_fn).push(entry_fn(aliases@[i as int])));
            lemma_concat_texts_push(
                aliases@.take(i as int).map_values(entry_fn),
                entry_fn(aliases@[i as int]),
            );
            assert(out@ =~= base + "    aliases = {\n"@ + concat_texts(
                aliases@.take(i + 1).map_values(entry_fn),
            ));
        }
        i = i + 1;
    }
    out.append("    },\n");
    proof {
        assert(aliases@.take(aliases@.len() as int) =~= aliases@);
        assert(out@ =~= old(out)@ + aliases_attr_text(aliases@));
    }
}

#[verifier::rlimit(60)]
fn push_build_script_rule(out: &mut String, c: &CrateContext, t: &BuildableTarget, plan: &DepPlan)
    requires
        plan_matches(*plan, *c),
    ensures
        final(out)@ == old(out)@ + spec_build_script_rule(*c, *t),
{
    out.append("rust_build_script(\n    name = \"build_script\",\n    crate_root = ");
    push_quoted(out, t.path.as_str());
    out.append(",\n    edition = ");
    push_quoted(out, t.edition.as_str());
    out.append(",\n");
    push_list_attr(out, "crate_features", &c.features);
    push_dep_attr(out, "deps", &plan.build_base, &plan.build_blocks);
    push_dep_attr(out, "proc_macro_deps", &plan.build_proc_macro_base, &plan.build_proc_macro_blocks);
    out.append(")\n\n");
    proof {
        assert(out@ =~= old(out)@ + spec_build_script_rule(*c, *t));
    }
}

#[verifier::rlimit(60)]
fn push_library_rule(out: &mut String, c: &CrateContext, t: &BuildableTarget, plan: &DepPlan)
    requires
        plan_matches(*plan, *c),
    ensures
        final(out)@ == old(out)@ + spec_library_rule(*c, *t),
{
    out.append("rust_library(\n    name = ");
    match &c.lib_target_name {
        Some(n) => push_quoted(out, n.as_str()),
        None => push_quoted(out, c.pkg_name.as_str()),
    }
    out.append(",\n    crate_root = ");
    push_quoted(out, t.path.as_str());
    out.append(",\n    edition = ");
    push_quoted(out, t.edition.as_str());
    out.append(",\n");
    push_list_attr(out, "crate_features", &c.features);
    push_aliases_attr(out, &c.default_deps.aliased_dependencies);
    push_dep_attr(out, "deps", &plan.normal_base, &plan.normal_blocks);
    push_dep_attr(out, "proc_macro_deps", &plan.proc_macro_base, &plan.proc_macro_blocks);
    out.append(")\n\n");
    proof {
        assert(out@ =~= old(out)@ + spec_library_rule(*c, *t));
    }
}

#[verifier::rlimit(60)]
fn push_binary_rule(out: &mut String, c: &CrateContext, t: &BuildableTarget, plan: &DepPlan)
    requires
        plan_matches(*plan, *c),
    ensures
        final(out)@ == old(out)@ + spec_binary_rule(*c, *t),
{
    out.append("rust_binary(\n    name = ");
    push_quoted(out, t.name.as_str());
    out.append(",\n    crate_root = ");
    push_quoted(out, t.path.as_str());
    out.append(",\n    edition = ");
    push_quoted(out, t.edition.as_str());
    out.append(",\n");
    push_list_attr(out, "crate_features", &c.features);
    push_aliases_attr(out, &c.default_deps.aliased_dependencies);
    push_dep_attr(out, "deps", &plan.normal_base, &plan.normal_blocks);
    push_dep_attr(out, "proc_macro_deps", &plan.proc_macro_base, &plan.proc_macro_blocks);
    out.append(")\n\n");
    proof {
        assert(out@ =~= old(out)@ + spec_binary_rule(*c, *t));
    }
}

fn push_target_rule(out: &mut String, c: &CrateContext, t: &BuildableTarget, plan: &DepPlan)
    requires
        plan_matches(*plan, *c),
    ensures
        final(out)@ == old(out)@ + spec_target_text(*c, *t),
{
    if crate::text::str_eq(t.kind.as_str(), "lib") {
        push_library_rule(out, c, t, plan);
    } else if crate::text::str_eq(t.kind.as_str(), "bin") {
        push_binary_rule(out, c, t, plan);
    } else {
        proof {
            assert(out@ =~= old(out)@ + spec_target_text(*c, *t));
        }
    }
}

/// Renders the whole generated body of one crate's build file.
#[verifier::rlimit(100)]
fn render_crate_body(c: &CrateContext) -> (r: String)
    ensures
        r@ == spec_crate_text(*c),
{
    let plan = crate_dep_plan(c);
    let mut out = String::new();
    out.append("\"\"\"\nGenerated build targets for ");
    out.append(c.pkg_name.as_str());
    out.append("-");
    out.append(c.pkg_version.as_str());
    out.append("\nLicense: ");
    out.append(c.license.name.as_str());
    out.append("\n\"\"\"\n\npackage(default_visibility = [\"//visibility:public\"])\n\n");
    proof {
        assert(out@ =~= spec_header(*c));
    }
    match &c.build_script_target {
        Some(t) => {
            push_build_script_rule(&mut out, c, t, &plan);
        },
        None => {
            proof {
                assert(out@ =~= spec_header(*c) + spec_build_script_text(*c));
            }
        },
    }
    let ghost head = spec_header(*c) + spec_build_script_text(*c);
    assert(out@ == head);
    let ghost tt_fn = |t: BuildableTarget| spec_target_text(*c, t);
    let mut i: usize = 0;
    proof {
        assert(c.targets@.take(0).map_values(tt_fn) =~= Seq::<Seq<char>>::empty());
        assert(out@ =~= head + concat_texts(c.targets@.take(0).map_values(tt_fn)));
    }
    while i < c.targets.len()
        invariant
            i <= c.targets@.len(),
            plan_matches(plan, *c),
            head == spec_header(*c) + spec_build_script_text(*c),
            tt_fn == (|t: BuildableTarget| spec_target_text(*c, t)),
            out@ == head + concat_texts(c.targets@.take(i as int).map_values(tt_fn)),
        decreases c.targets@.len() - i,
    {
        let t = &c.targets[i];
        let ghost before = out@;
        push_target_rule(&mut out, c, t, &plan);
        proof {
            assert(out@ =~= before + tt_fn(c.targets@[i as int]));
            assert(c.targets@.take(i + 1) =~= c.targets@.take(i as int).push(
                c.targets@[i as int],
            ));
            assert(c.targets@.take(i + 1).map_values(tt_fn) =~= c.targets@.take(
                i as int,
            ).map_values(tt_fn).push(tt_fn(c.targets@[i as int])));
            lemma_concat_texts_push(
                c.targets@.take(i as int).map_values(tt_fn),
                tt_fn(c.targets@[i as int]),
            );
            assert(out@ =~= head + concat_texts(c.targets@.take(i + 1).map_values(tt_fn)));
        }
        i = i + 1;
    }
    proof {
        assert(c.targets@.take(c.targets@.len() as int) =~= c.targets@);
        assert(out@ =~= spec_crate_text(*c));
    }
    out
}

/// One alias entry in the root build file, mapping the unversioned package
/// name to the crate's concrete versioned label.
pub open spec fn alias_entry(c: CrateContext) -> Seq<char> {
    "alias(\n    name = "@ + quoted(c.pkg_name@) + ",\n    actual = "@ + quoted(
        c.workspace_path_to_crate@ + ":"@ + lib_name(c),
    ) + ",\n)\n\n"@
}

/// Alias entries of the first `k` crates: one per root dependency; purely
/// transitive crates contribute nothing.
pub open spec fn alias_entries_upto(crates: Seq<CrateContext>, k: int) -> Seq<char>
    decreases k,
{
    if k <= 0 {
        Seq::empty()
    } else {
        alias_entries_upto(crates, k - 1) + if crates[k - 1].is_root_dependency {
            alias_entry(crates[k - 1])
        } else {
            Seq::empty()
        }
    }
}

/// The header of the root build file.
pub open spec fn aliases_header() -> Seq<char> {
    "\"\"\"\nExport file generated for the workspace root\n\"\"\"\n\npackage(default_visibility = [\"//visibility:public\"])\n\n"@
}

/// The whole root build file: the header, then one alias entry per root
/// dependency, in crate-list order.
pub open spec fn spec_aliases_text(crates: Seq<CrateContext>) -> Seq<char> {
    aliases_header() + alias_entries_upto(crates, crates.len() as int)
}

/// One fetch-rule invocation in the fetch-declarations file.
pub open spec fn fetch_entry(ws: WorkspaceContext, c: CrateContext) -> Seq<char> {
    "    remote_crate_repository(\n        name = "@ + quoted(
        ws.gen_workspace_prefix@ + "__"@ + c.pkg_name@,
    ) + ",\n        version = "@ + quoted(c.pkg_version@) + ",\n"@ + (match c.sha256 {
        Some(h) => "        sha256 = "@ + quoted(h@) + ",\n"@,
        None => Seq::<char>::empty(),
    }) + "        url = "@ + quoted(c.registry_url@) + ",\n    )\n\n"@
}

/// The fetch-declarations file: one fetch-rule invocation per crate, each
/// crate exactly once, in crate-list order.
pub open spec fn spec_fetch_text(ws: WorkspaceContext, crates: Seq<CrateContext>) -> Seq<char> {
    "\"\"\"\nFetch declarations generated for remote crates\n\"\"\"\n\ndef fetch_remote_crates():\n"@
        + concat_texts(crates.map_values(|c: CrateContext| fetch_entry(ws, c)))
}

/// The `(path, contents)` views of a list of file outputs.
pub open spec fn outputs_views(outs: Seq<FileOutputs>) -> Seq<(Seq<char>, Seq<char>)> {
    outs.map_values(|o: FileOutputs| (o.path@, o.contents@))
}

/// The error an output-producing call reports: the owning crate's name when
/// one is known, and the flattened message.
pub open spec fn rendering_err_matches(e: RazeError, name: Option<Seq<char>>, msg: Seq<char>) -> bool {
    match e {
        RazeError::Rendering { crate_name_opt, message } => message@ == msg && (match (
            crate_name_opt,
            name,
        ) {
            (Some(a), Some(b)) => a@ == b,
            (None, None) => true,
            _ => false,
        }),
        _ => false,
    }
}

/// Contents of the first file in `files` whose path reads `path`.
pub open spec fn find_file(files: Seq<FileOutputs>, path: Seq<char>) -> Option<Seq<char>>
    decreases files.len(),
{
    if files.len() == 0 {
        None
    } else if files[0].path@ == path {
        Some(files[0].contents@)
    } else {
        find_file(files.drop_first(), path)
    }
}

fn find_file_exec(files: &Vec<FileOutputs>, path: &str) -> (r: Option<String>)
    ensures
        r is None ==> find_file(files@, path@) is None,
        r is Some ==> find_file(files@, path@) == Some(r->Some_0@),
{
    let mut i: usize = 0;
    proof {
        assert(files@.skip(0) =~= files@);
    }
    while i < files.len()
        invariant
            i <= files@.len(),
            find_file(files@, path@) == find_file(files@.skip(i as int), path@),
        decreases files@.len() - i,
    {
        proof {
            assert(files@.skip(i as int)[0] == files@[i as int]);
        }
        if crate::text::str_eq(files[i].path.as_str(), path) {
            return Some(files[i].contents.clone());
        }
        proof {
            assert(files@.skip(i as int).drop_first() =~= files@.skip(i + 1));
        }
        i = i + 1;
    }
    None
}

/// Splicing of a user-declared raw build-file fragment: the declared file's
/// exact contents appear after the generated body, preceded by a provenance
/// comment naming the source path; a crate declaring no fragment passes its
/// contents through; a declared fragment that cannot be read fails.
pub open spec fn spec_include_additional(
    c: CrateContext,
    existing: Seq<char>,
    files: Seq<FileOutputs>,
) -> Result<Seq<char>, Seq<char>> {
    match c.raze_settings.additional_build_file {
        None => Ok(existing),
        Some(p) => match find_file(files, p@) {
            Some(content) => Ok(
                existing + "\n# Additional content from "@ + p@ + "\n"@ + content,
            ),
            None => Err("failed to read additional_build_file: file not found: "@ + p@),
        },
    }
}

/// Appends a crate's declared additional build file, read beforehand into
/// `additional_files`, to the rendered contents. A declared path absent
/// from `additional_files` is unreadable: a rendering error attributing the
/// crate by name.
pub fn include_additional_build_file(
    package: &CrateContext,
    existing_contents: String,
    additional_files: &Vec<FileOutputs>,
) -> (r: Result<String, RazeError>)
    ensures
        spec_include_additional(*package, existing_contents@, additional_files@) matches Ok(text)
            ==> r is Ok && r->Ok_0@ == text,
        spec_include_additional(*package, existing_contents@, additional_files@) matches Err(msg)
            ==> r is Err && rendering_err_matches(r->Err_0, Some(package.pkg_name@), msg),
{
    match &package.raze_settings.additional_build_file {
        None => Ok(existing_contents),
        Some(p) => match find_file_exec(additional_files, p.as_str()) {
            Some(content) => {
                let mut out = existing_contents;
                out.append("\n# Additional content from ");
                out.append(p.as_str());
                out.append("\n");
                out.append(content.as_str());
                proof {
                    assert(out@ =~= existing_contents@ + "\n# Additional content from "@ + p@
                        + "\n"@ + content@);
                }
                Ok(out)
            },
            None => {
                let mut message = String::from_str(
                    "failed to read additional_build_file: file not found: ",
                );
                message.append(p.as_str());
                Err(
                    RazeError::Rendering {
                        crate_name_opt: Some(package.pkg_name.clone()),
                        message,
                    },
                )
            },
        },
    }
}

/// The rendered build file of one crate, with its additional fragment
/// spliced in, or the message of the failure.
pub open spec fn spec_crate_file_result(c: CrateContext, files: Seq<FileOutputs>) -> Result<
    Seq<char>,
    Seq<char>,
> {
    spec_include_additional(c, spec_crate_text(c), files)
}

/// The per-crate file outputs of the first `k` crates: path
/// `<prefix>/<expected_build_path>` and the rendered contents, or the first
/// crate's failure, attributed to it by name.
pub open spec fn spec_crate_outputs_upto(
    prefix: Seq<char>,
    crates: Seq<CrateContext>,
    files: Seq<FileOutputs>,
    k: int,
) -> Result<Seq<(Seq<char>, Seq<char>)>, (Option<Seq<char>>, Seq<char>)>
    decreases k,
{
    if k <= 0 {
        Ok(Seq::empty())
    } else {
        match spec_crate_outputs_upto(prefix, crates, files, k - 1) {
            Err(e) => Err(e),
            Ok(ps) => match spec_crate_file_result(crates[k - 1], files) {
                Err(m) => Err((Some(crates[k - 1].pkg_name@), m)),
                Ok(text) => Ok(
                    ps.push((prefix + "/"@ + crates[k - 1].expected_build_path@, text)),
                ),
            },
        }
    }
}

proof fn lemma_outputs_err_persists(
    prefix: Seq<char>,
    crates: Seq<CrateContext>,
    files: Seq<FileOutputs>,
    k: int,
    m: int,
)
    requires
        spec_crate_outputs_upto(prefix, crates, files, k) is Err,
        k <= m,
    ensures
        spec_crate_outputs_upto(prefix, crates, files, m) == spec_crate_outputs_upto(
            prefix,
            crates,
            files,
            k,
        ),
    decreases m - k,
{
    if k < m {
        lemma_outputs_err_persists(prefix, crates, files, k, m - 1);
    }
}

/// Renders every crate's build file, in crate-list order.
#[verifier::rlimit(60)]
fn render_crate_files(
    prefix: &str,
    crates: &Vec<CrateContext>,
    additional_files: &Vec<FileOutputs>,
) -> (r: Result<Vec<FileOutputs>, RazeError>)
    ensures
        spec_crate_outputs_upto(prefix@, crates@, additional_files@, crates@.len() as int)
            matches Ok(ps) ==> r is Ok && outputs_views(r->Ok_0@) == ps,
        spec_crate_outputs_upto(prefix@, crates@, additional_files@, crates@.len() as int)
            matches Err(e2) ==> r is Err && rendering_err_matches(r->Err_0, e2.0, e2.1),
{
    let mut outs: Vec<FileOutputs> = Vec::new();
    let mut k: usize = 0;
    proof {
        assert(outputs_views(outs@) =~= Seq::<(Seq<char>, Seq<char>)>::empty());
    }
    while k < crates.len()
        invariant
            k <= crates@.len(),
            spec_crate_outputs_upto(prefix@, crates@, additional_files@, k as int) == Ok::<
                Seq<(Seq<char>, Seq<char>)>,
                (Option<Seq<char>>, Seq<char>),
            >(outputs_views(outs@)),
        decreases crates@.len() - k,
    {
        let c = &crates[k];
        let body = render_crate_body(c);
        let contents = match include_additional_build_file(c, body, additional_files) {
            Ok(t) => t,
            Err(e) => {
                proof {
                    lemma_outputs_err_persists(
                        prefix@,
                        crates@,
                        additional_files@,
                        k + 1,
                        crates@.len() as int,
                    );
                }
                return Err(e);
            },
        };
        let mut path = String::new();
        path.append(prefix);
        path.append("/");
        path.append(c.expected_build_path.as_str());
        let ghost before = outputs_views(outs@);
        outs.push(FileOutputs { path, contents });
        proof {
            assert(outputs_views(outs@) =~= before.push(
                (prefix@ + "/"@ + crates@[k as int].expected_build_path@, contents@),
            ));
        }
        k = k + 1;
    }
    Ok(outs)
}

/// The outputs of a local/vendored-sources render: one build file per
/// crate, then the root build file at `<prefix>/<suffix>` holding the
/// aliases of the root dependencies.
pub open spec fn spec_vendor_outputs(
    rd: RenderDetails,
    pb: PlannedBuild,
    files: Seq<FileOutputs>,
) -> Result<Seq<(Seq<char>, Seq<char>)>, (Option<Seq<char>>, Seq<char>)> {
    match spec_crate_outputs_upto(
        rd.path_prefix@,
        pb.crate_contexts@,
        files,
        pb.crate_contexts@.len() as int,
    ) {
        Err(e) => Err(e),
        Ok(ps) => Ok(
            ps.push(
                (
                    rd.path_prefix@ + "/"@ + rd.buildfile_suffix@,
                    spec_aliases_text(pb.crate_contexts@),
                ),
            ),
        ),
    }
}

/// The outputs of a remote/fetched-sources render: an empty placeholder at
/// `<prefix>/remote/<suffix>` (so that sibling per-crate files have a valid
/// parent package), one build file per crate, the alias file exactly as in
/// vendor mode, and the fetch-declarations file at `<prefix>/crates.bzl`.
pub open spec fn spec_remote_outputs(
    rd: RenderDetails,
    pb: PlannedBuild,
    files: Seq<FileOutputs>,
) -> Result<Seq<(Seq<char>, Seq<char>)>, (Option<Seq<char>>, Seq<char>)> {
    match spec_crate_outputs_upto(
        rd.path_prefix@,
        pb.crate_contexts@,
        files,
        pb.crate_contexts@.len() as int,
    ) {
        Err(e) => Err(e),
        Ok(ps) => Ok(
            seq![
                (
                    rd.path_prefix@ + "/remote/"@ + rd.buildfile_suffix@,
                    Seq::<char>::empty(),
                ),
            ] + ps.push(
                (
                    rd.path_prefix@ + "/"@ + rd.buildfile_suffix@,
                    spec_aliases_text(pb.crate_contexts@),
                ),
            ).push(
                (
                    rd.path_prefix@ + "/crates.bzl"@,
                    spec_fetch_text(pb.workspace_context, pb.crate_contexts@),
                ),
            ),
        ),
    }
}

/// The build plan renderer. It holds no state: the whole template set is
/// fixed at compile time, and every render call is a pure function of its
/// arguments.
#[derive(Default)]
pub struct BazelRenderer {}

impl BazelRenderer {
    pub fn new() -> (r: Self) {
        BazelRenderer {  }
    }

    /// Renders one crate's build file body for vendor mode.
    pub fn render_crate(
        &self,
        workspace_context: &WorkspaceContext,
        package: &CrateContext,
    ) -> (r: String)
        ensures
            r@ == spec_crate_text(*package),
    {
        let _ = workspace_context;
        render_crate_body(package)
    }

    /// Renders one crate's build file body for remote mode; per-crate body
    /// generation is identical in both topologies.
    pub fn render_remote_crate(
        &self,
        workspace_context: &WorkspaceContext,
        package: &CrateContext,
    ) -> (r: String)
        ensures
            r@ == spec_crate_text(*package),
    {
        let _ = workspace_context;
        render_crate_body(package)
    }

    /// Renders the root build file: an alias entry for every root
    /// dependency, none for purely transitive crates.
    #[verifier::loop_isolation(false)]
    pub fn render_aliases(
        &self,
        workspace_context: &WorkspaceContext,
        all_packages: &Vec<CrateContext>,
    ) -> (r: String)
        ensures
            r@ == spec_aliases_text(all_packages@),
    {
        let _ = workspace_context;
        let ghost crates = all_packages@;
        let mut out = String::new();
        out.append(
            "\"\"\"\nExport file generated for the workspace root\n\"\"\"\n\npackage(default_visibility = [\"//visibility:public\"])\n\n",
        );
        proof {
            assert(out@ =~= aliases_header() + alias_entries_upto(crates, 0));
        }
        let mut k: usize = 0;
        while k < all_packages.len()
            invariant
                k <= crates.len(),
                out@ == aliases_header() + alias_entries_upto(crates, k as int),
            decreases crates.len() - k,
        {
            let c = &all_packages[k];
            let ghost before = out@;
            if c.is_root_dependency {
                out.append("alias(\n    name = ");
                push_quoted(&mut out, c.pkg_name.as_str());
                out.append(",\n    actual = ");
                let mut actual = String::new();
                actual.append(c.workspace_path_to_crate.as_str());
                actual.append(":");
                match &c.lib_target_name {
                    Some(n) => actual.append(n.as_str()),
                    None => actual.append(c.pkg_name.as_str()),
                }
                push_quoted(&mut out, actual.as_str());
                out.append(",\n)\n\n");
                proof {
                    assert(out@ =~= before + alias_entry(crates[k as int]));
                }
            }
            proof {
                assert(out@ =~= aliases_header() + alias_entries_upto(crates, k + 1));
            }
            k = k + 1;
        }
        out
    }

    /// Renders the alias file for remote mode, exactly as in vendor mode,
    /// so consumers see one stable label surface regardless of topology.
    pub fn render_remote_aliases(
        &self,
        workspace_context: &WorkspaceContext,
        all_packages: &Vec<CrateContext>,
    ) -> (r: String)
        ensures
            r@ == spec_aliases_text(all_packages@),
    {
        self.render_aliases(workspace_context, all_packages)
    }

    /// Renders the fetch-declarations file: one fetch-rule invocation per
    /// crate, in crate-list order.
    #[verifier::loop_isolation(false)]
    #[verifier::rlimit(60)]
    pub fn render_bzl_fetch(
        &self,
        workspace_context: &WorkspaceContext,
        all_packages: &Vec<CrateContext>,
    ) -> (r: String)
        ensures
            r@ == spec_fetch_text(*workspace_context, all_packages@),
    {
        let ghost crates = all_packages@;
        let ghost fe_fn = |c: CrateContext| fetch_entry(*workspace_context, c);
        let mut out = String::new();
        out.append(
            "\"\"\"\nFetch declarations generated for remote crates\n\"\"\"\n\ndef fetch_remote_crates():\n",
        );
        let ghost head = out@;
        let mut k: usize = 0;
        proof {
            assert(crates.take(0).map_values(fe_fn) =~= Seq::<Seq<char>>::empty());
            assert(out@ =~= head + concat_texts(crates.take(0).map_values(fe_fn)));
        }
        while k < all_packages.len()
            invariant
                k <= crates.len(),
                out@ == head + concat_texts(crates.take(k as int).map_values(fe_fn)),
            decreases crates.len() - k,
        {
            let c = &all_packages[k];
            let ghost before = out@;
            out.append("    remote_crate_repository(\n        name = ");
            let mut name = String::new();
            name.append(workspace_context.gen_workspace_prefix.as_str());
            name.append("__");
            name.append(c.pkg_name.as_str());
            push_quoted(&mut out, name.as_str());
            out.append(",\n        version = ");
            push_quoted(&mut out, c.pkg_version.as_str());
            out.append(",\n");
            match &c.sha256 {
                Some(h) => {
                    out.append("        sha256 = ");
                    push_quoted(&mut out, h.as_str());
                    out.append(",\n");
                },
                None => {},
            }
            out.append("        url = ");
            push_quoted(&mut out, c.registry_url.as_str());
            out.append(",\n    )\n\n");
            proof {
                assert(out@ =~= before + fe_fn(crates[k as int]));
                assert(crates.take(k + 1) =~= crates.take(k as int).push(crates[k as int]));
                assert(crates.take(k + 1).map_values(fe_fn) =~= crates.take(k as int).map_values(
                    fe_fn,
                ).push(fe_fn(crates[k as int])));
                lemma_concat_texts_push(
                    crates.take(k as int).map_values(fe_fn),
                    fe_fn(crates[k as int]),
                );
                assert(out@ =~= head + concat_texts(crates.take(k + 1).map_values(fe_fn)));
            }
            k = k + 1;
        }
        proof {
            assert(crates.take(crates.len() as int) =~= crates);
        }
        out
    }

    /// Local/vendor mode: renders every crate's build file, then the root
    /// build file with the aliases of the root dependencies.
    pub fn render_planned_build(
        &self,
        render_details: &RenderDetails,
        planned_build: &PlannedBuild,
        additional_files: &Vec<FileOutputs>,
    ) -> (r: Result<Vec<FileOutputs>, RazeError>)
        ensures
            spec_vendor_outputs(*render_details, *planned_build, additional_files@) matches Ok(ps)
                ==> r is Ok && outputs_views(r->Ok_0@) == ps,
            spec_vendor_outputs(*render_details, *planned_build, additional_files@) matches Err(e2)
                ==> r is Err && rendering_err_matches(r->Err_0, e2.0, e2.1),
    {
        let crate_files = render_crate_files(
            render_details.path_prefix.as_str(),
            &planned_build.crate_contexts,
            additional_files,
        );
        match crate_files {
            Err(e) => Err(e),
            Ok(mut outs) => {
                let ghost before = outputs_views(outs@);
                let alias_contents = self.render_aliases(
                    &planned_build.workspace_context,
                    &planned_build.crate_contexts,
                );
                let mut path = String::new();
                path.append(render_details.path_prefix.as_str());
                path.append("/");
                path.append(render_details.buildfile_suffix.as_str());
                outs.push(FileOutputs { path, contents: alias_contents });
                proof {
                    assert(outputs_views(outs@) =~= before.push(
                        (
                            render_details.path_prefix@ + "/"@ + render_details.buildfile_suffix@,
                            spec_aliases_text(planned_build.crate_contexts@),
                        ),
                    ));
                }
                Ok(outs)
            },
        }
    }

    /// Remote/fetch mode: an empty placeholder under `remote/`, every
    /// crate's build file, the alias file as in vendor mode, and the
    /// fetch-declarations file.
    pub fn render_remote_planned_build(
        &self,
        render_details: &RenderDetails,
        planned_build: &PlannedBuild,
        additional_files: &Vec<FileOutputs>,
    ) -> (r: Result<Vec<FileOutputs>, RazeError>)
        ensures
            spec_remote_outputs(*render_details, *planned_build, additional_files@) matches Ok(ps)
                ==> r is Ok && outputs_views(r->Ok_0@) == ps,
            spec_remote_outputs(*render_details, *planned_build, additional_files@) matches Err(e2)
                ==> r is Err && rendering_err_matches(r->Err_0, e2.0, e2.1),
    {
        let crate_files = render_crate_files(
            render_details.path_prefix.as_str(),
            &planned_build.crate_contexts,
            additional_files,
        );
        match crate_files {
            Err(e) => Err(e),
            Ok(outs) => {
                let mut result: Vec<FileOutputs> = Vec::new();
                let mut ph_path = String::new();
                ph_path.append(render_details.path_prefix.as_str());
                ph_path.append("/remote/");
                ph_path.append(render_details.buildfile_suffix.as_str());
                result.push(FileOutputs { path: ph_path, contents: String::new() });
                let ghost ps = outputs_views(outs@);
                let ghost ph = (
                    render_details.path_prefix@ + "/remote/"@ + render_details.buildfile_suffix@,
                    Seq::<char>::empty(),
                );
                proof {
                    assert(outputs_views(result@) =~= seq![ph] + ps.take(0));
                }
                let mut k: usize = 0;
                while k < outs.len()
                    invariant
                        k <= outs@.len(),
                        ps == outputs_views(outs@),
                        ph == (
                            render_details.path_prefix@ + "/remote/"@
                                + render_details.buildfile_suffix@,
                            Seq::<char>::empty(),
                        ),
                        outputs_views(result@) == seq![ph] + ps.take(k as int),
                    decreases outs@.len() - k,
                {
                    let ghost before = outputs_views(result@);
                    result.push(
                        FileOutputs {
                            path: outs[k].path.clone(),
                            contents: outs[k].contents.clone(),
                        },
                    );
                    proof {
                        assert(outputs_views(result@) =~= before.push(ps[k as int]));
                        assert(before.push(ps[k as int]) =~= seq![ph] + ps.take(k + 1));
                    }
                    k = k + 1;
                }
                proof {
                    assert(ps.take(ps.len() as int) =~= ps);
                }
                let alias_contents = self.render_aliases(
                    &planned_build.workspace_context,
                    &planned_build.crate_contexts,
                );
                let mut alias_path = String::new();
                alias_path.append(render_details.path_prefix.as_str());
                alias_path.append("/");
                alias_path.append(render_details.buildfile_suffix.as_str());
                let ghost before_alias = outputs_views(result@);
                result.push(FileOutputs { path: alias_path, contents: alias_contents });
                proof {
                    assert(outputs_views(result@) =~= before_alias.push(
                        (
                            render_details.path_prefix@ + "/"@ + render_details.buildfile_suffix@,
                            spec_aliases_text(planned_build.crate_contexts@),
                        ),
                    ));
                }
                let fetch_contents = self.render_bzl_fetch(
                    &planned_build.workspace_context,
                    &planned_build.crate_contexts,
                );
                let mut fetch_path = String::new();
                fetch_path.append(render_details.path_prefix.as_str());
                fetch_path.append("/crates.bzl");
                let ghost before_fetch = outputs_views(result@);
                result.push(FileOutputs { path: fetch_path, contents: fetch_contents });
                proof {
                    assert(outputs_views(result@) =~= before_fetch.push(
                        (
                            render_details.path_prefix@ + "/crates.bzl"@,
                            spec_fetch_text(
                                planned_build.workspace_context,
                                planned_build.crate_contexts@,
                            ),
                        ),
                    ));
                    assert(outputs_views(result@) =~= spec_remote_outputs(
                        *render_details,
                        *planned_build,
                        additional_files@,
                    )->Ok_0);
                }
                Ok(result)
            },
        }
    }
}

proof fn lemma_upto_ok_len(
    prefix: Seq<char>,
    crates: Seq<CrateContext>,
    files: Seq<FileOutputs>,
    m: int,
)
    requires
        0 <= m <= crates.len(),
        spec_crate_outputs_upto(prefix, crates, files, m) is Ok,
    ensures
        spec_crate_outputs_upto(prefix, crates, files, m)->Ok_0.len() == m,
    decreases m,
{
    if m > 0 {
        lemma_upto_ok_len(prefix, crates, files, m - 1);
    }
}

proof fn lemma_upto_ok_all_ok(
    prefix: Seq<char>,
    crates: Seq<CrateContext>,
    files: Seq<FileOutputs>,
    m: int,
)
    requires
        0 <= m <= crates.len(),
        spec_crate_outputs_upto(prefix, crates, files, m) is Ok,
    ensures
        forall|j: int|
            0 <= j < m ==> #[trigger] spec_crate_file_result(crates[j], files) is Ok,
    decreases m,
{
    if m > 0 {
        lemma_upto_ok_all_ok(prefix, crates, files, m - 1);
    }
}

/// Rendering an empty crate list produces exactly one output file: the
/// root build file at `<prefix>/<suffix>`.
pub proof fn lemma_empty_plan_single_output(
    rd: RenderDetails,
    pb: PlannedBuild,
    files: Seq<FileOutputs>,
)
    requires
        pb.crate_contexts@.len() == 0,
    ensures
        spec_vendor_outputs(rd, pb, files) is Ok,
        spec_vendor_outputs(rd, pb, files)->Ok_0.len() == 1,
        spec_vendor_outputs(rd, pb, files)->Ok_0[0] == (
            rd.path_prefix@ + "/"@ + rd.buildfile_suffix@,
            spec_aliases_text(pb.crate_contexts@),
        ),
{
}

proof fn lemma_root_entry_in_upto(crates: Seq<CrateContext>, k: int, m: int)
    requires
        0 <= k < m <= crates.len(),
        crates[k].is_root_dependency,
    ensures
        crate::text::is_substring(alias_entry(crates[k]), alias_entries_upto(crates, m)),
    decreases m - k,
{
    if m == k + 1 {
        crate::text::lemma_substring_here(
            alias_entries_upto(crates, k),
            alias_entry(crates[k]),
            Seq::empty(),
        );
        assert(alias_entries_upto(crates, k) + alias_entry(crates[k]) + Seq::<char>::empty()
            =~= alias_entries_upto(crates, m));
    } else {
        lemma_root_entry_in_upto(crates, k, m - 1);
        crate::text::lemma_substring_extend_right(
            alias_entry(crates[k]),
            alias_entries_upto(crates, m - 1),
            if crates[m - 1].is_root_dependency {
                alias_entry(crates[m - 1])
            } else {
                Seq::empty()
            },
        );
    }
}

/// A crate flagged as a root dependency always contributes its alias entry
/// to the root build file.
pub proof fn lemma_root_crate_alias_present(crates: Seq<CrateContext>, k: int)
    requires
        0 <= k < crates.len(),
        crates[k].is_root_dependency,
    ensures
        crate::text::is_substring(alias_entry(crates[k]), spec_aliases_text(crates)),
{
    lemma_root_entry_in_upto(crates, k, crates.len() as int);
    crate::text::lemma_substring_extend_left(
        alias_entry(crates[k]),
        aliases_header(),
        alias_entries_upto(crates, crates.len() as int),
    );
}

proof fn lemma_no_roots_empty_upto(crates: Seq<CrateContext>, m: int)
    requires
        0 <= m <= crates.len(),
        forall|j: int| 0 <= j < crates.len() ==> !(#[trigger] crates[j].is_root_dependency),
    ensures
        alias_entries_upto(crates, m) == Seq::<char>::empty(),
    decreases m,
{
    if m > 0 {
        lemma_no_roots_empty_upto(crates, m - 1);
        assert(alias_entries_upto(crates, m) =~= Seq::<char>::empty());
    }
}

/// A crate not flagged as a root dependency never contributes an alias
/// entry: with no root dependency at all, the root build file is exactly
/// its header.
pub proof fn lemma_no_roots_no_aliases(crates: Seq<CrateContext>)
    requires
        forall|j: int| 0 <= j < crates.len() ==> !(#[trigger] crates[j].is_root_dependency),
    ensures
        spec_aliases_text(crates) == aliases_header(),
{
    lemma_no_roots_empty_upto(crates, crates.len() as int);
    assert(aliases_header() + Seq::<char>::empty() =~= aliases_header());
}

/// The root-dependency flag as a predicate.
pub open spec fn is_root_fn() -> spec_fn(CrateContext) -> bool {
    |c: CrateContext| c.is_root_dependency
}

/// Non-root crates do not affect the root build file at all: the file is a
/// function of the root-flagged crates alone.
pub proof fn lemma_aliases_ignore_non_roots(crates: Seq<CrateContext>)
    ensures
        spec_aliases_text(crates) == spec_aliases_text(crates.filter(is_root_fn())),
{
    lemma_alias_upto_filter(crates, crates.len() as int);
    assert(crates.take(crates.len() as int) =~= crates);
}

proof fn lemma_alias_upto_filter(crates: Seq<CrateContext>, m: int)
    requires
        0 <= m <= crates.len(),
    ensures
        alias_entries_upto(crates, m) == alias_entries_upto(
            crates.take(m).filter(is_root_fn()),
            crates.take(m).filter(is_root_fn()).len() as int,
        ),
    decreases m,
{
    broadcast use vstd::seq_lib::group_filter_ensures;

    let is_root = is_root_fn();
    if m > 0 {
        lemma_alias_upto_filter(crates, m - 1);
        assert(crates.take(m) =~= crates.take(m - 1).push(crates[m - 1]));
        Seq::<CrateContext>::filter_distributes_over_add(
            crates.take(m - 1),
            seq![crates[m - 1]],
            is_root,
        );
        assert(crates.take(m - 1) + seq![crates[m - 1]] =~= crates.take(m));
        reveal_with_fuel(Seq::<_>::filter, 2);
        let f_prev = crates.take(m - 1).filter(is_root);
        let f_now = crates.take(m).filter(is_root);
        if crates[m - 1].is_root_dependency {
            assert(seq![crates[m - 1]].filter(is_root) =~= seq![crates[m - 1]]);
            assert(f_now =~= f_prev.push(crates[m - 1]));
            lemma_alias_upto_push_root(f_prev, crates[m - 1]);
        } else {
            assert(seq![crates[m - 1]].filter(is_root) =~= Seq::<CrateContext>::empty());
            assert(f_now =~= f_prev);
            assert(alias_entries_upto(crates, m) =~= alias_entries_upto(crates, m - 1));
        }
    }
}

proof fn lemma_alias_upto_push_root(cs: Seq<CrateContext>, c: CrateContext)
    requires
        c.is_root_dependency,
    ensures
        alias_entries_upto(cs.push(c), cs.push(c).len() as int) == alias_entries_upto(
            cs,
            cs.len() as int,
        ) + alias_entry(c),
{
    lemma_alias_upto_same_prefix(cs.push(c), cs, cs.len() as int);
    assert(cs.push(c)[cs.len() as int] == c);
}

proof fn lemma_alias_upto_same_prefix(a: Seq<CrateContext>, b: Seq<CrateContext>, m: int)
    requires
        0 <= m <= a.len(),
        m <= b.len(),
        forall|j: int| 0 <= j < m ==> a[j] == b[j],
    ensures
        alias_entries_upto(a, m) == alias_entries_upto(b, m),
    decreases m,
{
    if m > 0 {
        lemma_alias_upto_same_prefix(a, b, m - 1);
    }
}

/// A binary-kind target always contributes a `rust_binary(` rule
/// invocation, a library-kind target a `rust_library(` invocation, and the
/// two are mutually exclusive per target: a single rule text cannot begin
/// with both markers.
proof fn lemma_starts_with_extend(needle: Seq<char>, a: Seq<char>, b: Seq<char>)
    requires
        crate::text::starts_with(needle, a),
    ensures
        crate::text::starts_with(needle, a + b),
{
    assert((a + b).subrange(0, needle.len() as int) =~= a.subrange(0, needle.len() as int));
}

proof fn lemma_starts_with_trans(m: Seq<char>, n: Seq<char>, hay: Seq<char>)
    requires
        crate::text::starts_with(m, n),
        crate::text::starts_with(n, hay),
    ensures
        crate::text::starts_with(m, hay),
{
    assert(hay.subrange(0, m.len() as int) =~= hay.subrange(0, n.len() as int).subrange(
        0,
        m.len() as int,
    ));
}

#[verifier::rlimit(100)]
pub proof fn lemma_target_rule_markers(c: CrateContext, t: BuildableTarget)
    ensures
        t.kind@ == "bin"@ ==> crate::text::starts_with(
            "rust_binary("@,
            spec_target_text(c, t),
        ),
        t.kind@ == "lib"@ ==> crate::text::starts_with(
            "rust_library("@,
            spec_target_text(c, t),
        ),
{
    reveal_strlit("bin");
    reveal_strlit("lib");
    reveal_strlit("rust_binary(");
    reveal_strlit("rust_library(");
    reveal_strlit("rust_binary(\n    name = ");
    reveal_strlit("rust_library(\n    name = ");
    assert("bin"@[0] == 'b');
    assert("lib"@[0] == 'l');
    assert("bin"@ != "lib"@);
    if t.kind@ == "bin"@ {
        let lit = "rust_binary(\n    name = "@;
        let text = spec_binary_rule(c, t);
        assert(lit.subrange(0, 12) =~= "rust_binary("@);
        assert(crate::text::starts_with("rust_binary("@, lit));
        let p1 = lit + quoted(t.name@);
        let p2 = p1 + ",\n    crate_root = "@;
        let p3 = p2 + quoted(t.path@);
        let p4 = p3 + ",\n    edition = "@;
        let p5 = p4 + quoted(t.edition@);
        let p6 = p5 + ",\n"@;
        let p7 = p6 + list_attr_text("crate_features"@, views_of(c.features@));
        let p8 = p7 + aliases_attr_text(c.default_deps.aliased_dependencies@);
        let p9 = p8 + dep_attr_text("deps"@, spec_normal_base(c), spec_blocks(c, role_normal()));
        let p10 = p9 + dep_attr_text(
            "proc_macro_deps"@,
            spec_proc_macro_base(c),
            spec_blocks(c, role_proc_macro()),
        );
        let p11 = p10 + ")\n\n"@;
        crate::text::lemma_starts_with_concat(lit, quoted(t.name@));
        lemma_starts_with_extend(lit, p1, ",\n    crate_root = "@);
        lemma_starts_with_extend(lit, p2, quoted(t.path@));
        lemma_starts_with_extend(lit, p3, ",\n    edition = "@);
        lemma_starts_with_extend(lit, p4, quoted(t.edition@));
        lemma_starts_with_extend(lit, p5, ",\n"@);
        lemma_starts_with_extend(lit, p6, list_attr_text("crate_features"@, views_of(c.features@)));
        lemma_starts_with_extend(lit, p7, aliases_attr_text(c.default_deps.aliased_dependencies@));
        lemma_starts_with_extend(
            lit,
            p8,
            dep_attr_text("deps"@, spec_normal_base(c), spec_blocks(c, role_normal())),
        );
        lemma_starts_with_extend(
            lit,
            p9,
            dep_attr_text(
                "proc_macro_deps"@,
                spec_proc_macro_base(c),
                spec_blocks(c, role_proc_macro()),
            ),
        );
        lemma_starts_with_extend(lit, p10, ")\n\n"@);
        assert(text == p11);
        lemma_starts_with_trans("rust_binary("@, lit, text);
    }
    if t.kind@ == "lib"@ {
        let lit = "rust_library(\n    name = "@;
        let text = spec_library_rule(c, t);
        assert(lit.subrange(0, 13) =~= "rust_library("@);
        assert(crate::text::starts_with("rust_library("@, lit));
        let p1 = lit + quoted(lib_name(c));
        let p2 = p1 + ",\n    crate_root = "@;
        let p3 = p2 + quoted(t.path@);
        let p4 = p3 + ",\n    edition = "@;
        let p5 = p4 + quoted(t.edition@);
        let p6 = p5 + ",\n"@;
        let p7 = p6 + list_attr_text("crate_features"@, views_of(c.features@));
        let p8 = p7 + aliases_attr_text(c.default_deps.aliased_dependencies@);
        let p9 = p8 + dep_attr_text("deps"@, spec_normal_base(c), spec_blocks(c, role_normal()));
        let p10 = p9 + dep_attr_text(
            "proc_macro_deps"@,
            spec_proc_macro_base(c),
            spec_blocks(c, role_proc_macro()),
        );
        let p11 = p10 + ")\n\n"@;
        crate::text::lemma_starts_with_concat(lit, quoted(lib_name(c)));
        lemma_starts_with_extend(lit, p1, ",\n    crate_root = "@);
        lemma_starts_with_extend(lit, p2, quoted(t.path@));
        lemma_starts_with_extend(lit, p3, ",\n    edition = "@);
        lemma_starts_with_extend(lit, p4, quoted(t.edition@));
        lemma_starts_with_extend(lit, p5, ",\n"@);
        lemma_starts_with_extend(lit, p6, list_attr_text("crate_features"@, views_of(c.features@)));
        lemma_starts_with_extend(lit, p7, aliases_attr_text(c.default_deps.aliased_dependencies@));
        lemma_starts_with_extend(
            lit,
            p8,
            dep_attr_text("deps"@, spec_normal_base(c), spec_blocks(c, role_normal())),
        );
        lemma_starts_with_extend(
            lit,
            p9,
            dep_attr_text(
                "proc_macro_deps"@,
                spec_proc_macro_base(c),
                spec_blocks(c, role_proc_macro()),
            ),
        );
        lemma_starts_with_extend(lit, p10, ")\n\n"@);
        assert(text == p11);
        lemma_starts_with_trans("rust_library("@, lit, text);
    }
}

/// No text begins with both rule markers: the rules are mutually
/// exclusive.
pub proof fn lemma_rule_markers_exclusive(x: Seq<char>)
    ensures
        !(crate::text::starts_with("rust_binary("@, x) && crate::text::starts_with(
            "rust_library("@,
            x,
        )),
{
    reveal_strlit("rust_binary(");
    reveal_strlit("rust_library(");
    if crate::text::starts_with("rust_binary("@, x) && crate::text::starts_with(
        "rust_library("@,
        x,
    ) {
        assert(x.subrange(0, 12)[5] == 'b');
        assert(x.subrange(0, 13)[5] == 'l');
        assert(x[5] == 'b' && x[5] == 'l');
    }
}

/// A binary-kind target's rule invocation appears in the crate's build
/// file body; so does a library-kind target's.
#[verifier::rlimit(100)]
pub proof fn lemma_rule_in_crate_text(c: CrateContext, k: int)
    requires
        0 <= k < c.targets@.len(),
    ensures
        c.targets@[k].kind@ == "bin"@ ==> crate::text::is_substring(
            "rust_binary("@,
            spec_crate_text(c),
        ),
        c.targets@[k].kind@ == "lib"@ ==> crate::text::is_substring(
            "rust_library("@,
            spec_crate_text(c),
        ),
{
    reveal_strlit("bin");
    reveal_strlit("lib");
    let t = c.targets@[k];
    let pieces = c.targets@.map_values(|t2: BuildableTarget| spec_target_text(c, t2));
    lemma_target_rule_markers(c, t);
    if t.kind@ == "bin"@ {
        let marker = "rust_binary("@;
        assert(pieces[k] == spec_target_text(c, t));
        crate::text::lemma_starts_with_is_substring(marker, spec_target_text(c, t));
        crate::text::lemma_concat_texts_elem(pieces, k);
        let hay = concat_texts(pieces);
        lemma_substring_trans(marker, pieces[k], hay);
        let head = spec_header(c) + spec_build_script_text(c);
        crate::text::lemma_substring_extend_left(marker, head, hay);
        assert(crate::text::is_substring(marker, head + hay));
        assert(head + hay =~= spec_crate_text(c));
        assert(crate::text::is_substring(marker, spec_crate_text(c)));
    }
    if t.kind@ == "lib"@ {
        let marker = "rust_library("@;
        assert(pieces[k] == spec_target_text(c, t));
        crate::text::lemma_starts_with_is_substring(marker, spec_target_text(c, t));
        crate::text::lemma_concat_texts_elem(pieces, k);
        let hay = concat_texts(pieces);
        lemma_substring_trans(marker, pieces[k], hay);
        let head = spec_header(c) + spec_build_script_text(c);
        crate::text::lemma_substring_extend_left(marker, head, hay);
        assert(crate::text::is_substring(marker, head + hay));
        assert(head + hay =~= spec_crate_text(c));
        assert(crate::text::is_substring(marker, spec_crate_text(c)));
    }
}

proof fn lemma_substring_trans(needle: Seq<char>, mid: Seq<char>, hay: Seq<char>)
    requires
        crate::text::is_substring(needle, mid),
        crate::text::is_substring(mid, hay),
    ensures
        crate::text::is_substring(needle, hay),
{
    let i = choose|i: int|
        0 <= i && i + mid.len() <= hay.len() && #[trigger] hay.subrange(i, i + mid.len()) == mid;
    let j = choose|j: int|
        0 <= j && j + needle.len() <= mid.len() && #[trigger] mid.subrange(j, j + needle.len())
            == needle;
    assert(hay.subrange(i + j, i + j + needle.len()) =~= mid.subrange(j, j + needle.len()));
}

/// A crate declaring an additional build file that cannot be read fails
/// the whole render call, in either topology.
pub proof fn lemma_missing_additional_file_fails(
    rd: RenderDetails,
    pb: PlannedBuild,
    files: Seq<FileOutputs>,
    k: int,
)
    requires
        0 <= k < pb.crate_contexts@.len(),
        pb.crate_contexts@[k].raze_settings.additional_build_file matches Some(p) && find_file(
            files,
            p@,
        ) is None,
    ensures
        spec_vendor_outputs(rd, pb, files) is Err,
        spec_remote_outputs(rd, pb, files) is Err,
{
    let crates = pb.crate_contexts@;
    let m = crates.len() as int;
    if spec_crate_outputs_upto(rd.path_prefix@, crates, files, m) is Ok {
        lemma_upto_ok_all_ok(rd.path_prefix@, crates, files, m);
        assert(spec_crate_file_result(crates[k], files) is Ok);
        assert(false);
    }
}

/// A readable additional build file's exact contents appear after the
/// generated body, preceded by a provenance comment naming its path.
pub proof fn lemma_additional_file_included(c: CrateContext, files: Seq<FileOutputs>, p: String)
    requires
        c.raze_settings.additional_build_file == Some(p),
        find_file(files, p@) is Some,
    ensures
        spec_crate_file_result(c, files) == Ok::<Seq<char>, Seq<char>>(
            spec_crate_text(c) + "\n# Additional content from "@ + p@ + "\n"@ + find_file(
                files,
                p@,
            )->Some_0,
        ),
        crate::text::is_substring(find_file(files, p@)->Some_0, spec_crate_file_result(c, files)->Ok_0),
{
    let content = find_file(files, p@)->Some_0;
    let front = spec_crate_text(c) + "\n# Additional content from "@ + p@ + "\n"@;
    crate::text::lemma_substring_here(front, content, Seq::empty());
    assert(front + content + Seq::<char>::empty() =~= front + content);
}

/// Remote-mode rendering of N crates produces exactly N + 3 outputs: N
/// per-crate files, the empty placeholder under `remote/`, the alias file,
/// and the fetch-declarations file.
pub proof fn lemma_remote_output_count(rd: RenderDetails, pb: PlannedBuild, files: Seq<FileOutputs>)
    requires
        spec_remote_outputs(rd, pb, files) is Ok,
    ensures
        spec_remote_outputs(rd, pb, files)->Ok_0.len() == pb.crate_contexts@.len() + 3,
        spec_remote_outputs(rd, pb, files)->Ok_0[0] == (
            rd.path_prefix@ + "/remote/"@ + rd.buildfile_suffix@,
            Seq::<char>::empty(),
        ),
        spec_remote_outputs(rd, pb, files)->Ok_0.last() == (
            rd.path_prefix@ + "/crates.bzl"@,
            spec_fetch_text(pb.workspace_context, pb.crate_contexts@),
        ),
{
    let crates = pb.crate_contexts@;
    let m = crates.len() as int;
    lemma_upto_ok_len(rd.path_prefix@, crates, files, m);
}

} // verus!
