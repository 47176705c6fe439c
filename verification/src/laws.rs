//! The assembler's global laws: what the emitted directive block owes every
//! resolved set, proved over the specification functions the executable
//! contracts are stated with.

use vstd::prelude::*;
use vstd::seq_lib::lemma_sorted_unique;
use crate::assemble::{spec_directives, spec_recipe, spec_src_uri_block};
use crate::license::LicenseProbe;
use crate::model::{ResolvedPackage, RootPackage, SourceDescriptor};
use crate::text::{lemma_lex_total_ordering, lex_leq_rel};
use crate::translate::spec_directive;

verus! {

/// Whether a package is emitted at all: it is not the root itself and is not
/// path-sourced.
pub open spec fn emitted(root_name: Seq<char>, pkg: ResolvedPackage) -> bool {
    pkg.name@ != root_name && !(pkg.source is LocalPath)
}

/// The resolved set with the root package and all path-sourced packages
/// dropped.
pub open spec fn emitted_only(root_name: Seq<char>, s: Seq<ResolvedPackage>) -> Seq<
    ResolvedPackage,
> {
    s.filter(|p: ResolvedPackage| emitted(root_name, p))
}

/// Neither the root package's own identity nor a path-sourced package ever
/// reaches the directive block: dropping them all changes nothing.
pub proof fn lemma_excluded_contribute_nothing(root_name: Seq<char>, s: Seq<ResolvedPackage>)
    ensures
        spec_directives(root_name, emitted_only(root_name, s)) == spec_directives(root_name, s),
    decreases s.len(),
{
    reveal(Seq::filter);
    if s.len() == 0 {
        assert(emitted_only(root_name, s) =~= s);
    } else {
        lemma_excluded_contribute_nothing(root_name, s.drop_last());
        let f = emitted_only(root_name, s);
        let fd = emitted_only(root_name, s.drop_last());
        if emitted(root_name, s.last()) {
            assert(f == fd.push(s.last()));
            assert(f.drop_last() =~= fd);
            assert(f.last() == s.last());
        } else {
            assert(f == fd);
            assert(spec_directive(root_name, s.last()) is None);
        }
    }
}

/// Removing one package from the set removes exactly that package's own
/// contribution from the multiset of directive lines.
proof fn lemma_directives_multiset_remove(root_name: Seq<char>, s: Seq<ResolvedPackage>, i: int)
    requires
        0 <= i < s.len(),
    ensures
        match spec_directive(root_name, s[i]) {
            Some(d) => spec_directives(root_name, s).to_multiset() =~= spec_directives(
                root_name,
                s.remove(i),
            ).to_multiset().insert(d),
            None => spec_directives(root_name, s).to_multiset() =~= spec_directives(
                root_name,
                s.remove(i),
            ).to_multiset(),
        },
    decreases s.len(),
{
    broadcast use vstd::multiset::group_multiset_axioms;

    let init = spec_directives(root_name, s.drop_last());
    if i == s.len() - 1 {
        assert(s.remove(i) =~= s.drop_last());
        match spec_directive(root_name, s.last()) {
            Some(d) => {
                vstd::seq_lib::to_multiset_build(init, d);
            },
            None => {},
        }
    } else {
        let t = s.remove(i);
        assert(t.drop_last() =~= s.drop_last().remove(i));
        assert(t.last() == s.last());
        assert(s.drop_last()[i] == s[i]);
        lemma_directives_multiset_remove(root_name, s.drop_last(), i);
        let init_t = spec_directives(root_name, t.drop_last());
        match spec_directive(root_name, s.last()) {
            Some(dl) => {
                vstd::seq_lib::to_multiset_build(init, dl);
                vstd::seq_lib::to_multiset_build(init_t, dl);
                match spec_directive(root_name, s[i]) {
                    Some(di) => {
                        assert(init.to_multiset() =~= init_t.to_multiset().insert(di));
                        assert(init_t.to_multiset().insert(di).insert(dl)
                            =~= init_t.to_multiset().insert(dl).insert(di));
                    },
                    None => {},
                }
            },
            None => {},
        }
    }
}

/// Two orderings of the same resolved set contribute the same multiset of
/// directive lines.
pub proof fn lemma_directives_permutation(
    root_name: Seq<char>,
    s1: Seq<ResolvedPackage>,
    s2: Seq<ResolvedPackage>,
)
    requires
        s1.to_multiset() == s2.to_multiset(),
    ensures
        spec_directives(root_name, s1).to_multiset() == spec_directives(
            root_name,
            s2,
        ).to_multiset(),
    decreases s1.len(),
{
    broadcast use vstd::seq_lib::group_to_multiset_ensures;
    broadcast use vstd::multiset::group_multiset_axioms;

    if s1.len() == 0 {
        vstd::seq_lib::to_multiset_len(s1);
        vstd::seq_lib::to_multiset_len(s2);
        assert(s2.len() == 0);
    } else {
        let x = s1.last();
        assert(s1.contains(x));
        assert(s1.to_multiset().count(x) > 0);
        assert(s2.to_multiset().count(x) > 0);
        assert(s2.contains(x));
        let i = choose|i: int| 0 <= i < s2.len() && s2[i] == x;
        assert(s1.remove(s1.len() - 1) =~= s1.drop_last());
        assert(s1.remove(s1.len() - 1).to_multiset() =~= s1.to_multiset().remove(x));
        assert(s2.remove(i).to_multiset() =~= s2.to_multiset().remove(x));
        assert(s1.drop_last().to_multiset() == s2.remove(i).to_multiset());
        lemma_directives_permutation(root_name, s1.drop_last(), s2.remove(i));
        lemma_directives_multiset_remove(root_name, s2, i);
        match spec_directive(root_name, x) {
            Some(d) => {
                vstd::seq_lib::to_multiset_build(spec_directives(root_name, s1.drop_last()), d);
            },
            None => {},
        }
    }
}

/// The directive block is canonical: any two orderings of the same resolved
/// set yield the same sorted directive lines, and so the same fetch block.
pub proof fn lemma_directive_block_stable(
    root_name: Seq<char>,
    s1: Seq<ResolvedPackage>,
    s2: Seq<ResolvedPackage>,
)
    requires
        s1.to_multiset() == s2.to_multiset(),
    ensures
        spec_directives(root_name, s1).sort_by(lex_leq_rel()) == spec_directives(
            root_name,
            s2,
        ).sort_by(lex_leq_rel()),
        spec_src_uri_block(root_name, s1) == spec_src_uri_block(root_name, s2),
{
    lemma_directives_permutation(root_name, s1, s2);
    lemma_lex_total_ordering();
    let d1 = spec_directives(root_name, s1);
    let d2 = spec_directives(root_name, s2);
    d1.lemma_sort_by_ensures(lex_leq_rel());
    d2.lemma_sort_by_ensures(lex_leq_rel());
    assert(d1.sort_by(lex_leq_rel()).to_multiset() == d2.sort_by(lex_leq_rel()).to_multiset());
    lemma_sorted_unique(d1.sort_by(lex_leq_rel()), d2.sort_by(lex_leq_rel()), lex_leq_rel());
}

/// Every package contributes at most one directive line: the block is never
/// longer than the resolved set itself.
pub proof fn lemma_at_most_one_directive_per_package(
    root_name: Seq<char>,
    s: Seq<ResolvedPackage>,
)
    ensures
        spec_directives(root_name, s).len() <= s.len(),
    decreases s.len(),
{
    if s.len() > 0 {
        lemma_at_most_one_directive_per_package(root_name, s.drop_last());
    }
}

/// Generation is deterministic: the document is a function of its inputs
/// alone, so running it twice over unchanged inputs yields identical bytes.
pub proof fn lemma_generation_deterministic(
    root: RootPackage,
    pkgs: Seq<ResolvedPackage>,
    probes: Seq<LicenseProbe>,
    generator_version: Seq<char>,
    out1: Seq<char>,
    out2: Seq<char>,
)
    requires
        out1 == spec_recipe(root, pkgs, probes, generator_version),
        out2 == spec_recipe(root, pkgs, probes, generator_version),
    ensures
        out1 == out2,
{
}

} // verus!
