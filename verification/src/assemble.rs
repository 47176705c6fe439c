//! The recipe assembler: runs the translator over the whole resolved set,
//! sorts the directive block into its canonical order, resolves the license
//! fields, and substitutes everything into the fixed recipe skeleton.

use vstd::prelude::*;
use vstd::relations::sorted_by;
use vstd::seq_lib::lemma_sorted_unique;
use crate::license::{license_file, spec_license_entry, LicenseProbe};
use crate::model::{ResolvedPackage, RootPackage};
use crate::text::{
    join_strings, join_with, lemma_lex_connected, lemma_lex_total_ordering, lemma_lex_trans,
    lex_le, lex_leq, lex_leq_rel, spec_join, spec_split, split_char, trim_of, trim_str,
};
use crate::translate::{all_translatable, spec_aux_of, spec_directive, translate};

verus! {

/// The fetch directives the resolved set contributes, in encounter order.
pub open spec fn spec_directives(root_name: Seq<char>, pkgs: Seq<ResolvedPackage>) -> Seq<
    Seq<char>,
>
    decreases pkgs.len(),
{
    if pkgs.len() == 0 {
        Seq::<Seq<char>>::empty()
    } else {
        let init = spec_directives(root_name, pkgs.drop_last());
        match spec_directive(root_name, pkgs.last()) {
            Some(d) => init.push(d),
            None => init,
        }
    }
}

/// The auxiliary lines the resolved set contributes, in encounter order.
pub open spec fn spec_aux(root_name: Seq<char>, pkgs: Seq<ResolvedPackage>) -> Seq<Seq<char>>
    decreases pkgs.len(),
{
    if pkgs.len() == 0 {
        Seq::<Seq<char>>::empty()
    } else {
        spec_aux(root_name, pkgs.drop_last()) + spec_aux_of(root_name, pkgs.last())
    }
}

/// Runs the translator over every member of the resolved set, collecting
/// directive lines and auxiliary lines in encounter order.
fn collect_translations(root_name: &str, pkgs: &Vec<ResolvedPackage>) -> (r: (
    Vec<String>,
    Vec<String>,
))
    requires
        all_translatable(pkgs@),
    ensures
        r.0.deep_view() == spec_directives(root_name@, pkgs@),
        r.1.deep_view() == spec_aux(root_name@, pkgs@),
{
    let mut dirs: Vec<String> = Vec::new();
    let mut aux: Vec<String> = Vec::new();
    let mut i: usize = 0;
    proof {
        assert(dirs.deep_view() =~= spec_directives(root_name@, pkgs@.take(0)));
        assert(aux.deep_view() =~= spec_aux(root_name@, pkgs@.take(0)));
    }
    while i < pkgs.len()
        invariant
            0 <= i <= pkgs@.len(),
            all_translatable(pkgs@),
            dirs.deep_view() == spec_directives(root_name@, pkgs@.take(i as int)),
            aux.deep_view() == spec_aux(root_name@, pkgs@.take(i as int)),
        decreases pkgs@.len() - i,
    {
        proof {
            assert(pkgs@.take(i + 1).drop_last() =~= pkgs@.take(i as int));
            assert(pkgs@.take(i + 1).last() == pkgs@[i as int]);
        }
        let ghost pre_dirs = dirs.deep_view();
        let ghost pre_aux = aux.deep_view();
        match translate(&pkgs[i], root_name) {
            Some(out) => {
                let (d, mut a) = out;
                let ghost a_views = a.deep_view();
                dirs.push(d);
                aux.append(&mut a);
                proof {
                    assert(dirs.deep_view() =~= pre_dirs.push(d@));
                    assert(aux.deep_view() =~= pre_aux + a_views);
                }
            },
            None => {
                proof {
                    assert(pre_aux + spec_aux_of(root_name@, pkgs@[i as int]) =~= pre_aux);
                }
            },
        }
        i += 1;
    }
    proof {
        assert(pkgs@.take(pkgs@.len() as int) =~= pkgs@);
    }
    (dirs, aux)
}

/// Inserting into a sequence at the right place keeps it sorted.
proof fn lemma_insert_sorted(s: Seq<Seq<char>>, x: Seq<char>, j: int)
    requires
        sorted_by(s, lex_leq_rel()),
        0 <= j <= s.len(),
        forall|k: int| 0 <= k < j ==> lex_leq(#[trigger] s[k], x),
        j < s.len() ==> !lex_leq(s[j], x),
    ensures
        sorted_by(s.insert(j, x), lex_leq_rel()),
{
    let leq = lex_leq_rel();
    let t = s.insert(j, x);
    if j < s.len() {
        lemma_lex_connected(s[j], x);
    }
    assert forall|p: int, q: int| 0 <= p < q < t.len() implies #[trigger] leq(t[p], t[q]) by {
        if q < j {
            assert(leq(s[p], s[q]));
        } else if q == j {
            assert(t[q] == x);
            assert(leq(s[p], x));
        } else if p == j {
            assert(t[p] == x);
            assert(t[q] == s[q - 1]);
            assert(lex_leq(x, s[j]));
            if q - 1 > j {
                assert(leq(s[j], s[q - 1]));
                lemma_lex_trans(x, s[j], s[q - 1]);
            }
        } else if p < j {
            assert(t[p] == s[p]);
            assert(t[q] == s[q - 1]);
            if p < q - 1 {
                assert(leq(s[p], s[q - 1]));
            } else {
                assert(leq(s[p], x));
                assert(lex_leq(x, s[j]));
                lemma_lex_trans(s[p], x, s[j]);
            }
        } else {
            assert(t[p] == s[p - 1]);
            assert(t[q] == s[q - 1]);
            assert(leq(s[p - 1], s[q - 1]));
        }
    }
}

/// Sorts a block of lines into codepoint order.  The result is the canonical
/// arrangement of the input: what `Seq::sort_by` under `lex_leq` gives.
pub fn sort_lines(lines: Vec<String>) -> (r: Vec<String>)
    ensures
        r.deep_view() == lines.deep_view().sort_by(lex_leq_rel()),
{
    let mut out: Vec<String> = Vec::new();
    let mut i: usize = 0;
    proof {
        assert(out.deep_view() =~= lines.deep_view().take(0));
    }
    while i < lines.len()
        invariant
            0 <= i <= lines@.len(),
            lines.deep_view().len() == lines@.len(),
            sorted_by(out.deep_view(), lex_leq_rel()),
            out.deep_view().to_multiset() == lines.deep_view().take(i as int).to_multiset(),
        decreases lines@.len() - i,
    {
        let s = lines[i].clone();
        let mut j: usize = 0;
        loop
            invariant
                0 <= j <= out@.len(),
                out.deep_view().len() == out@.len(),
                forall|k: int| 0 <= k < j ==> lex_leq(#[trigger] out.deep_view()[k], s@),
            ensures
                0 <= j <= out@.len(),
                forall|k: int| 0 <= k < j ==> lex_leq(#[trigger] out.deep_view()[k], s@),
                j < out@.len() ==> !lex_leq(out.deep_view()[j as int], s@),
            decreases out@.len() - j,
        {
            if j == out.len() {
                break ;
            }
            if !lex_le(out[j].as_str(), s.as_str()) {
                break ;
            }
            j += 1;
        }
        let ghost pre = out.deep_view();
        proof {
            lemma_insert_sorted(pre, s@, j as int);
            vstd::seq_lib::to_multiset_insert(pre, j as int, s@);
            vstd::seq_lib::to_multiset_build(
                lines.deep_view().take(i as int),
                lines.deep_view()[i as int],
            );
        }
        out.insert(j, s);
        proof {
            assert(out.deep_view() =~= pre.insert(j as int, s@));
            assert(s@ == lines.deep_view()[i as int]);
            assert(lines.deep_view().take(i + 1) =~= lines.deep_view().take(i as int).push(
                lines.deep_view()[i as int],
            ));
            assert(out.deep_view().to_multiset() =~= lines.deep_view().take(
                i + 1,
            ).to_multiset());
        }
        i += 1;
    }
    proof {
        assert(lines.deep_view().take(lines@.len() as int) =~= lines.deep_view());
        lemma_lex_total_ordering();
        lines.deep_view().lemma_sort_by_ensures(lex_leq_rel());
        lemma_sorted_unique(out.deep_view(), lines.deep_view().sort_by(lex_leq_rel()), lex_leq_rel());
    }
    out
}

/// The sorted directive block, one line per emitted package.
pub fn directive_block(root_name: &str, resolved: &Vec<ResolvedPackage>) -> (r: Vec<String>)
    requires
        all_translatable(resolved@),
    ensures
        r.deep_view() == spec_directives(root_name@, resolved@).sort_by(lex_leq_rel()),
        sorted_by(r.deep_view(), lex_leq_rel()),
{
    let (dirs, _aux) = collect_translations(root_name, resolved);
    let sorted = sort_lines(dirs);
    proof {
        lemma_lex_total_ordering();
        spec_directives(root_name@, resolved@).lemma_sort_by_ensures(lex_leq_rel());
    }
    sorted
}

/// The recipe's summary: the declared description, or the package name.
pub open spec fn spec_summary(root: RootPackage) -> Seq<char> {
    match root.description {
        Some(d) => d@,
        None => root.name@,
    }
}

/// The recipe's homepage: the declared homepage, else the repository URL,
/// else empty.
pub open spec fn spec_homepage(root: RootPackage) -> Seq<char> {
    match root.homepage {
        Some(h) => h@,
        None => match root.repository {
            Some(r) => r@,
            None => Seq::<char>::empty(),
        },
    }
}

/// The string the license tokens are split from: the declared license, else
/// the declared license file, else the literal `unknown`.
pub open spec fn spec_license_source(root: RootPackage) -> Seq<char> {
    match root.license {
        Some(l) => l@,
        None => match root.license_file {
            Some(f) => f@,
            None => "unknown"@,
        },
    }
}

/// Each part with its whitespace trimmed.
pub open spec fn trimmed_views(parts: Seq<Seq<char>>) -> Seq<Seq<char>> {
    parts.map_values(|t: Seq<char>| trim_of(t))
}

/// The license expression: the `/`-separated tokens, trimmed, joined into an
/// OR-expression.
pub open spec fn spec_license_expr(root: RootPackage) -> Seq<char> {
    spec_join(trimmed_views(spec_split(spec_license_source(root), '/')), " | "@)
}

/// One checksum clause per license token, in token order.
pub open spec fn spec_entries(tokens: Seq<Seq<char>>, probes: Seq<LicenseProbe>) -> Seq<
    Seq<char>,
> {
    Seq::new(tokens.len(), |i: int| spec_license_entry(tokens[i], probes[i]))
}

/// The concatenated license checksum clauses.
pub open spec fn spec_lic_files(root: RootPackage, probes: Seq<LicenseProbe>) -> Seq<char> {
    spec_join(
        spec_entries(spec_split(spec_license_source(root), '/'), probes),
        Seq::<char>::empty(),
    )
}

/// The sorted, concatenated fetch directive block.
pub open spec fn spec_src_uri_block(root_name: Seq<char>, pkgs: Seq<ResolvedPackage>) -> Seq<
    char,
> {
    spec_join(spec_directives(root_name, pkgs).sort_by(lex_leq_rel()), Seq::<char>::empty())
}

/// The auxiliary lines joined one per line, in encounter order.
pub open spec fn spec_aux_block(root_name: Seq<char>, pkgs: Seq<ResolvedPackage>) -> Seq<char> {
    spec_join(spec_aux(root_name, pkgs), "\n"@)
}

/// The fixed output skeleton with every field substituted.
pub open spec fn spec_recipe_text(
    name: Seq<char>,
    version: Seq<char>,
    summary: Seq<char>,
    homepage: Seq<char>,
    license: Seq<char>,
    lic_files: Seq<char>,
    src_uri: Seq<char>,
    extras: Seq<char>,
    generator_version: Seq<char>,
) -> Seq<char> {
    "# recipe for "@ + name + " "@ + version + "\n"@ + "SUMMARY = \""@ + summary + "\"\n"@
        + "HOMEPAGE = \""@ + homepage + "\"\n"@ + "LICENSE = \""@ + license + "\"\n"@
        + "LIC_FILES_CHKSUM = \""@ + lic_files + "\"\n\n"@ + "SRC_URI = \""@ + src_uri
        + "\"\n\n"@ + extras + "\n\n"@ + "# generated by cargo-bitbake "@ + generator_version
        + "\n"@
}

/// The whole recipe document for a root package, its resolved set, and the
/// license probes matching the root's license tokens.
pub open spec fn spec_recipe(
    root: RootPackage,
    pkgs: Seq<ResolvedPackage>,
    probes: Seq<LicenseProbe>,
    generator_version: Seq<char>,
) -> Seq<char> {
    spec_recipe_text(
        root.name@,
        root.version@,
        trim_of(spec_summary(root)),
        trim_of(spec_homepage(root)),
        trim_of(spec_license_expr(root)),
        trim_of(spec_lic_files(root, probes)),
        spec_src_uri_block(root.name@, pkgs),
        spec_aux_block(root.name@, pkgs),
        generator_version,
    )
}

/// The `/`-separated license tokens of the root package, untrimmed, in order.
/// The caller probes the file system once per token.
pub fn license_tokens(root: &RootPackage) -> (r: Vec<String>)
    ensures
        r.deep_view() == spec_split(spec_license_source(*root), '/'),
        r@.len() >= 1,
{
    let src: String = match &root.license {
        Some(l) => l.clone(),
        None => match &root.license_file {
            Some(f) => f.clone(),
            None => String::from_str("unknown"),
        },
    };
    split_char(src.as_str(), '/')
}

fn render_recipe(
    name: &str,
    version: &str,
    summary: &String,
    homepage: &String,
    license: &String,
    lic_files: &String,
    src_uri: &String,
    extras: &String,
    generator_version: &str,
) -> (r: String)
    ensures
        r@ == spec_recipe_text(
            name@,
            version@,
            summary@,
            homepage@,
            license@,
            lic_files@,
            src_uri@,
            extras@,
            generator_version@,
        ),
{
    let mut out = String::from_str("# recipe for ");
    out.append(name);
    out.append(" ");
    out.append(version);
    out.append("\n");
    out.append("SUMMARY = \"");
    out.append(summary.as_str());
    out.append("\"\n");
    out.append("HOMEPAGE = \"");
    out.append(homepage.as_str());
    out.append("\"\n");
    out.append("LICENSE = \"");
    out.append(license.as_str());
    out.append("\"\n");
    out.append("LIC_FILES_CHKSUM = \"");
    out.append(lic_files.as_str());
    out.append("\"\n\n");
    out.append("SRC_URI = \"");
    out.append(src_uri.as_str());
    out.append("\"\n\n");
    out.append(extras.as_str());
    out.append("\n\n");
    out.append("# generated by cargo-bitbake ");
    out.append(generator_version);
    out.append("\n");
    out
}

/// Assembles the whole recipe document.  `probes` holds one file-system probe
/// per license token, in token order; `generator_version` is quoted in the
/// closing comment.
pub fn generate_recipe(
    root: &RootPackage,
    resolved: &Vec<ResolvedPackage>,
    probes: &Vec<LicenseProbe>,
    generator_version: &str,
) -> (r: String)
    requires
        all_translatable(resolved@),
        probes@.len() == spec_split(spec_license_source(*root), '/').len(),
    ensures
        r@ == spec_recipe(*root, resolved@, probes@, generator_version@),
{
    let (dirs, aux) = collect_translations(root.name.as_str(), resolved);
    let sorted = sort_lines(dirs);
    let src_uri = join_with(&sorted, "");
    let extras = join_with(&aux, "\n");

    let tokens = license_tokens(root);
    let ghost token_views = spec_split(spec_license_source(*root), '/');

    let mut trimmed: Vec<String> = Vec::new();
    let mut i: usize = 0;
    proof {
        assert(trimmed.deep_view() =~= trimmed_views(token_views).take(0));
    }
    while i < tokens.len()
        invariant
            0 <= i <= tokens@.len(),
            tokens.deep_view() == token_views,
            tokens.deep_view().len() == tokens@.len(),
            trimmed.deep_view() == trimmed_views(token_views).take(i as int),
        decreases tokens@.len() - i,
    {
        let ghost pre = trimmed.deep_view();
        let t = trim_str(tokens[i].as_str());
        trimmed.push(t);
        proof {
            assert(trimmed.deep_view() =~= pre.push(t@));
            assert(trimmed.deep_view() =~= trimmed_views(token_views).take(i + 1));
        }
        i += 1;
    }
    proof {
        assert(trimmed_views(token_views).take(trimmed_views(token_views).len() as int)
            =~= trimmed_views(token_views));
    }
    let license_joined = join_strings(&trimmed, " | ");

    let mut entries: Vec<String> = Vec::new();
    let mut k: usize = 0;
    proof {
        assert(entries.deep_view() =~= spec_entries(token_views, probes@).take(0));
    }
    while k < tokens.len()
        invariant
            0 <= k <= tokens@.len(),
            tokens.deep_view() == token_views,
            tokens.deep_view().len() == tokens@.len(),
            probes@.len() == token_views.len(),
            entries.deep_view() == spec_entries(token_views, probes@).take(k as int),
        decreases tokens@.len() - k,
    {
        let ghost pre = entries.deep_view();
        let e = license_file(tokens[k].as_str(), &probes[k]);
        entries.push(e);
        proof {
            assert(entries.deep_view() =~= pre.push(e@));
            assert(entries.deep_view() =~= spec_entries(token_views, probes@).take(k + 1));
        }
        k += 1;
    }
    proof {
        let all = spec_entries(token_views, probes@);
        assert(all.take(all.len() as int) =~= all);
    }
    let lic_files_joined = join_strings(&entries, "");
    proof {
        reveal_strlit("");
        assert(""@ =~= Seq::<char>::empty());
        assert(src_uri@ == spec_src_uri_block(root.name@, resolved@));
        assert(extras@ == spec_aux_block(root.name@, resolved@));
        assert(license_joined@ == spec_license_expr(*root));
        assert(lic_files_joined@ == spec_lic_files(*root, probes@));
    }

    let summary = match &root.description {
        Some(d) => d.clone(),
        None => root.name.clone(),
    };
    let homepage = match &root.homepage {
        Some(h) => h.clone(),
        None => match &root.repository {
            Some(rp) => rp.clone(),
            None => String::new(),
        },
    };
    proof {
        assert(homepage@ == spec_homepage(*root));
        assert(summary@ == spec_summary(*root));
    }
    let summary_t = trim_str(summary.as_str());
    let homepage_t = trim_str(homepage.as_str());
    let license_t = trim_str(license_joined.as_str());
    let lic_files_t = trim_str(lic_files_joined.as_str());

    render_recipe(
        root.name.as_str(),
        root.version.as_str(),
        &summary_t,
        &homepage_t,
        &license_t,
        &lic_files_t,
        &src_uri,
        &extras,
        generator_version,
    )
}

/// The name of the file the recipe is written to.
pub fn recipe_file_name(root: &RootPackage) -> (r: String)
    ensures
        r@ == root.name@ + "_"@ + root.version@ + ".bb"@,
{
    let mut out = root.name.clone();
    out.append("_");
    out.append(root.version.as_str());
    out.append(".bb");
    out
}

} // verus!
