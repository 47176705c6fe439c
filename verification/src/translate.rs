//! The source-URI translator: maps one resolved package to its fetch
//! directive and the auxiliary lines that pin a version-control revision.

use vstd::prelude::*;
use crate::model::{GitReference, ResolvedPackage, SourceDescriptor};
use crate::text::{find_char, first_index_of, str_eq};

verus! {

/// The revision a version-control reference pins: the literal tag or
/// revision, the literal branch name, or the automatic-latest-revision
/// placeholder when the branch is exactly `master`.
pub open spec fn spec_revision(reference: GitReference) -> Seq<char> {
    match reference {
        GitReference::Tag(s) => s@,
        GitReference::Revision(s) => s@,
        GitReference::Branch(s) => if s@ == "master"@ {
            "${{AUTOREV}}"@
        } else {
            s@
        },
    }
}

/// The rewritten fetch URL for a version-control source.  An `ssh` or
/// `https` scheme is rewritten to `git` with the original scheme kept as a
/// `protocol` parameter; any other scheme is passed through.  Both forms are
/// tagged with the package name.
pub open spec fn spec_vcs_directive(url: Seq<char>, name: Seq<char>) -> Seq<char>
    recommends
        first_index_of(url, ':') is Some,
{
    let i = first_index_of(url, ':').unwrap();
    let proto = url.subrange(0, i);
    let rest = url.subrange(i, url.len() as int);
    if proto == "ssh"@ || proto == "https"@ {
        "git"@ + rest + ";protocol="@ + proto + ";name="@ + name + ";destsuffix="@ + name
    } else {
        url + ";name="@ + name + ";destsuffix="@ + name
    }
}

/// The fetch directive a package contributes, if any.  The root package and
/// path-sourced packages contribute none.
pub open spec fn spec_directive(root_name: Seq<char>, pkg: ResolvedPackage) -> Option<Seq<char>> {
    if pkg.name@ == root_name {
        None
    } else {
        match pkg.source {
            SourceDescriptor::Registry { host } => Some(
                "crate://"@ + host@ + "/"@ + pkg.name@ + "/"@ + pkg.version@ + " \\\n"@,
            ),
            SourceDescriptor::LocalPath => None,
            SourceDescriptor::VersionControl { url, reference } => Some(
                spec_vcs_directive(url@, pkg.name@),
            ),
            SourceDescriptor::Generic { url } => Some(url@ + " \\\n"@),
        }
    }
}

/// The auxiliary lines a package contributes: exactly three for a
/// version-control source that is emitted, none otherwise.
pub open spec fn spec_aux_of(root_name: Seq<char>, pkg: ResolvedPackage) -> Seq<Seq<char>> {
    if pkg.name@ == root_name {
        Seq::<Seq<char>>::empty()
    } else {
        match pkg.source {
            SourceDescriptor::VersionControl { url, reference } => seq![
                "SRCREV_FORMAT .= \"_"@ + pkg.name@ + "\""@,
                "SRCREV_"@ + pkg.name@ + " = \""@ + spec_revision(reference) + "\""@,
                "EXTRA_OECARGO_PATHS += \"${WORKDIR}/"@ + pkg.name@ + "\""@,
            ],
            _ => Seq::<Seq<char>>::empty(),
        }
    }
}

/// Whether a package's source admits translation: a version-control URL must
/// carry a scheme (have a `:`), as the rewrite splits at it.
pub open spec fn translatable(pkg: ResolvedPackage) -> bool {
    match pkg.source {
        SourceDescriptor::VersionControl { url, .. } => first_index_of(url@, ':') is Some,
        _ => true,
    }
}

/// Whether every member of a resolved set admits translation.
pub open spec fn all_translatable(pkgs: Seq<ResolvedPackage>) -> bool {
    forall|i: int| 0 <= i < pkgs.len() ==> translatable(#[trigger] pkgs[i])
}

/// Checks `all_translatable` at run time, so a caller can refuse a set that
/// the translator's contract excludes.
pub fn check_translatable(pkgs: &Vec<ResolvedPackage>) -> (r: bool)
    ensures
        r == all_translatable(pkgs@),
{
    let mut i: usize = 0;
    while i < pkgs.len()
        invariant
            0 <= i <= pkgs@.len(),
            forall|j: int| 0 <= j < i ==> translatable(#[trigger] pkgs@[j]),
        decreases pkgs@.len() - i,
    {
        let ok = match &pkgs[i].source {
            SourceDescriptor::VersionControl { url, .. } => find_char(url.as_str(), ':').is_some(),
            _ => true,
        };
        if !ok {
            assert(!translatable(pkgs@[i as int]));
            return false;
        }
        i += 1;
    }
    true
}

/// Translates one resolved package against the root package's name.
///
/// A package is emitted exactly when it is not the root itself and is not
/// path-sourced; the directive and auxiliary lines are then the ones
/// `spec_directive` and `spec_aux_of` give.
pub fn translate(pkg: &ResolvedPackage, root_name: &str) -> (r: Option<(String, Vec<String>)>)
    requires
        translatable(*pkg),
    ensures
        match r {
            Some(out) => {
                &&& spec_directive(root_name@, *pkg) == Some(out.0@)
                &&& out.1.deep_view() == spec_aux_of(root_name@, *pkg)
            },
            None => {
                &&& spec_directive(root_name@, *pkg) is None
                &&& spec_aux_of(root_name@, *pkg) == Seq::<Seq<char>>::empty()
            },
        },
        r is Some <==> (pkg.name@ != root_name@ && !(pkg.source is LocalPath)),
{
    if str_eq(pkg.name.as_str(), root_name) {
        return None;
    }
    match &pkg.source {
        SourceDescriptor::Registry { host } => {
            let mut d = String::from_str("crate://");
            d.append(host.as_str());
            d.append("/");
            d.append(pkg.name.as_str());
            d.append("/");
            d.append(pkg.version.as_str());
            d.append(" \\\n");
            let aux: Vec<String> = Vec::new();
            proof {
                assert(aux.deep_view() =~= spec_aux_of(root_name@, *pkg));
            }
            Some((d, aux))
        },
        SourceDescriptor::LocalPath => None,
        SourceDescriptor::VersionControl { url, reference } => {
            let n = url.as_str().unicode_len();
            let iopt = find_char(url.as_str(), ':');
            let i = iopt.unwrap();
            proof {
                crate::text::lemma_first_index_of_bounds(url@, ':');
            }
            let proto = url.as_str().substring_char(0, i);
            let rest = url.as_str().substring_char(i, n);
            proof {
                assert(proto@ =~= url@.subrange(0, i as int));
                assert(rest@ =~= url@.subrange(i as int, url@.len() as int));
            }
            let mut d: String;
            if str_eq(proto, "ssh") || str_eq(proto, "https") {
                d = String::from_str("git");
                d.append(rest);
                d.append(";protocol=");
                d.append(proto);
                d.append(";name=");
                d.append(pkg.name.as_str());
                d.append(";destsuffix=");
                d.append(pkg.name.as_str());
            } else {
                d = url.clone();
                d.append(";name=");
                d.append(pkg.name.as_str());
                d.append(";destsuffix=");
                d.append(pkg.name.as_str());
            }
            let rev: String = match reference {
                GitReference::Tag(s) => s.clone(),
                GitReference::Revision(s) => s.clone(),
                GitReference::Branch(s) => {
                    if str_eq(s.as_str(), "master") {
                        String::from_str("${{AUTOREV}}")
                    } else {
                        s.clone()
                    }
                },
            };
            let mut aux: Vec<String> = Vec::new();
            let mut l1 = String::from_str("SRCREV_FORMAT .= \"_");
            l1.append(pkg.name.as_str());
            l1.append("\"");
            aux.push(l1);
            let mut l2 = String::from_str("SRCREV_");
            l2.append(pkg.name.as_str());
            l2.append(" = \"");
            l2.append(rev.as_str());
            l2.append("\"");
            aux.push(l2);
            let mut l3 = String::from_str("EXTRA_OECARGO_PATHS += \"${WORKDIR}/");
            l3.append(pkg.name.as_str());
            l3.append("\"");
            aux.push(l3);
            proof {
                assert(aux.deep_view() =~= spec_aux_of(root_name@, *pkg));
            }
            Some((d, aux))
        },
        SourceDescriptor::Generic { url } => {
            let mut d = url.clone();
            d.append(" \\\n");
            let aux: Vec<String> = Vec::new();
            proof {
                assert(aux.deep_view() =~= spec_aux_of(root_name@, *pkg));
            }
            Some((d, aux))
        },
    }
}

/// The root package's own identity never yields a fetch directive.
pub proof fn lemma_root_pkg_no_directive(root_name: Seq<char>, pkg: ResolvedPackage)
    requires
        pkg.name@ == root_name,
    ensures
        spec_directive(root_name, pkg) is None,
{
}

/// A path-sourced package never yields a fetch directive.
pub proof fn lemma_local_path_no_directive(root_name: Seq<char>, pkg: ResolvedPackage)
    requires
        pkg.source is LocalPath,
    ensures
        spec_directive(root_name, pkg) is None,
{
}

} // verus!
