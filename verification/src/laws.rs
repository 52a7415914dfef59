//! Properties that hold across the operations of the library.
//!
//! A file's repository sections have distinct IDs (`keys_unique`), as every
//! file built by parsing, `new`, `add`, `set`, `remove` and `merge` does;
//! the laws about lookups are stated for such files.

use crate::collections::{
    key_index, keys_unique, lemma_insert_other, lemma_insert_unique, lemma_key_index,
    lemma_key_index_at, lemma_remove_props, map_get, map_insert, map_remove,
};
use crate::diff::{
    classify_repos, diff_step, empty_diff, removed_repos, spec_diff_files, spec_diff_main,
    spec_diff_repos, DiffView,
};
use crate::mainconfig::MainConfigView;
use crate::merge::{fill_missing, insert_all, merge_main_block, merge_main_view, spec_merge};
use crate::repo::RepoView;
use crate::repofile::{bare_block_view, empty_file_view, set_block_view, RepoFileView, SectionBlockView};
use crate::text::{lemma_trimmed_fixed, spec_trim};
use crate::types::is_valid_repo_id;
use crate::variables::{
    detect_from, expand, expand_from, is_name_char, lemma_name_end, name_end, scan_operand,
    ExpandFailure,
};
use vstd::prelude::*;

verus! {

// ============================================================================
// Identifiers
// ============================================================================

/// A valid repository ID is its own trimmed text, so validating the text
/// of an ID gives the same ID back.
pub proof fn lemma_repo_id_revalidates(s: Seq<char>)
    requires
        is_valid_repo_id(s),
    ensures
        spec_trim(s) == s,
        is_valid_repo_id(spec_trim(s)),
{
    lemma_trimmed_fixed(s);
}

// ============================================================================
// Repository sections of a file
// ============================================================================

/// A new file has no repository and no `[main]` section.
pub proof fn lemma_new_file_empty()
    ensures
        empty_file_view().repos.len() == 0,
        empty_file_view().main is None,
        keys_unique(empty_file_view().repos),
{
}

/// After adding a repository whose ID is absent, it is found under its ID
/// (as a block holding only the repository), the file has one more
/// section, and every other ID finds what it found before.
pub proof fn lemma_add_then_get(f: RepoFileView, r: RepoView, other: Seq<char>)
    requires
        keys_unique(f.repos),
        map_get(f.repos, r.id) is None,
        other != r.id,
    ensures
        map_get(map_insert(f.repos, r.id, bare_block_view(r)), r.id) == Some(bare_block_view(r)),
        map_insert(f.repos, r.id, bare_block_view(r)).len() == f.repos.len() + 1,
        keys_unique(map_insert(f.repos, r.id, bare_block_view(r))),
        map_get(map_insert(f.repos, r.id, bare_block_view(r)), other) == map_get(f.repos, other),
{
    lemma_insert_unique(f.repos, r.id, bare_block_view(r));
    lemma_insert_other(f.repos, r.id, bare_block_view(r), other);
}

/// After setting a repository, it is found under its ID with its data; a
/// section it replaces keeps its place and its header comments, and the
/// number of sections is unchanged; every other ID finds what it found
/// before; IDs stay distinct.
pub proof fn lemma_set_then_get(f: RepoFileView, r: RepoView, other: Seq<char>)
    requires
        keys_unique(f.repos),
        other != r.id,
    ensures
        map_get(map_insert(f.repos, r.id, set_block_view(f.repos, r)), r.id) == Some(set_block_view(f.repos, r)),
        set_block_view(f.repos, r).data == r,
        map_get(f.repos, r.id) matches Some(b) ==> set_block_view(f.repos, r).header_comments == b.header_comments,
        map_get(f.repos, r.id) matches Some(b) ==> key_index(map_insert(f.repos, r.id, set_block_view(f.repos, r)), r.id) == key_index(f.repos, r.id),
        map_get(f.repos, r.id) is Some ==> map_insert(f.repos, r.id, set_block_view(f.repos, r)).len() == f.repos.len(),
        keys_unique(map_insert(f.repos, r.id, set_block_view(f.repos, r))),
        map_get(map_insert(f.repos, r.id, set_block_view(f.repos, r)), other) == map_get(f.repos, other),
{
    lemma_insert_unique(f.repos, r.id, set_block_view(f.repos, r));
    lemma_insert_other(f.repos, r.id, set_block_view(f.repos, r), other);
    lemma_key_index(f.repos, r.id);
    if let Some(i) = key_index(f.repos, r.id) {
        let m = map_insert(f.repos, r.id, set_block_view(f.repos, r));
        lemma_key_index_at(m, r.id, i);
    }
}

/// After removing an ID, it is no longer found, every other ID finds what
/// it found before, and the file has one section less if the ID was there.
pub proof fn lemma_remove_then_absent(f: RepoFileView, id: Seq<char>, other: Seq<char>)
    requires
        keys_unique(f.repos),
        other != id,
    ensures
        map_get(map_remove(f.repos, id), id) is None,
        map_get(map_remove(f.repos, id), other) == map_get(f.repos, other),
        keys_unique(map_remove(f.repos, id)),
        map_remove(f.repos, id).len() == if map_get(f.repos, id) is Some {
            f.repos.len() - 1
        } else {
            f.repos.len() as int
        },
{
    lemma_remove_props(f.repos, id);
    lemma_key_index(f.repos, id);
}

/// Removing a repository that was just added restores the sections.
pub proof fn lemma_remove_undoes_add(f: RepoFileView, r: RepoView)
    requires
        map_get(f.repos, r.id) is None,
    ensures
        map_remove(map_insert(f.repos, r.id, bare_block_view(r)), r.id) == f.repos,
{
    lemma_key_index(f.repos, r.id);
    let g = map_insert(f.repos, r.id, bare_block_view(r));
    lemma_key_index_at(g, r.id, f.repos.len() as int);
    assert(g.remove(f.repos.len() as int) =~= f.repos);
}

// ============================================================================
// Merging
// ============================================================================

proof fn lemma_insert_all_props<V>(d: Seq<(Seq<char>, V)>, s: Seq<(Seq<char>, V)>)
    requires
        keys_unique(d),
        keys_unique(s),
    ensures
        keys_unique(insert_all(d, s)),
        forall|i: int| 0 <= i < s.len() ==> map_get(insert_all(d, s), #[trigger] s[i].0) == Some(s[i].1),
        forall|k: Seq<char>|
            map_get(s, k) is None ==> #[trigger] map_get(insert_all(d, s), k) == map_get(d, k),
    decreases s.len(),
{
    if s.len() > 0 {
        let dl = s.drop_last();
        assert(keys_unique(dl)) by {
            assert forall|i: int, j: int| 0 <= i < j < dl.len() implies dl[i].0 != dl[j].0 by {
                assert(dl[i] == s[i]);
                assert(dl[j] == s[j]);
            }
        }
        lemma_insert_all_props(d, dl);
        let acc = insert_all(d, dl);
        let (k, v) = s.last();
        lemma_insert_unique(acc, k, v);
        assert forall|i: int| 0 <= i < s.len() implies map_get(insert_all(d, s), #[trigger] s[i].0) == Some(s[i].1) by {
            if i < s.len() - 1 {
                assert(s[i] == dl[i]);
                assert(s[i].0 != k);
                lemma_insert_other(acc, k, v, s[i].0);
            }
        }
        assert forall|k2: Seq<char>| map_get(s, k2) is None implies #[trigger] map_get(insert_all(d, s), k2) == map_get(d, k2) by {
            lemma_key_index(s, k2);
            lemma_key_index(dl, k2);
            if k2 == k {
                lemma_key_index_at(s, k, s.len() - 1);
            } else {
                match key_index(dl, k2) {
                    Some(j) => {
                        assert(s[j].0 == k2);
                    },
                    None => {},
                }
                lemma_insert_other(acc, k, v, k2);
            }
        }
    }
}

/// After a merge, each repository of the other file is found under its ID
/// with the other's section, each ID the other lacks finds what it found
/// before, and IDs stay distinct.
pub proof fn lemma_merge_repos(a: RepoFileView, b: RepoFileView, k: Seq<char>)
    requires
        keys_unique(a.repos),
        keys_unique(b.repos),
    ensures
        keys_unique(spec_merge(a, b).repos),
        forall|i: int| 0 <= i < b.repos.len() ==> map_get(spec_merge(a, b).repos, #[trigger] b.repos[i].0) == Some(b.repos[i].1),
        map_get(b.repos, k) is None ==> map_get(spec_merge(a, b).repos, k) == map_get(a.repos, k),
        spec_merge(a, b).preamble == a.preamble,
{
    lemma_insert_all_props(a.repos, b.repos);
}

proof fn lemma_fill_missing_present<V>(d: Seq<(Seq<char>, V)>, s: Seq<(Seq<char>, V)>)
    requires
        forall|i: int| 0 <= i < s.len() ==> map_get(d, #[trigger] s[i].0) is Some,
    ensures
        fill_missing(d, s) == d,
    decreases s.len(),
{
    if s.len() > 0 {
        assert forall|i: int| 0 <= i < s.drop_last().len() implies map_get(d, #[trigger] s.drop_last()[i].0) is Some by {
            assert(s.drop_last()[i] == s[i]);
        }
        lemma_fill_missing_present(d, s.drop_last());
        assert(map_get(d, s[s.len() - 1].0) is Some);
    }
}

proof fn lemma_fill_missing_self<V>(d: Seq<(Seq<char>, V)>)
    ensures
        fill_missing(d, d) == d,
{
    assert forall|i: int| 0 <= i < d.len() implies map_get(d, #[trigger] d[i].0) is Some by {
        lemma_key_index(d, d[i].0);
    }
    lemma_fill_missing_present(d, d);
}

proof fn lemma_insert_all_self<V>(d: Seq<(Seq<char>, V)>, n: int)
    requires
        keys_unique(d),
        0 <= n <= d.len(),
    ensures
        insert_all(d, d.subrange(0, n)) == d,
    decreases n,
{
    if n > 0 {
        let s = d.subrange(0, n);
        assert(s.drop_last() =~= d.subrange(0, n - 1));
        lemma_insert_all_self(d, n - 1);
        lemma_key_index_at(d, d[n - 1].0, n - 1);
        assert(d.update(n - 1, (d[n - 1].0, d[n - 1].1)) =~= d);
    } else {
        assert(d.subrange(0, 0) =~= Seq::<(Seq<char>, V)>::empty());
    }
}

/// Merging a file into itself changes nothing.
pub proof fn lemma_merge_self(a: RepoFileView)
    requires
        keys_unique(a.repos),
    ensures
        spec_merge(a, a) == a,
{
    lemma_insert_all_self(a.repos, a.repos.len() as int);
    assert(a.repos.subrange(0, a.repos.len() as int) =~= a.repos);
    match a.main {
        Some(m) => {
            lemma_fill_missing_self(m.data.extras);
            lemma_fill_missing_self(m.item_comments);
            assert(merge_main_view(m.data, m.data) =~= m.data);
            assert(merge_main_block(m, m) =~= m);
        },
        None => {},
    }
    assert(spec_merge(a, a) =~= a);
}

/// Merging `[main]` sections keeps every option that is already set (a
/// list option counts as set when it is not empty) and takes the other
/// section's value for every option that is not; an unknown option that
/// is present keeps its values, and one that is absent takes the other
/// section's values.
pub proof fn lemma_merge_main_fills_gaps(d: MainConfigView, s: MainConfigView)
    ensures
        d.arch is Some ==> merge_main_view(d, s).arch == d.arch,
        d.arch is None ==> merge_main_view(d, s).arch == s.arch,
        d.basearch is Some ==> merge_main_view(d, s).basearch == d.basearch,
        d.basearch is None ==> merge_main_view(d, s).basearch == s.basearch,
        d.releasever is Some ==> merge_main_view(d, s).releasever == d.releasever,
        d.releasever is None ==> merge_main_view(d, s).releasever == s.releasever,
        d.cachedir is Some ==> merge_main_view(d, s).cachedir == d.cachedir,
        d.cachedir is None ==> merge_main_view(d, s).cachedir == s.cachedir,
        d.persistdir is Some ==> merge_main_view(d, s).persistdir == d.persistdir,
        d.persistdir is None ==> merge_main_view(d, s).persistdir == s.persistdir,
        d.logdir is Some ==> merge_main_view(d, s).logdir == d.logdir,
        d.logdir is None ==> merge_main_view(d, s).logdir == s.logdir,
        d.config_file_path is Some ==> merge_main_view(d, s).config_file_path == d.config_file_path,
        d.config_file_path is None ==> merge_main_view(d, s).config_file_path == s.config_file_path,
        d.installroot is Some ==> merge_main_view(d, s).installroot == d.installroot,
        d.installroot is None ==> merge_main_view(d, s).installroot == s.installroot,
        d.debuglevel is Some ==> merge_main_view(d, s).debuglevel == d.debuglevel,
        d.debuglevel is None ==> merge_main_view(d, s).debuglevel == s.debuglevel,
        d.logfilelevel is Some ==> merge_main_view(d, s).logfilelevel == d.logfilelevel,
        d.logfilelevel is None ==> merge_main_view(d, s).logfilelevel == s.logfilelevel,
        d.log_rotate is Some ==> merge_main_view(d, s).log_rotate == d.log_rotate,
        d.log_rotate is None ==> merge_main_view(d, s).log_rotate == s.log_rotate,
        d.log_size is Some ==> merge_main_view(d, s).log_size == d.log_size,
        d.log_size is None ==> merge_main_view(d, s).log_size == s.log_size,
        d.installonly_limit is Some ==> merge_main_view(d, s).installonly_limit == d.installonly_limit,
        d.installonly_limit is None ==> merge_main_view(d, s).installonly_limit == s.installonly_limit,
        d.errorlevel is Some ==> merge_main_view(d, s).errorlevel == d.errorlevel,
        d.errorlevel is None ==> merge_main_view(d, s).errorlevel == s.errorlevel,
        d.metadata_timer_sync is Some ==> merge_main_view(d, s).metadata_timer_sync == d.metadata_timer_sync,
        d.metadata_timer_sync is None ==> merge_main_view(d, s).metadata_timer_sync == s.metadata_timer_sync,
        d.allow_vendor_change is Some ==> merge_main_view(d, s).allow_vendor_change == d.allow_vendor_change,
        d.allow_vendor_change is None ==> merge_main_view(d, s).allow_vendor_change == s.allow_vendor_change,
        d.assumeno is Some ==> merge_main_view(d, s).assumeno == d.assumeno,
        d.assumeno is None ==> merge_main_view(d, s).assumeno == s.assumeno,
        d.assumeyes is Some ==> merge_main_view(d, s).assumeyes == d.assumeyes,
        d.assumeyes is None ==> merge_main_view(d, s).assumeyes == s.assumeyes,
        d.autocheck_running_kernel is Some ==> merge_main_view(d, s).autocheck_running_kernel == d.autocheck_running_kernel,
        d.autocheck_running_kernel is None ==> merge_main_view(d, s).autocheck_running_kernel == s.autocheck_running_kernel,
        d.best is Some ==> merge_main_view(d, s).best == d.best,
        d.best is None ==> merge_main_view(d, s).best == s.best,
        d.cacheonly is Some ==> merge_main_view(d, s).cacheonly == d.cacheonly,
        d.cacheonly is None ==> merge_main_view(d, s).cacheonly == s.cacheonly,
        d.check_config_file_age is Some ==> merge_main_view(d, s).check_config_file_age == d.check_config_file_age,
        d.check_config_file_age is None ==> merge_main_view(d, s).check_config_file_age == s.check_config_file_age,
        d.clean_requirements_on_remove is Some ==> merge_main_view(d, s).clean_requirements_on_remove == d.clean_requirements_on_remove,
        d.clean_requirements_on_remove is None ==> merge_main_view(d, s).clean_requirements_on_remove == s.clean_requirements_on_remove,
        d.debug_solver is Some ==> merge_main_view(d, s).debug_solver == d.debug_solver,
        d.debug_solver is None ==> merge_main_view(d, s).debug_solver == s.debug_solver,
        d.defaultyes is Some ==> merge_main_view(d, s).defaultyes == d.defaultyes,
        d.defaultyes is None ==> merge_main_view(d, s).defaultyes == s.defaultyes,
        d.diskspacecheck is Some ==> merge_main_view(d, s).diskspacecheck == d.diskspacecheck,
        d.diskspacecheck is None ==> merge_main_view(d, s).diskspacecheck == s.diskspacecheck,
        d.exclude_from_weak_autodetect is Some ==> merge_main_view(d, s).exclude_from_weak_autodetect == d.exclude_from_weak_autodetect,
        d.exclude_from_weak_autodetect is None ==> merge_main_view(d, s).exclude_from_weak_autodetect == s.exclude_from_weak_autodetect,
        d.exit_on_lock is Some ==> merge_main_view(d, s).exit_on_lock == d.exit_on_lock,
        d.exit_on_lock is None ==> merge_main_view(d, s).exit_on_lock == s.exit_on_lock,
        d.gpgkey_dns_verification is Some ==> merge_main_view(d, s).gpgkey_dns_verification == d.gpgkey_dns_verification,
        d.gpgkey_dns_verification is None ==> merge_main_view(d, s).gpgkey_dns_verification == s.gpgkey_dns_verification,
        d.ignorearch is Some ==> merge_main_view(d, s).ignorearch == d.ignorearch,
        d.ignorearch is None ==> merge_main_view(d, s).ignorearch == s.ignorearch,
        d.install_weak_deps is Some ==> merge_main_view(d, s).install_weak_deps == d.install_weak_deps,
        d.install_weak_deps is None ==> merge_main_view(d, s).install_weak_deps == s.install_weak_deps,
        d.keepcache is Some ==> merge_main_view(d, s).keepcache == d.keepcache,
        d.keepcache is None ==> merge_main_view(d, s).keepcache == s.keepcache,
        d.log_compress is Some ==> merge_main_view(d, s).log_compress == d.log_compress,
        d.log_compress is None ==> merge_main_view(d, s).log_compress == s.log_compress,
        d.module_obsoletes is Some ==> merge_main_view(d, s).module_obsoletes == d.module_obsoletes,
        d.module_obsoletes is None ==> merge_main_view(d, s).module_obsoletes == s.module_obsoletes,
        d.module_stream_switch is Some ==> merge_main_view(d, s).module_stream_switch == d.module_stream_switch,
        d.module_stream_switch is None ==> merge_main_view(d, s).module_stream_switch == s.module_stream_switch,
        d.obsoletes is Some ==> merge_main_view(d, s).obsoletes == d.obsoletes,
        d.obsoletes is None ==> merge_main_view(d, s).obsoletes == s.obsoletes,
        d.plugins is Some ==> merge_main_view(d, s).plugins == d.plugins,
        d.plugins is None ==> merge_main_view(d, s).plugins == s.plugins,
        d.protect_running_kernel is Some ==> merge_main_view(d, s).protect_running_kernel == d.protect_running_kernel,
        d.protect_running_kernel is None ==> merge_main_view(d, s).protect_running_kernel == s.protect_running_kernel,
        d.strict is Some ==> merge_main_view(d, s).strict == d.strict,
        d.strict is None ==> merge_main_view(d, s).strict == s.strict,
        d.upgrade_group_objects_upgrade is Some ==> merge_main_view(d, s).upgrade_group_objects_upgrade == d.upgrade_group_objects_upgrade,
        d.upgrade_group_objects_upgrade is None ==> merge_main_view(d, s).upgrade_group_objects_upgrade == s.upgrade_group_objects_upgrade,
        d.zchunk is Some ==> merge_main_view(d, s).zchunk == d.zchunk,
        d.zchunk is None ==> merge_main_view(d, s).zchunk == s.zchunk,
        d.multilib_policy is Some ==> merge_main_view(d, s).multilib_policy == d.multilib_policy,
        d.multilib_policy is None ==> merge_main_view(d, s).multilib_policy == s.multilib_policy,
        d.persistence is Some ==> merge_main_view(d, s).persistence == d.persistence,
        d.persistence is None ==> merge_main_view(d, s).persistence == s.persistence,
        d.rpmverbosity is Some ==> merge_main_view(d, s).rpmverbosity == d.rpmverbosity,
        d.rpmverbosity is None ==> merge_main_view(d, s).rpmverbosity == s.rpmverbosity,
        d.module_platform_id is Some ==> merge_main_view(d, s).module_platform_id == d.module_platform_id,
        d.module_platform_id is None ==> merge_main_view(d, s).module_platform_id == s.module_platform_id,
        d.reposdir.len() > 0 ==> merge_main_view(d, s).reposdir == d.reposdir,
        d.reposdir.len() == 0 ==> merge_main_view(d, s).reposdir == s.reposdir,
        d.varsdir.len() > 0 ==> merge_main_view(d, s).varsdir == d.varsdir,
        d.varsdir.len() == 0 ==> merge_main_view(d, s).varsdir == s.varsdir,
        d.pluginconfpath.len() > 0 ==> merge_main_view(d, s).pluginconfpath == d.pluginconfpath,
        d.pluginconfpath.len() == 0 ==> merge_main_view(d, s).pluginconfpath == s.pluginconfpath,
        d.pluginpath.len() > 0 ==> merge_main_view(d, s).pluginpath == d.pluginpath,
        d.pluginpath.len() == 0 ==> merge_main_view(d, s).pluginpath == s.pluginpath,
        d.installonlypkgs.len() > 0 ==> merge_main_view(d, s).installonlypkgs == d.installonlypkgs,
        d.installonlypkgs.len() == 0 ==> merge_main_view(d, s).installonlypkgs == s.installonlypkgs,
        d.protected_packages.len() > 0 ==> merge_main_view(d, s).protected_packages == d.protected_packages,
        d.protected_packages.len() == 0 ==> merge_main_view(d, s).protected_packages == s.protected_packages,
        d.exclude_from_weak.len() > 0 ==> merge_main_view(d, s).exclude_from_weak == d.exclude_from_weak,
        d.exclude_from_weak.len() == 0 ==> merge_main_view(d, s).exclude_from_weak == s.exclude_from_weak,
        d.group_package_types.len() > 0 ==> merge_main_view(d, s).group_package_types == d.group_package_types,
        d.group_package_types.len() == 0 ==> merge_main_view(d, s).group_package_types == s.group_package_types,
        d.optional_metadata_types.len() > 0 ==> merge_main_view(d, s).optional_metadata_types == d.optional_metadata_types,
        d.optional_metadata_types.len() == 0 ==> merge_main_view(d, s).optional_metadata_types == s.optional_metadata_types,
        d.tsflags.len() > 0 ==> merge_main_view(d, s).tsflags == d.tsflags,
        d.tsflags.len() == 0 ==> merge_main_view(d, s).tsflags == s.tsflags,
        d.usr_drift_protected_paths.len() > 0 ==> merge_main_view(d, s).usr_drift_protected_paths == d.usr_drift_protected_paths,
        d.usr_drift_protected_paths.len() == 0 ==> merge_main_view(d, s).usr_drift_protected_paths == s.usr_drift_protected_paths,
        forall|k: Seq<char>| #[trigger] map_get(d.extras, k) is Some ==> map_get(merge_main_view(d, s).extras, k) == map_get(d.extras, k),
        forall|k: Seq<char>| #[trigger] map_get(d.extras, k) is None ==> map_get(merge_main_view(d, s).extras, k) == map_get(s.extras, k),
{
    assert forall|k: Seq<char>| #[trigger] map_get(d.extras, k) is Some implies map_get(merge_main_view(d, s).extras, k) == map_get(d.extras, k) by {
        lemma_fill_missing_keeps(d.extras, s.extras, k);
    }
    assert forall|k: Seq<char>| #[trigger] map_get(d.extras, k) is None implies map_get(merge_main_view(d, s).extras, k) == map_get(s.extras, k) by {
        lemma_fill_missing_takes(d.extras, s.extras, k);
    }
}

proof fn lemma_map_get_last<V>(e: Seq<(Seq<char>, V)>, k: Seq<char>)
    requires
        e.len() > 0,
    ensures
        map_get(e.drop_last(), k) is Some ==> map_get(e, k) == map_get(e.drop_last(), k),
        map_get(e.drop_last(), k) is None && e.last().0 == k ==> map_get(e, k) == Some(e.last().1),
        map_get(e.drop_last(), k) is None && e.last().0 != k ==> map_get(e, k) is None,
{
    let p = e.drop_last();
    lemma_key_index(p, k);
    match key_index(p, k) {
        Some(i) => {
            assert(e[i] == p[i]);
            assert forall|j: int| 0 <= j < i implies e[j].0 != k by {
                assert(e[j] == p[j]);
            }
            lemma_key_index_at(e, k, i);
        },
        None => {
            if e.last().0 == k {
                assert forall|j: int| 0 <= j < e.len() - 1 implies e[j].0 != k by {
                    assert(e[j] == p[j]);
                }
                lemma_key_index_at(e, k, e.len() - 1);
            } else {
                assert forall|j: int| 0 <= j < e.len() implies e[j].0 != k by {
                    if j < e.len() - 1 {
                        assert(e[j] == p[j]);
                    }
                }
                crate::collections::lemma_key_index_none(e, k);
            }
        },
    }
}

proof fn lemma_fill_missing_takes<V>(d: Seq<(Seq<char>, V)>, s: Seq<(Seq<char>, V)>, k: Seq<char>)
    requires
        map_get(d, k) is None,
    ensures
        map_get(fill_missing(d, s), k) == map_get(s, k),
    decreases s.len(),
{
    if s.len() > 0 {
        lemma_fill_missing_takes(d, s.drop_last(), k);
        lemma_map_get_last(s, k);
        let acc = fill_missing(d, s.drop_last());
        if map_get(acc, s.last().0) is None {
            if s.last().0 == k {
                lemma_insert_unique_get(acc, k, s.last().1);
            } else {
                lemma_insert_other(acc, s.last().0, s.last().1, k);
            }
        }
    }
}

proof fn lemma_insert_unique_get<V>(e: Seq<(Seq<char>, V)>, k: Seq<char>, v: V)
    requires
        map_get(e, k) is None,
    ensures
        map_get(map_insert(e, k, v), k) == Some(v),
{
    lemma_key_index(e, k);
    let r = map_insert(e, k, v);
    assert forall|j: int| 0 <= j < e.len() implies r[j].0 != k by {
        assert(r[j] == e[j]);
    }
    lemma_key_index_at(r, k, e.len() as int);
}

proof fn lemma_fill_missing_keeps<V>(d: Seq<(Seq<char>, V)>, s: Seq<(Seq<char>, V)>, k: Seq<char>)
    requires
        map_get(d, k) is Some,
    ensures
        map_get(fill_missing(d, s), k) == map_get(d, k),
    decreases s.len(),
{
    if s.len() > 0 {
        lemma_fill_missing_keeps(d, s.drop_last(), k);
        let acc = fill_missing(d, s.drop_last());
        if map_get(acc, s.last().0) is None {
            assert(s.last().0 != k);
            lemma_insert_other(acc, s.last().0, s.last().1, k);
        }
    }
}

// ============================================================================
// Diffs
// ============================================================================

/// A repository compared with itself has no change.
pub proof fn lemma_diff_repos_self(r: RepoView)
    ensures
        spec_diff_repos(r, r).has_changes == false,
        spec_diff_repos(r, r).changed.len() == 0,
        spec_diff_repos(r, r).added.len() == 0,
        spec_diff_repos(r, r).removed.len() == 0,
{
}

/// A `[main]` section compared with itself has no change.
pub proof fn lemma_diff_main_self(m: MainConfigView)
    ensures
        spec_diff_main(m, m).has_changes == false,
{
}

proof fn lemma_classify_self(ar: Seq<(Seq<char>, SectionBlockView<RepoView>)>, n: int)
    requires
        keys_unique(ar),
        0 <= n <= ar.len(),
    ensures
        classify_repos(ar, ar.subrange(0, n)).0.len() == 0,
        classify_repos(ar, ar.subrange(0, n)).1.len() == 0,
        classify_repos(ar, ar.subrange(0, n)).2 == ar.subrange(0, n).map_values(
            |p: (Seq<char>, SectionBlockView<RepoView>)| p.0,
        ),
    decreases n,
{
    if n > 0 {
        let s = ar.subrange(0, n);
        assert(s.drop_last() =~= ar.subrange(0, n - 1));
        lemma_classify_self(ar, n - 1);
        lemma_key_index_at(ar, ar[n - 1].0, n - 1);
        lemma_diff_repos_self(ar[n - 1].1.data);
        assert(s.map_values(|p: (Seq<char>, SectionBlockView<RepoView>)| p.0) =~= ar.subrange(
            0,
            n - 1,
        ).map_values(|p: (Seq<char>, SectionBlockView<RepoView>)| p.0).push(ar[n - 1].0));
    } else {
        assert(ar.subrange(0, 0) =~= Seq::<(Seq<char>, SectionBlockView<RepoView>)>::empty());
        assert(ar.subrange(0, 0).map_values(|p: (Seq<char>, SectionBlockView<RepoView>)| p.0)
            =~= Seq::<Seq<char>>::empty());
    }
}

proof fn lemma_removed_self(ar: Seq<(Seq<char>, SectionBlockView<RepoView>)>, br: Seq<(Seq<char>, SectionBlockView<RepoView>)>)
    requires
        forall|i: int| 0 <= i < ar.len() ==> map_get(br, #[trigger] ar[i].0) is Some,
    ensures
        removed_repos(ar, br).len() == 0,
    decreases ar.len(),
{
    if ar.len() > 0 {
        assert forall|i: int| 0 <= i < ar.drop_last().len() implies map_get(br, #[trigger] ar.drop_last()[i].0) is Some by {
            assert(ar.drop_last()[i] == ar[i]);
        }
        lemma_removed_self(ar.drop_last(), br);
        assert(map_get(br, ar[ar.len() - 1].0) is Some);
    }
}

/// A file compared with itself has no change: no repository is added,
/// removed or modified, and every repository is unchanged, in order.
pub proof fn lemma_diff_files_self(f: RepoFileView)
    requires
        keys_unique(f.repos),
    ensures
        spec_diff_files(f, f).has_changes == false,
        spec_diff_files(f, f).main_changes is None,
        spec_diff_files(f, f).repos_added.len() == 0,
        spec_diff_files(f, f).repos_removed.len() == 0,
        spec_diff_files(f, f).repos_modified.len() == 0,
        spec_diff_files(f, f).repos_unchanged == f.repos.map_values(
            |p: (Seq<char>, SectionBlockView<RepoView>)| p.0,
        ),
{
    lemma_classify_self(f.repos, f.repos.len() as int);
    assert(f.repos.subrange(0, f.repos.len() as int) =~= f.repos);
    assert forall|i: int| 0 <= i < f.repos.len() implies map_get(f.repos, #[trigger] f.repos[i].0) is Some by {
        lemma_key_index(f.repos, f.repos[i].0);
    }
    lemma_removed_self(f.repos, f.repos);
    match f.main {
        Some(m) => {
            lemma_diff_main_self(m.data);
        },
        None => {},
    }
}

// ============================================================================
// Variables
// ============================================================================

proof fn lemma_expand_from_plain(vars: Map<Seq<char>, Seq<char>>, s: Seq<char>, i: int, depth: nat)
    requires
        0 <= i <= s.len(),
        depth <= 32,
        forall|k: int| 0 <= k < s.len() ==> s[k] != '$' && s[k] != '\\',
    ensures
        expand_from(vars, s, i, depth) == Ok::<Seq<char>, crate::variables::ExpandFailure>(
            s.subrange(i, s.len() as int),
        ),
    decreases s.len() - i,
{
    if i < s.len() {
        lemma_expand_from_plain(vars, s, i + 1, depth);
        assert(seq![s[i]] + s.subrange(i + 1, s.len() as int) =~= s.subrange(i, s.len() as int));
    } else {
        assert(s.subrange(i, s.len() as int) =~= Seq::<char>::empty());
    }
}

/// A text without `$` or `\` expands to itself.
pub proof fn lemma_expand_plain(vars: Map<Seq<char>, Seq<char>>, s: Seq<char>)
    requires
        forall|k: int| 0 <= k < s.len() ==> s[k] != '$' && s[k] != '\\',
    ensures
        expand(vars, s, 0) == Ok::<Seq<char>, crate::variables::ExpandFailure>(s),
{
    lemma_expand_from_plain(vars, s, 0, 0);
    assert(s.subrange(0, s.len() as int) =~= s);
}

proof fn lemma_detect_from_plain(s: Seq<char>, i: int)
    requires
        0 <= i <= s.len(),
        forall|k: int| 0 <= k < s.len() ==> s[k] != '$',
    ensures
        detect_from(s, i).len() == 0,
    decreases s.len() - i,
{
    if i < s.len() {
        if s[i] == '\\' && i + 1 < s.len() {
            lemma_detect_from_plain(s, i + 2);
        } else {
            lemma_detect_from_plain(s, i + 1);
        }
    }
}

/// A text without `$` references no variable.
pub proof fn lemma_detect_plain(s: Seq<char>)
    requires
        forall|k: int| 0 <= k < s.len() ==> s[k] != '$',
    ensures
        detect_from(s, 0).len() == 0,
{
    lemma_detect_from_plain(s, 0);
}


// ============================================================================
// Expansion failures and detection
// ============================================================================

proof fn lemma_contains_after(p: Seq<Seq<char>>, d: Seq<Seq<char>>, n: Seq<char>)
    requires
        d.contains(n),
    ensures
        (p + d).contains(n),
{
    let k = choose|k: int| 0 <= k < d.len() && d[k] == n;
    assert((p + d)[p.len() + k] == n);
}

/// A name that starts before a closing brace ends before it.
proof fn lemma_name_end_before(c: Seq<char>, j: int, k: int)
    requires
        0 <= j <= k < c.len(),
        c[k] == '}',
    ensures
        name_end(c, j) <= k,
{
    lemma_name_end(c, j);
    if name_end(c, j) > k {
        assert(is_name_char(c[k]));
    }
}

/// Scanning from any position up to just after a closing brace passes
/// through the position after it.
proof fn lemma_detect_lands(c: Seq<char>, a: int, k: int, n: Seq<char>)
    requires
        0 <= a <= k + 1,
        k < c.len(),
        c[k] == '}',
        detect_from(c, k + 1).contains(n),
    ensures
        detect_from(c, a).contains(n),
    decreases k + 1 - a,
{
    if a <= k {
        if c[a] == '\\' && a + 1 < c.len() {
            lemma_detect_lands(c, a + 2, k, n);
        } else if c[a] == '$' && a + 1 < c.len() {
            let j = if c[a + 1] == '{' {
                a + 2
            } else {
                a + 1
            };
            lemma_name_end(c, j);
            lemma_name_end_before(c, j, k);
            let e = name_end(c, j);
            lemma_detect_lands(c, e, k, n);
            if e > j {
                lemma_contains_after(seq![c.subrange(j, e)], detect_from(c, e), n);
            }
        } else {
            lemma_detect_lands(c, a + 1, k, n);
        }
    }
}

/// Names end at the same place in a part of a text that is followed by a
/// closing brace or the end.
proof fn lemma_name_end_sub(c: Seq<char>, j: int, x: int, q: int)
    requires
        0 <= j <= x <= c.len(),
        x == c.len() || c[x] == '}',
        0 <= q <= x - j,
    ensures
        name_end(c.subrange(j, x), q) + j == name_end(c, j + q),
    decreases x - j - q,
{
    let s = c.subrange(j, x);
    if q < s.len() {
        assert(s[q] == c[j + q]);
        if is_name_char(s[q]) {
            lemma_name_end_sub(c, j, x, q + 1);
        }
    } else if x < c.len() {
        assert(!is_name_char(c[x]));
    }
}

/// The names found in a part of a text followed by a closing brace or the
/// end are found in the text from the same position.
proof fn lemma_detect_sub(c: Seq<char>, j: int, x: int, p: int, n: Seq<char>)
    requires
        0 <= j <= x <= c.len(),
        x == c.len() || c[x] == '}',
        0 <= p,
        detect_from(c.subrange(j, x), p).contains(n),
    ensures
        detect_from(c, j + p).contains(n),
    decreases x - j - p,
{
    let s = c.subrange(j, x);
    if p < s.len() {
        assert(s[p] == c[j + p]);
        if s[p] == '\\' && p + 1 < s.len() {
            lemma_detect_sub(c, j, x, p + 2, n);
        } else if s[p] == '$' && p + 1 < s.len() {
            assert(s[p + 1] == c[j + p + 1]);
            let jj = if s[p + 1] == '{' {
                p + 2
            } else {
                p + 1
            };
            lemma_name_end(s, jj);
            lemma_name_end_sub(c, j, x, jj);
            let e = name_end(s, jj);
            assert(s.subrange(jj, e) =~= c.subrange(j + jj, j + e));
            if detect_from(s, e).contains(n) {
                lemma_detect_sub(c, j, x, e, n);
                if e > jj {
                    lemma_contains_after(seq![c.subrange(j + jj, j + e)], detect_from(c, j + e), n);
                }
            } else {
                assert(e > jj);
                assert(n == s.subrange(jj, e)) by {
                    let k = choose|k: int| 0 <= k < detect_from(s, p).len() && detect_from(s, p)[k] == n;
                    if k > 0 {
                        assert(detect_from(s, e)[k - 1] == n);
                    }
                }
                assert(detect_from(c, j + p)[0] == n);
            }
        } else {
            if (c[j + p] == '\\' || c[j + p] == '$') && j + p + 1 < c.len() {
                assert(p + 1 == s.len());
                assert(detect_from(s, p + 1).len() == 0);
            } else {
                lemma_detect_sub(c, j, x, p + 1, n);
            }
        }
    }
}

/// The operand of `:-` / `:+` is the text up to its closing brace, or to
/// the end.
proof fn lemma_scan_operand_text(c: Seq<char>, j: int, open: nat)
    requires
        0 <= j <= c.len(),
    ensures
        ({
            let r = scan_operand(c, j, open);
            ||| r.1 == c.len() && r.0 == c.subrange(j, c.len() as int)
            ||| j < r.1 <= c.len() && c[r.1 - 1] == '}' && r.0 == c.subrange(j, r.1 - 1)
        }),
    decreases c.len() - j,
{
    if j < c.len() {
        if c[j] == '{' {
            lemma_scan_operand_text(c, j + 1, open + 1);
            let r = scan_operand(c, j + 1, open + 1);
            assert(seq![c[j]] + c.subrange(j + 1, c.len() as int) =~= c.subrange(j, c.len() as int));
            if r.1 < c.len() || r.0 != c.subrange(j + 1, c.len() as int) {
                assert(seq![c[j]] + c.subrange(j + 1, r.1 - 1) =~= c.subrange(j, r.1 - 1));
            }
        } else if c[j] == '}' && open <= 1 {
            assert(c.subrange(j, j) =~= Seq::<char>::empty());
        } else {
            let o: nat = if c[j] == '}' {
                (open - 1) as nat
            } else {
                open
            };
            lemma_scan_operand_text(c, j + 1, o);
            let r = scan_operand(c, j + 1, o);
            assert(seq![c[j]] + c.subrange(j + 1, c.len() as int) =~= c.subrange(j, c.len() as int));
            if r.1 < c.len() || r.0 != c.subrange(j + 1, c.len() as int) {
                assert(seq![c[j]] + c.subrange(j + 1, r.1 - 1) =~= c.subrange(j, r.1 - 1));
            }
        }
    } else {
        assert(c.subrange(j, c.len() as int) =~= Seq::<char>::empty());
    }
}

/// A text without `$` looks up no variable.
proof fn lemma_plain_finds_all(vars: Map<Seq<char>, Seq<char>>, s: Seq<char>, i: int, d: nat)
    requires
        0 <= i,
        forall|k: int| 0 <= k < s.len() ==> s[k] != '$',
    ensures
        !(expand_from(vars, s, i, d) is Err && expand_from(vars, s, i, d)->Err_0 is NotFound),
    decreases s.len() - i,
{
    if i < s.len() {
        if s[i] == '\\' && i + 1 < s.len() {
            lemma_plain_finds_all(vars, s, i + 2, d);
        } else {
            lemma_plain_finds_all(vars, s, i + 1, d);
        }
    }
}

proof fn lemma_not_found_detected(
    vars: Map<Seq<char>, Seq<char>>,
    c: Seq<char>,
    i: int,
    depth: nat,
    n: Seq<char>,
)
    requires
        0 <= i,
        forall|k: Seq<char>| vars.contains_key(k) ==> !vars[k].contains('$'),
        expand_from(vars, c, i, depth) == Err::<Seq<char>, ExpandFailure>(ExpandFailure::NotFound { name: n }),
    ensures
        detect_from(c, i).contains(n),
    decreases (if depth <= 32 {
        33 - depth
    } else {
        0int
    }), c.len() - i,
{
    if i < c.len() {
        if c[i] == '\\' && i + 1 < c.len() {
            lemma_not_found_detected(vars, c, i + 2, depth, n);
        } else if c[i] == '$' {
            let braced = i + 1 < c.len() && c[i + 1] == '{';
            let j = if braced {
                i + 2
            } else {
                i + 1
            };
            lemma_name_end(c, j);
            let e = name_end(c, j);
            let name = c.subrange(j, e);
            assert(name.len() > 0);
            assert(i + 1 < c.len());
            let has_op = braced && e < c.len() && e + 1 < c.len() && c[e] == ':' && (c[e + 1] == '-' || c[e
                + 1] == '+');
            assert(detect_from(c, i) == seq![name] + detect_from(c, e));
            if has_op {
                crate::variables::lemma_scan_operand_end(c, e + 2, 1);
                lemma_scan_operand_text(c, e + 2, 1);
                let scanned = scan_operand(c, e + 2, 1);
                let after = scanned.1;
                let next = if braced && after < c.len() && c[after] == '}' {
                    after + 1
                } else {
                    after
                };
                let dv = if c[e + 1] == '-' {
                    if crate::variables::is_set(vars, name) {
                        vars[name]
                    } else {
                        scanned.0
                    }
                } else if crate::variables::is_set(vars, name) {
                    scanned.0
                } else {
                    seq![]
                };
                assert(depth <= 32);
                assert(detect_from(c, e) == detect_from(c, e + 1));
                assert(detect_from(c, e + 1) == detect_from(c, e + 2));
                match expand(vars, dv, depth + 1) {
                    Ok(x) => {
                        assert(expand_from(vars, c, next, depth) == Err::<Seq<char>, ExpandFailure>(
                            ExpandFailure::NotFound { name: n },
                        ));
                        assert(after < c.len());
                        let k = after - 1;
                        assert(c[k] == '}');
                        lemma_not_found_detected(vars, c, next, depth, n);
                        if next == after + 1 {
                            lemma_detect_lands(c, after, after, n);
                        }
                        lemma_detect_lands(c, e, k, n);
                    },
                    Err(f) => {
                        assert(f == ExpandFailure::NotFound { name: n });
                        assert(depth + 1 <= 32);
                        if c[e + 1] == '-' && crate::variables::is_set(vars, name) {
                            assert forall|q: int| 0 <= q < dv.len() implies dv[q] != '$' by {
                                if dv[q] == '$' {
                                    assert(vars[name].contains('$'));
                                }
                            }
                            lemma_plain_finds_all(vars, dv, 0, depth + 1);
                        } else if dv.len() == 0 {
                        } else {
                            assert(dv == scanned.0);
                            lemma_not_found_detected(vars, dv, 0, depth + 1, n);
                            if scanned.1 == c.len() && scanned.0 == c.subrange(e + 2, c.len() as int) {
                                lemma_detect_sub(c, e + 2, c.len() as int, 0, n);
                            } else {
                                lemma_detect_sub(c, e + 2, scanned.1 - 1, 0, n);
                            }
                        }
                    },
                }
                lemma_contains_after(seq![name], detect_from(c, e), n);
            } else if vars.contains_key(name) {
                let next = if braced && e < c.len() && c[e] == '}' {
                    e + 1
                } else {
                    e
                };
                lemma_not_found_detected(vars, c, next, depth, n);
                if next == e + 1 {
                    lemma_detect_lands(c, e, e, n);
                }
                lemma_contains_after(seq![name], detect_from(c, e), n);
            } else {
                assert(n == name);
                assert((seq![name] + detect_from(c, e))[0] == n);
            }
        } else {
            lemma_not_found_detected(vars, c, i + 1, depth, n);
        }
    }
}

/// Every variable whose lookup fails while expanding a text is among the
/// variables that detection reports for that text, provided that no value
/// of `vars` contains `$`.
pub proof fn lemma_missing_variable_is_detected(vars: Map<Seq<char>, Seq<char>>, s: Seq<char>, n: Seq<char>)
    requires
        forall|k: Seq<char>| vars.contains_key(k) ==> !vars[k].contains('$'),
        expand(vars, s, 0) == Err::<Seq<char>, ExpandFailure>(ExpandFailure::NotFound { name: n }),
    ensures
        detect_from(s, 0).contains(n),
{
    lemma_not_found_detected(vars, s, 0, 0, n);
}


// ============================================================================
// Diffing in the other direction
// ============================================================================

/// The changes with old and new values swapped.
pub open spec fn swapped_changes(c: Seq<(Seq<char>, Seq<char>, Seq<char>)>) -> Seq<(Seq<char>, Seq<char>, Seq<char>)> {
    c.map_values(|t: (Seq<char>, Seq<char>, Seq<char>)| (t.0, t.2, t.1))
}

/// One diff is the other read in the opposite direction.
pub open spec fn mirrored(d: DiffView, e: DiffView) -> bool {
    &&& e.added == d.removed
    &&& e.removed == d.added
    &&& e.changed == swapped_changes(d.changed)
}

proof fn lemma_diff_step_mirrored(d: DiffView, e: DiffView, k: Seq<char>, a: Option<Seq<char>>, b: Option<Seq<char>>)
    requires
        mirrored(d, e),
    ensures
        mirrored(diff_step(d, k, a, b), diff_step(e, k, b, a)),
{
    match (a, b) {
        (Some(ov), Some(nv)) => {
            if ov != nv {
                assert(swapped_changes(d.changed.push((k, ov, nv))) =~= swapped_changes(d.changed).push((k, nv, ov)));
            }
        },
        _ => {},
    }
}

/// Comparing two repositories the other way round swaps the added and
/// removed options and the old and new values of each changed one, and
/// finds changes exactly when the first comparison does.
pub proof fn lemma_diff_repos_swap(a: RepoView, b: RepoView)
    ensures
        mirrored(spec_diff_repos(a, b), spec_diff_repos(b, a)),
        spec_diff_repos(a, b).has_changes == spec_diff_repos(b, a).has_changes,
{
    let p0 = empty_diff();
    assert(mirrored(p0, p0)) by {
        assert(swapped_changes(p0.changed) =~= p0.changed);
    }
    let pa = |p: crate::repo::RepoView| -> Option<Seq<char>> {
        match p.priority {
            Some(x) => Some(crate::text::spec_int_text(x as int)),
            None => None,
        }
    };
    let d1 = diff_step(p0, "name"@, a.name, b.name);
    let e1 = diff_step(p0, "name"@, b.name, a.name);
    lemma_diff_step_mirrored(p0, p0, "name"@, a.name, b.name);
    let d2 = diff_step(d1, "baseurl"@, crate::diff::list_value(a.baseurl), crate::diff::list_value(b.baseurl));
    let e2 = diff_step(e1, "baseurl"@, crate::diff::list_value(b.baseurl), crate::diff::list_value(a.baseurl));
    lemma_diff_step_mirrored(d1, e1, "baseurl"@, crate::diff::list_value(a.baseurl), crate::diff::list_value(b.baseurl));
    let d3 = diff_step(d2, "enabled"@, crate::diff::bool_value(a.enabled), crate::diff::bool_value(b.enabled));
    let e3 = diff_step(e2, "enabled"@, crate::diff::bool_value(b.enabled), crate::diff::bool_value(a.enabled));
    lemma_diff_step_mirrored(d2, e2, "enabled"@, crate::diff::bool_value(a.enabled), crate::diff::bool_value(b.enabled));
    let d4 = diff_step(d3, "gpgcheck"@, crate::diff::bool_value(a.gpgcheck), crate::diff::bool_value(b.gpgcheck));
    let e4 = diff_step(e3, "gpgcheck"@, crate::diff::bool_value(b.gpgcheck), crate::diff::bool_value(a.gpgcheck));
    lemma_diff_step_mirrored(d3, e3, "gpgcheck"@, crate::diff::bool_value(a.gpgcheck), crate::diff::bool_value(b.gpgcheck));
    let d5 = diff_step(d4, "priority"@, pa(a), pa(b));
    let e5 = diff_step(e4, "priority"@, pa(b), pa(a));
    lemma_diff_step_mirrored(d4, e4, "priority"@, pa(a), pa(b));
    lemma_diff_step_mirrored(d5, e5, "gpgkey"@, crate::diff::list_value(a.gpgkey), crate::diff::list_value(b.gpgkey));
    let d6 = diff_step(d5, "gpgkey"@, crate::diff::list_value(a.gpgkey), crate::diff::list_value(b.gpgkey));
    assert(swapped_changes(d6.changed).len() == d6.changed.len());
}


// ============================================================================
// What a file diff reports
// ============================================================================

proof fn lemma_contains_push<T>(s: Seq<T>, x: T, y: T)
    requires
        s.contains(x),
    ensures
        s.push(y).contains(x),
{
    let k = choose|k: int| 0 <= k < s.len() && s[k] == x;
    assert(s.push(y)[k] == x);
}

proof fn lemma_removed_has(
    ar: Seq<(Seq<char>, crate::repofile::SectionBlockView<crate::repo::RepoView>)>,
    br: Seq<(Seq<char>, crate::repofile::SectionBlockView<crate::repo::RepoView>)>,
    i: int,
)
    requires
        0 <= i < ar.len(),
        forall|j: int| 0 <= j < br.len() ==> br[j].0 != ar[i].0,
    ensures
        removed_repos(ar, br).contains(ar[i].0),
    decreases ar.len(),
{
    crate::collections::lemma_key_index_none(br, ar[i].0);
    if i == ar.len() - 1 {
        assert(removed_repos(ar, br) == removed_repos(ar.drop_last(), br).push(ar[i].0));
        assert(removed_repos(ar, br)[removed_repos(ar.drop_last(), br).len() as int] == ar[i].0);
    } else {
        assert(ar.drop_last()[i] == ar[i]);
        lemma_removed_has(ar.drop_last(), br, i);
        if map_get(br, ar.last().0) is None {
            lemma_contains_push(removed_repos(ar.drop_last(), br), ar[i].0, ar.last().0);
        }
    }
}

proof fn lemma_removed_only(
    ar: Seq<(Seq<char>, crate::repofile::SectionBlockView<crate::repo::RepoView>)>,
    br: Seq<(Seq<char>, crate::repofile::SectionBlockView<crate::repo::RepoView>)>,
)
    ensures
        forall|k: int| 0 <= k < removed_repos(ar, br).len() ==> (exists|i: int| 0 <= i < ar.len() && ar[i].0 == #[trigger] removed_repos(ar, br)[k])
            && forall|j: int| 0 <= j < br.len() ==> br[j].0 != removed_repos(ar, br)[k],
    decreases ar.len(),
{
    if ar.len() > 0 {
        lemma_removed_only(ar.drop_last(), br);
        let acc = removed_repos(ar.drop_last(), br);
        let r = removed_repos(ar, br);
        assert forall|k: int| 0 <= k < r.len() implies (exists|i: int| 0 <= i < ar.len() && ar[i].0 == #[trigger] r[k])
            && forall|j: int| 0 <= j < br.len() ==> br[j].0 != r[k] by {
            if k < acc.len() {
                assert(r[k] == acc[k]);
                let i = choose|i: int| 0 <= i < ar.drop_last().len() && ar.drop_last()[i].0 == acc[k];
                assert(ar[i] == ar.drop_last()[i]);
            } else {
                lemma_key_index(br, ar.last().0);
                assert(r[k] == ar.last().0);
                assert(ar[ar.len() - 1].0 == r[k]);
            }
        }
    }
}

proof fn lemma_added_has(
    ar: Seq<(Seq<char>, crate::repofile::SectionBlockView<crate::repo::RepoView>)>,
    bs: Seq<(Seq<char>, crate::repofile::SectionBlockView<crate::repo::RepoView>)>,
    i: int,
)
    requires
        0 <= i < bs.len(),
        forall|j: int| 0 <= j < ar.len() ==> ar[j].0 != bs[i].0,
    ensures
        classify_repos(ar, bs).0.contains(bs[i].0),
    decreases bs.len(),
{
    crate::collections::lemma_key_index_none(ar, bs[i].0);
    let acc = classify_repos(ar, bs.drop_last());
    if i == bs.len() - 1 {
        assert(classify_repos(ar, bs).0 == acc.0.push(bs[i].0));
        assert(classify_repos(ar, bs).0[acc.0.len() as int] == bs[i].0);
    } else {
        assert(bs.drop_last()[i] == bs[i]);
        lemma_added_has(ar, bs.drop_last(), i);
        if map_get(ar, bs.last().0) is None {
            lemma_contains_push(acc.0, bs[i].0, bs.last().0);
        }
    }
}

/// A file diff has changes exactly when the `[main]` sections differ (one
/// is present and the other is not, or both are and their options differ)
/// or some repository was added, removed or modified. Every repository of
/// the first file that the second lacks is reported removed, and only those;
/// every repository of the second file that the first lacks is reported
/// added. In particular a file compared with a copy missing one of its
/// repositories has changes.
pub proof fn lemma_diff_files_reports(a: RepoFileView, b: RepoFileView)
    ensures
        spec_diff_files(a, b).has_changes <==> ((a.main is Some) != (b.main is Some)
            || spec_diff_files(a, b).main_changes is Some || spec_diff_files(a, b).repos_added.len() > 0
            || spec_diff_files(a, b).repos_removed.len() > 0 || spec_diff_files(a, b).repos_modified.len() > 0),
        forall|i: int|
            0 <= i < a.repos.len() && (forall|j: int| 0 <= j < b.repos.len() ==> b.repos[j].0 != a.repos[i].0)
                ==> #[trigger] spec_diff_files(a, b).repos_removed.contains(a.repos[i].0),
        forall|k: int|
            0 <= k < spec_diff_files(a, b).repos_removed.len() ==> forall|j: int|
                0 <= j < b.repos.len() ==> b.repos[j].0 != #[trigger] spec_diff_files(a, b).repos_removed[k],
        forall|i: int|
            0 <= i < b.repos.len() && (forall|j: int| 0 <= j < a.repos.len() ==> a.repos[j].0 != b.repos[i].0)
                ==> #[trigger] spec_diff_files(a, b).repos_added.contains(b.repos[i].0),
        (exists|i: int|
            0 <= i < a.repos.len() && forall|j: int| 0 <= j < b.repos.len() ==> #[trigger] b.repos[j].0 != (
                #[trigger] a.repos[i]).0) ==> spec_diff_files(a, b).has_changes,
{
    let d = spec_diff_files(a, b);
    assert forall|i: int|
        0 <= i < a.repos.len() && (forall|j: int| 0 <= j < b.repos.len() ==> b.repos[j].0 != a.repos[i].0)
        implies #[trigger] d.repos_removed.contains(a.repos[i].0) by {
        lemma_removed_has(a.repos, b.repos, i);
    }
    lemma_removed_only(a.repos, b.repos);
    assert forall|i: int|
        0 <= i < b.repos.len() && (forall|j: int| 0 <= j < a.repos.len() ==> a.repos[j].0 != b.repos[i].0)
        implies #[trigger] d.repos_added.contains(b.repos[i].0) by {
        lemma_added_has(a.repos, b.repos, i);
    }
    if exists|i: int|
        0 <= i < a.repos.len() && forall|j: int| 0 <= j < b.repos.len() ==> #[trigger] b.repos[j].0 != (
            #[trigger] a.repos[i]).0 {
        let i = choose|i: int|
            0 <= i < a.repos.len() && forall|j: int| 0 <= j < b.repos.len() ==> #[trigger] b.repos[j].0 != (
                #[trigger] a.repos[i]).0;
        lemma_removed_has(a.repos, b.repos, i);
    }
}


// ============================================================================
// What a repository diff reports
// ============================================================================

proof fn lemma_decimal_reads_back(n: nat)
    ensures
        crate::text::spec_decimal(n).len() > 0,
        crate::text::all_digits(crate::text::spec_decimal(n)),
        crate::text::decimal_value(crate::text::spec_decimal(n)) == n,
    decreases n,
{
    let t = crate::text::spec_decimal(n);
    assert(('0' as u32) == 48);
    if n < 10 {
        let c = crate::text::spec_digit_char(n);
        assert(t.drop_last() =~= Seq::<char>::empty());
        assert(t.last() == c);
        assert((c as u32) == n + 48);
        assert(crate::text::digit_value(c) == n);
        assert(crate::text::decimal_value(t.drop_last()) == 0);
    } else {
        lemma_decimal_reads_back(n / 10);
        let p = crate::text::spec_decimal(n / 10);
        let c = crate::text::spec_digit_char(n % 10);
        assert(t.drop_last() =~= p);
        assert(t.last() == c);
        assert((c as u32) == n % 10 + 48);
        assert(crate::text::digit_value(c) == n % 10);
        assert((n / 10) * 10 + n % 10 == n) by (nonlinear_arith);
        assert forall|i: int| 0 <= i < t.len() implies crate::text::is_digit(#[trigger] t[i]) by {
            if i < p.len() {
                assert(t[i] == p[i]);
            }
        }
    }
}

/// Different integers have different decimal texts.
proof fn lemma_int_text_injective(x: int, y: int)
    requires
        crate::text::spec_int_text(x) == crate::text::spec_int_text(y),
    ensures
        x == y,
{
    let tx = crate::text::spec_int_text(x);
    if x < 0 {
        lemma_decimal_reads_back((-x) as nat);
        if y < 0 {
            lemma_decimal_reads_back((-y) as nat);
            assert(tx.drop_first() =~= crate::text::spec_decimal((-x) as nat));
            assert(tx.drop_first() =~= crate::text::spec_decimal((-y) as nat));
        } else {
            lemma_decimal_reads_back(y as nat);
            assert(tx[0] == '-');
            assert(crate::text::is_digit(crate::text::spec_decimal(y as nat)[0]));
        }
    } else {
        lemma_decimal_reads_back(x as nat);
        if y < 0 {
            assert(crate::text::spec_int_text(y)[0] == '-');
            assert(crate::text::is_digit(crate::text::spec_decimal(x as nat)[0]));
        } else {
            lemma_decimal_reads_back(y as nat);
        }
    }
}

/// What one compared field contributes, in terms of the two values.
pub open spec fn step_reports(d: DiffView, k: Seq<char>, a: Option<Seq<char>>, b: Option<Seq<char>>) -> bool {
    match (a, b) {
        (Some(x), Some(y)) => x != y ==> d.changed.contains((k, x, y)),
        (Some(x), None) => d.removed.contains((k, x)),
        (None, Some(y)) => d.added.contains((k, y)),
        (None, None) => true,
    }
}

/// Every entry of one diff is kept in the other.
pub open spec fn diff_extends(d: DiffView, e: DiffView) -> bool {
    &&& forall|x: (Seq<char>, Seq<char>, Seq<char>)| d.changed.contains(x) ==> #[trigger] e.changed.contains(x)
    &&& forall|x: (Seq<char>, Seq<char>)| d.added.contains(x) ==> #[trigger] e.added.contains(x)
    &&& forall|x: (Seq<char>, Seq<char>)| d.removed.contains(x) ==> #[trigger] e.removed.contains(x)
}

proof fn lemma_step_extends(d: DiffView, k: Seq<char>, a: Option<Seq<char>>, b: Option<Seq<char>>)
    ensures
        diff_extends(d, diff_step(d, k, a, b)),
        step_reports(diff_step(d, k, a, b), k, a, b),
{
    let e = diff_step(d, k, a, b);
    assert forall|x: (Seq<char>, Seq<char>, Seq<char>)| d.changed.contains(x) implies #[trigger] e.changed.contains(x) by {
        let i = choose|i: int| 0 <= i < d.changed.len() && d.changed[i] == x;
        assert(e.changed[i] == x);
    }
    assert forall|x: (Seq<char>, Seq<char>)| d.added.contains(x) implies #[trigger] e.added.contains(x) by {
        let i = choose|i: int| 0 <= i < d.added.len() && d.added[i] == x;
        assert(e.added[i] == x);
    }
    assert forall|x: (Seq<char>, Seq<char>)| d.removed.contains(x) implies #[trigger] e.removed.contains(x) by {
        let i = choose|i: int| 0 <= i < d.removed.len() && d.removed[i] == x;
        assert(e.removed[i] == x);
    }
    match (a, b) {
        (Some(x), Some(y)) => {
            if x != y {
                assert(e.changed[d.changed.len() as int] == (k, x, y));
            }
        },
        (Some(x), None) => {
            assert(e.removed[d.removed.len() as int] == (k, x));
        },
        (None, Some(y)) => {
            assert(e.added[d.added.len() as int] == (k, y));
        },
        _ => {},
    }
}

proof fn lemma_extends_reports(d: DiffView, e: DiffView, k: Seq<char>, a: Option<Seq<char>>, b: Option<Seq<char>>)
    requires
        step_reports(d, k, a, b),
        diff_extends(d, e),
    ensures
        step_reports(e, k, a, b),
{
}

/// An optional integer as compared.
pub open spec fn int_value(o: Option<i32>) -> Option<Seq<char>> {
    match o {
        Some(p) => Some(crate::text::spec_int_text(p as int)),
        None => None,
    }
}

/// A repository diff records each compared option that differs: a value
/// only in the second repository as added, one only in the first as
/// removed, and two different values as changed, with the option's name
/// and its written texts (decimal for the priority, `1`/`0` for flags). It
/// has changes exactly when it records something, and when it has none the
/// two repositories agree on `name`, `enabled`, `gpgcheck` and `priority`,
/// and on whether `baseurl` and `gpgkey` are empty.
pub proof fn lemma_diff_repos_reports(a: RepoView, b: RepoView)
    ensures
        spec_diff_repos(a, b).has_changes <==> (spec_diff_repos(a, b).changed.len() > 0
            || spec_diff_repos(a, b).added.len() > 0 || spec_diff_repos(a, b).removed.len() > 0),
        step_reports(spec_diff_repos(a, b), "name"@, a.name, b.name),
        step_reports(spec_diff_repos(a, b), "enabled"@, crate::diff::bool_value(a.enabled), crate::diff::bool_value(b.enabled)),
        step_reports(spec_diff_repos(a, b), "gpgcheck"@, crate::diff::bool_value(a.gpgcheck), crate::diff::bool_value(b.gpgcheck)),
        step_reports(spec_diff_repos(a, b), "priority"@, int_value(a.priority), int_value(b.priority)),
        match (a.priority, b.priority) {
            (Some(x), Some(y)) => x != y ==> spec_diff_repos(a, b).changed.contains(
                ("priority"@, crate::text::spec_int_text(x as int), crate::text::spec_int_text(y as int)),
            ),
            _ => true,
        },
        !spec_diff_repos(a, b).has_changes ==> {
            &&& a.name == b.name
            &&& a.enabled == b.enabled
            &&& a.gpgcheck == b.gpgcheck
            &&& a.priority == b.priority
            &&& (a.baseurl.len() == 0) == (b.baseurl.len() == 0)
            &&& (a.gpgkey.len() == 0) == (b.gpgkey.len() == 0)
        },
{
    let bu = |r: crate::repo::RepoView| crate::diff::list_value(r.baseurl);
    let gk = |r: crate::repo::RepoView| crate::diff::list_value(r.gpgkey);
    let d0 = empty_diff();
    let d1 = diff_step(d0, "name"@, a.name, b.name);
    lemma_step_extends(d0, "name"@, a.name, b.name);
    let d2 = diff_step(d1, "baseurl"@, bu(a), bu(b));
    lemma_step_extends(d1, "baseurl"@, bu(a), bu(b));
    let d3 = diff_step(d2, "enabled"@, crate::diff::bool_value(a.enabled), crate::diff::bool_value(b.enabled));
    lemma_step_extends(d2, "enabled"@, crate::diff::bool_value(a.enabled), crate::diff::bool_value(b.enabled));
    let d4 = diff_step(d3, "gpgcheck"@, crate::diff::bool_value(a.gpgcheck), crate::diff::bool_value(b.gpgcheck));
    lemma_step_extends(d3, "gpgcheck"@, crate::diff::bool_value(a.gpgcheck), crate::diff::bool_value(b.gpgcheck));
    let d5 = diff_step(d4, "priority"@, int_value(a.priority), int_value(b.priority));
    lemma_step_extends(d4, "priority"@, int_value(a.priority), int_value(b.priority));
    let d6 = diff_step(d5, "gpgkey"@, gk(a), gk(b));
    lemma_step_extends(d5, "gpgkey"@, gk(a), gk(b));
    let r = spec_diff_repos(a, b);
    assert(r.changed == d6.changed && r.added == d6.added && r.removed == d6.removed);
    assert(diff_extends(d6, r));
    // chain the extensions
    assert(diff_extends(d1, r));
    assert(diff_extends(d2, r));
    assert(diff_extends(d3, r));
    assert(diff_extends(d4, r));
    assert(diff_extends(d5, r));
    lemma_extends_reports(d1, r, "name"@, a.name, b.name);
    lemma_extends_reports(d3, r, "enabled"@, crate::diff::bool_value(a.enabled), crate::diff::bool_value(b.enabled));
    lemma_extends_reports(d4, r, "gpgcheck"@, crate::diff::bool_value(a.gpgcheck), crate::diff::bool_value(b.gpgcheck));
    lemma_extends_reports(d5, r, "priority"@, int_value(a.priority), int_value(b.priority));
    lemma_extends_reports(d2, r, "baseurl"@, bu(a), bu(b));
    lemma_extends_reports(d6, r, "gpgkey"@, gk(a), gk(b));
    match (a.priority, b.priority) {
        (Some(x), Some(y)) => {
            if crate::text::spec_int_text(x as int) == crate::text::spec_int_text(y as int) {
                lemma_int_text_injective(x as int, y as int);
            }
        },
        _ => {},
    }
    reveal_strlit("1");
    reveal_strlit("0");
    assert("1"@ != "0"@) by {
        assert("1"@[0] != "0"@[0]);
    }
    if !r.has_changes {
        assert(r.changed.len() == 0 && r.added.len() == 0 && r.removed.len() == 0);
        assert forall|x: (Seq<char>, Seq<char>, Seq<char>)| !r.changed.contains(x) by {}
        assert forall|x: (Seq<char>, Seq<char>)| !r.added.contains(x) && !r.removed.contains(x) by {}
        assert(a.name == b.name);
        assert(a.priority == b.priority);
        assert(a.enabled == b.enabled) by {
            match (a.enabled, b.enabled) {
                (Some(x), Some(y)) => {
                    assert(crate::types::spec_dnf_bool_text(x) == crate::types::spec_dnf_bool_text(y));
                },
                _ => {},
            }
        }
        assert(a.gpgcheck == b.gpgcheck) by {
            match (a.gpgcheck, b.gpgcheck) {
                (Some(x), Some(y)) => {
                    assert(crate::types::spec_dnf_bool_text(x) == crate::types::spec_dnf_bool_text(y));
                },
                _ => {},
            }
        }
    }
}


// ============================================================================
// Expanding a text piece by piece
// ============================================================================

proof fn lemma_name_end_shift(p: Seq<char>, q: Seq<char>, j: int)
    requires
        0 <= j <= q.len(),
    ensures
        name_end(p + q, p.len() + j) == p.len() + name_end(q, j),
    decreases q.len() - j,
{
    if j < q.len() {
        assert((p + q)[p.len() + j] == q[j]);
        if is_name_char(q[j]) {
            lemma_name_end_shift(p, q, j + 1);
        }
    }
}

proof fn lemma_scan_shift(p: Seq<char>, q: Seq<char>, j: int, open: nat)
    requires
        0 <= j <= q.len(),
    ensures
        scan_operand(p + q, p.len() + j, open) == (scan_operand(q, j, open).0, p.len() + scan_operand(q, j, open).1),
    decreases q.len() - j,
{
    if j < q.len() {
        assert((p + q)[p.len() + j] == q[j]);
        if q[j] == '{' {
            lemma_scan_shift(p, q, j + 1, open + 1);
        } else if q[j] == '}' {
            if open > 1 {
                lemma_scan_shift(p, q, j + 1, (open - 1) as nat);
            }
        } else {
            lemma_scan_shift(p, q, j + 1, open);
        }
    }
}

/// What follows a position of a text expands as if it stood alone.
proof fn lemma_expand_shift(vars: Map<Seq<char>, Seq<char>>, p: Seq<char>, q: Seq<char>, j: int, depth: nat)
    requires
        0 <= j,
    ensures
        expand_from(vars, p + q, p.len() + j, depth) == expand_from(vars, q, j, depth),
    decreases q.len() - j,
{
    let c = p + q;
    let i = p.len() + j;
    if j < q.len() {
        assert(c[i] == q[j]);
        if j + 1 < q.len() {
            assert(c[i + 1] == q[j + 1]);
        }
        if q[j] == '\\' && j + 1 < q.len() {
            lemma_expand_shift(vars, p, q, j + 2, depth);
        } else if q[j] == '$' {
            let braced = j + 1 < q.len() && q[j + 1] == '{';
            let jj = if braced { j + 2 } else { j + 1 };
            lemma_name_end(q, jj);
            lemma_name_end_shift(p, q, jj);
            let e = name_end(q, jj);
            assert(c.subrange(p.len() + jj, p.len() + e) =~= q.subrange(jj, e));
            assert(c.subrange(i, c.len() as int) =~= q.subrange(j, q.len() as int));
            if e < q.len() {
                assert(c[p.len() + e] == q[e]);
            }
            if e + 1 < q.len() {
                assert(c[p.len() + e + 1] == q[e + 1]);
            }
            if e + 2 <= q.len() {
                lemma_scan_shift(p, q, e + 2, 1);
                crate::variables::lemma_scan_operand_end(q, e + 2, 1);
                let after = scan_operand(q, e + 2, 1).1;
                if after < q.len() {
                    assert(c[p.len() + after] == q[after]);
                }
                if after < q.len() {
                    lemma_expand_shift(vars, p, q, after + 1, depth);
                }
                lemma_expand_shift(vars, p, q, after, depth);
            } else {
                assert(c.len() <= p.len() + e + 1);
            }
            if e < q.len() {
                lemma_expand_shift(vars, p, q, e + 1, depth);
            }
            lemma_expand_shift(vars, p, q, e, depth);
        } else {
            lemma_expand_shift(vars, p, q, j + 1, depth);
        }
    }
}

/// A `${name:-text}` or `${name:+text}` expression (with `op` the `-` or
/// `+`).
pub open spec fn operator_expr(name: Seq<char>, op: char, text: Seq<char>) -> Seq<char> {
    seq!['$', '{'] + name + seq![':', op] + text + seq!['}']
}

/// The expansion of two texts written one after the other: both
/// expansions joined, or the first failure.
pub open spec fn joined(
    x: Result<Seq<char>, ExpandFailure>,
    y: Result<Seq<char>, ExpandFailure>,
) -> Result<Seq<char>, ExpandFailure> {
    match x {
        Ok(u) => match y {
            Ok(v) => Ok(u + v),
            Err(f) => Err(f),
        },
        Err(f) => Err(f),
    }
}

proof fn lemma_operator_scan(p: Seq<char>, q: Seq<char>, k: int, end: int)
    requires
        0 <= k <= end,
        end < p.len(),
        p[end] == '}',
        forall|m: int| k <= m < end ==> p[m] != '{' && p[m] != '}',
    ensures
        scan_operand(p + q, k, 1) == (p.subrange(k, end), end + 1),
    decreases end - k,
{
    assert((p + q)[k] == p[k]);
    if k < end {
        lemma_operator_scan(p, q, k + 1, end);
        assert(seq![p[k]] + p.subrange(k + 1, end) =~= p.subrange(k, end));
    } else {
        assert(p.subrange(k, end) =~= Seq::<char>::empty());
    }
}

proof fn lemma_name_run(c: Seq<char>, j: int, e: int)
    requires
        0 <= j <= e < c.len(),
        forall|m: int| j <= m < e ==> is_name_char(#[trigger] c[m]),
        !is_name_char(c[e]),
    ensures
        name_end(c, j) == e,
    decreases e - j,
{
    if j < e {
        lemma_name_run(c, j + 1, e);
    }
}

/// Expansion goes piece by piece: a complete `${name:-text}` or
/// `${name:+text}` expression (its text without braces) followed by any
/// text that does not start with `}` expands to the expansion of the
/// expression followed by the expansion of the rest; and a text without
/// `$` or `\` followed by any text expands to itself followed by the
/// expansion of the rest.
pub proof fn lemma_expand_pieces(
    vars: Map<Seq<char>, Seq<char>>,
    name: Seq<char>,
    op: char,
    text: Seq<char>,
    rest: Seq<char>,
    depth: nat,
)
    requires
        depth <= 32,
        name.len() > 0,
        forall|m: int| 0 <= m < name.len() ==> is_name_char(#[trigger] name[m]),
        op == '-' || op == '+',
        forall|m: int| 0 <= m < text.len() ==> #[trigger] text[m] != '{' && text[m] != '}',
        rest.len() == 0 || rest[0] != '}',
    ensures
        expand(vars, operator_expr(name, op, text) + rest, depth) == joined(
            expand(vars, operator_expr(name, op, text), depth),
            expand(vars, rest, depth),
        ),
{
    let p = operator_expr(name, op, text);
    let c = p + rest;
    let n: int = name.len() as int;
    let e: int = 2 + n;
    let end: int = e + 2 + text.len();
    assert(p.len() == end + 1);
    assert(p[0] == '$' && p[1] == '{' && p[e] == ':' && p[e + 1] == op && p[end] == '}');
    assert forall|m: int| 2 <= m < e implies is_name_char(#[trigger] p[m]) by {
        assert(p[m] == name[m - 2]);
    }
    assert forall|m: int| e + 2 <= m < end implies p[m] != '{' && p[m] != '}' by {
        assert(p[m] == text[m - e - 2]);
    }
    assert(p.subrange(e + 2, end) =~= text);
    assert(p.subrange(2, e) =~= name);
    assert(!is_name_char(':'));
    // the expression alone
    lemma_name_run(p, 2, e);
    lemma_operator_scan(p, Seq::<char>::empty(), e + 2, end);
    assert(p + Seq::<char>::empty() =~= p);
    // the expression followed by the rest
    assert forall|m: int| 0 <= m < p.len() implies #[trigger] c[m] == p[m] by {}
    assert forall|m: int| 2 <= m < e implies is_name_char(#[trigger] c[m]) by {
        assert(c[m] == p[m]);
    }
    lemma_name_run(c, 2, e);
    lemma_operator_scan(p, rest, e + 2, end);
    assert(c.subrange(2, e) =~= name);
    lemma_expand_shift(vars, p, rest, 0, depth);
    if rest.len() > 0 {
        assert(c[p.len() as int] == rest[0]);
    }
    assert(c.len() == p.len() + rest.len());
    assert(c[0] == '$' && c[1] == '{' && c[e] == ':' && c[e + 1] == op);
    let dv = if op == '-' {
        if crate::variables::is_set(vars, name) { vars[name] } else { text }
    } else if crate::variables::is_set(vars, name) {
        text
    } else {
        Seq::<char>::empty()
    };
    assert(scan_operand(c, e + 2, 1) == (text, p.len() as int));
    assert(scan_operand(p, e + 2, 1) == (text, p.len() as int));
    assert(expand_from(vars, c, 0, depth) == match expand(vars, dv, depth + 1) {
        Ok(x) => crate::variables::prepend(x, expand_from(vars, c, p.len() as int, depth)),
        Err(f) => Err(f),
    });
    assert(expand_from(vars, p, 0, depth) == match expand(vars, dv, depth + 1) {
        Ok(x) => crate::variables::prepend(x, expand_from(vars, p, p.len() as int, depth)),
        Err(f) => Err(f),
    });
    assert(expand_from(vars, p, p.len() as int, depth) == Ok::<Seq<char>, ExpandFailure>(Seq::<char>::empty()));
    assert(expand_from(vars, c, p.len() as int, depth) == expand(vars, rest, depth)) by {
        assert(p.len() + 0 == p.len());
    }
    match expand(vars, dv, depth + 1) {
        Ok(x) => {
            assert(x + Seq::<char>::empty() =~= x);
            match expand(vars, rest, depth) {
                Ok(y) => {},
                Err(f) => {},
            }
        },
        Err(f) => {},
    }
}

/// A text without `$` or `\` followed by any text expands to itself
/// followed by the expansion of the rest.
pub proof fn lemma_expand_plain_then_rest(vars: Map<Seq<char>, Seq<char>>, plain: Seq<char>, rest: Seq<char>, depth: nat)
    requires
        depth <= 32,
        forall|m: int| 0 <= m < plain.len() ==> #[trigger] plain[m] != '$' && plain[m] != '\\',
    ensures
        expand(vars, plain + rest, depth) == joined(Ok::<Seq<char>, ExpandFailure>(plain), expand(vars, rest, depth)),
{
    lemma_expand_plain_prefix(vars, plain, rest, 0, depth);
    lemma_expand_shift(vars, plain, rest, 0, depth);
    assert(plain.subrange(0, plain.len() as int) =~= plain);
    match expand(vars, rest, depth) {
        Ok(y) => {},
        Err(f) => {},
    }
}

proof fn lemma_expand_plain_prefix(vars: Map<Seq<char>, Seq<char>>, plain: Seq<char>, rest: Seq<char>, i: int, depth: nat)
    requires
        0 <= i <= plain.len(),
        forall|m: int| 0 <= m < plain.len() ==> #[trigger] plain[m] != '$' && plain[m] != '\\',
    ensures
        expand_from(vars, plain + rest, i, depth) == crate::variables::prepend(
            plain.subrange(i, plain.len() as int),
            expand_from(vars, plain + rest, plain.len() as int, depth),
        ),
    decreases plain.len() - i,
{
    let c = plain + rest;
    if i < plain.len() {
        assert(c[i] == plain[i]);
        lemma_expand_plain_prefix(vars, plain, rest, i + 1, depth);
        match expand_from(vars, c, plain.len() as int, depth) {
            Ok(y) => {
                assert(seq![plain[i]] + (plain.subrange(i + 1, plain.len() as int) + y) =~= plain.subrange(i, plain.len() as int) + y);
            },
            Err(f) => {},
        }
    } else {
        match expand_from(vars, c, plain.len() as int, depth) {
            Ok(y) => {
                assert(plain.subrange(i, plain.len() as int) + y =~= y);
            },
            Err(f) => {},
        }
    }
}


/// A variable reference `$name` (followed by a text that does not go on
/// with a name character) or `${name}` (followed by any text) expands to
/// the variable's value followed by the expansion of the rest, and fails
/// with the variable's name when the variable is not defined.
pub proof fn lemma_expand_variable_then_rest(
    vars: Map<Seq<char>, Seq<char>>,
    name: Seq<char>,
    braced: bool,
    rest: Seq<char>,
    depth: nat,
)
    requires
        depth <= 32,
        name.len() > 0,
        forall|m: int| 0 <= m < name.len() ==> is_name_char(#[trigger] name[m]),
        !braced ==> (rest.len() == 0 || !is_name_char(rest[0])),
    ensures
        ({
            let p = if braced { seq!['$', '{'] + name + seq!['}'] } else { seq!['$'] + name };
            expand(vars, p + rest, depth) == if vars.contains_key(name) {
                joined(Ok::<Seq<char>, ExpandFailure>(vars[name]), expand(vars, rest, depth))
            } else {
                Err::<Seq<char>, ExpandFailure>(ExpandFailure::NotFound { name: name })
            }
        }),
{
    let p = if braced { seq!['$', '{'] + name + seq!['}'] } else { seq!['$'] + name };
    let c = p + rest;
    let j: int = if braced { 2 } else { 1 };
    let e: int = j + name.len();
    assert forall|m: int| j <= m < e implies is_name_char(#[trigger] c[m]) by {
        assert(c[m] == p[m]);
        assert(p[m] == name[m - j]);
    }
    assert(c.subrange(j, e) =~= name);
    if braced {
        assert(c[e] == '}');
        assert(!is_name_char('}'));
        lemma_name_run(c, j, e);
        assert(c[1] == '{');
    } else {
        assert(c[1] == name[0]);
        assert(name[0] != '{') by {
            assert(is_name_char(name[0]));
        }
        if rest.len() > 0 {
            assert(c[e] == rest[0]);
            lemma_name_run(c, j, e);
        } else {
            lemma_name_end(c, j);
            assert(c.len() == e);
            crate::laws::lemma_name_run_to_end(c, j);
        }
    }
    assert(c[0] == '$');
    lemma_expand_shift(vars, p, rest, 0, depth);
    assert(p.len() + 0 == p.len());
    match expand(vars, rest, depth) {
        Ok(y) => {},
        Err(f) => {},
    }
}

proof fn lemma_name_run_to_end(c: Seq<char>, j: int)
    requires
        0 <= j <= c.len(),
        forall|m: int| j <= m < c.len() ==> is_name_char(#[trigger] c[m]),
    ensures
        name_end(c, j) == c.len(),
    decreases c.len() - j,
{
    if j < c.len() {
        lemma_name_run_to_end(c, j + 1);
    }
}

/// An escaped character `\x` expands to `x` followed by the expansion of
/// the rest.
pub proof fn lemma_expand_escape_then_rest(vars: Map<Seq<char>, Seq<char>>, x: char, rest: Seq<char>, depth: nat)
    requires
        depth <= 32,
    ensures
        expand(vars, seq!['\\', x] + rest, depth) == joined(Ok::<Seq<char>, ExpandFailure>(seq![x]), expand(vars, rest, depth)),
{
    let p = seq!['\\', x];
    let c = p + rest;
    assert(c[0] == '\\' && c[1] == x);
    lemma_expand_shift(vars, p, rest, 0, depth);
    assert(p.len() + 0 == 2);
    match expand(vars, rest, depth) {
        Ok(y) => {},
        Err(f) => {},
    }
}


proof fn lemma_map_insert_get<V>(e: Seq<(Seq<char>, V)>, k: Seq<char>, v: V)
    ensures
        map_get(map_insert(e, k, v), k) == Some(v),
{
    lemma_key_index(e, k);
    let r = map_insert(e, k, v);
    match key_index(e, k) {
        Some(i) => {
            assert forall|j: int| 0 <= j < i implies r[j].0 != k by {
                assert(r[j] == e[j]);
            }
            lemma_key_index_at(r, k, i);
        },
        None => {
            assert forall|j: int| 0 <= j < e.len() implies r[j].0 != k by {
                assert(r[j] == e[j]);
            }
            lemma_key_index_at(r, k, e.len() as int);
        },
    }
}

proof fn lemma_classify_common(
    ar: Seq<(Seq<char>, crate::repofile::SectionBlockView<crate::repo::RepoView>)>,
    bs: Seq<(Seq<char>, crate::repofile::SectionBlockView<crate::repo::RepoView>)>,
    i: int,
)
    requires
        keys_unique(bs),
        0 <= i < bs.len(),
        map_get(ar, bs[i].0) is Some,
    ensures
        ({
            let rd = spec_diff_repos(map_get(ar, bs[i].0)->0.data, bs[i].1.data);
            if rd.has_changes {
                map_get(classify_repos(ar, bs).1, bs[i].0) == Some(rd)
            } else {
                classify_repos(ar, bs).2.contains(bs[i].0)
            }
        }),
    decreases bs.len(),
{
    let acc = classify_repos(ar, bs.drop_last());
    let id = bs[i].0;
    if i == bs.len() - 1 {
        let rd = spec_diff_repos(map_get(ar, id)->0.data, bs[i].1.data);
        if rd.has_changes {
            lemma_map_insert_get(acc.1, id, rd);
        } else {
            assert(classify_repos(ar, bs).2[acc.2.len() as int] == id);
        }
    } else {
        let d = bs.drop_last();
        assert(d[i] == bs[i]);
        assert(keys_unique(d)) by {
            assert forall|x: int, y: int| 0 <= x < y < d.len() implies d[x].0 != d[y].0 by {
                assert(d[x] == bs[x] && d[y] == bs[y]);
            }
        }
        lemma_classify_common(ar, d, i);
        let last = bs.last();
        assert(last.0 != id) by {
            assert(bs[bs.len() - 1] == last);
        }
        match map_get(ar, last.0) {
            None => {},
            Some(ba) => {
                let rd2 = spec_diff_repos(ba.data, last.1.data);
                if rd2.has_changes {
                    lemma_insert_other(acc.1, last.0, rd2, id);
                } else {
                    let rd = spec_diff_repos(map_get(ar, id)->0.data, bs[i].1.data);
                    if !rd.has_changes {
                        lemma_contains_push(acc.2, id, last.0);
                    }
                }
            },
        }
    }
}

/// A repository that both files have (under the ID of the second file's
/// repository, which is unique there) is reported modified, with its
/// field diff, when that diff has changes, and unchanged otherwise.
pub proof fn lemma_diff_files_common(a: RepoFileView, b: RepoFileView, i: int)
    requires
        keys_unique(b.repos),
        0 <= i < b.repos.len(),
        map_get(a.repos, b.repos[i].0) is Some,
    ensures
        ({
            let rd = spec_diff_repos(map_get(a.repos, b.repos[i].0)->0.data, b.repos[i].1.data);
            if rd.has_changes {
                map_get(spec_diff_files(a, b).repos_modified, b.repos[i].0) == Some(rd)
                    && spec_diff_files(a, b).has_changes
            } else {
                spec_diff_files(a, b).repos_unchanged.contains(b.repos[i].0)
            }
        }),
{
    lemma_classify_common(a.repos, b.repos, i);
    let rd = spec_diff_repos(map_get(a.repos, b.repos[i].0)->0.data, b.repos[i].1.data);
    if rd.has_changes {
        let m = spec_diff_files(a, b).repos_modified;
        lemma_key_index(m, b.repos[i].0);
    }
}


// ============================================================================
// Reading sizes
// ============================================================================

/// A size written as a decimal number followed by a unit suffix (`k`/`K`
/// for 1024, `M` for 1024², `G` for 1024³, none for bytes) reads as the
/// number times the unit, and is refused when that does not fit in 64 bits.
pub proof fn lemma_storage_size_units(n: nat, unit: Option<char>)
    requires
        unit matches Some(u) ==> (u == 'k' || u == 'K' || u == 'M' || u == 'G'),
        n <= u64::MAX,
    ensures
        ({
            let text = match unit {
                Some(u) => crate::text::spec_decimal(n).push(u),
                None => crate::text::spec_decimal(n),
            };
            let mult: int = match unit {
                Some(u) => if u == 'k' || u == 'K' { 1024 } else if u == 'M' { 1048576 } else { 1073741824 },
                None => 1,
            };
            crate::values::spec_parse_storage_size(text) == if n * mult <= u64::MAX {
                Some(crate::types::StorageSize((n * mult) as u64))
            } else {
                None::<crate::types::StorageSize>
            }
        }),
{
    let d = crate::text::spec_decimal(n);
    lemma_decimal_reads_back(n);
    assert(!crate::text::spec_is_whitespace(d[0]));
    assert(!crate::text::spec_is_whitespace(d.last()));
    crate::text::lemma_trimmed_fixed(d);
    assert(d[0] != '+');
    assert(crate::text::unsigned_text_value(d) == Some(n));
    let text = match unit {
        Some(u) => d.push(u),
        None => d,
    };
    match unit {
        Some(u) => {
            assert(!crate::text::spec_is_whitespace(text[0]));
            assert(!crate::text::spec_is_whitespace(text.last()));
            crate::text::lemma_trimmed_fixed(text);
            assert(text.drop_last() =~= d);
        },
        None => {
            assert(d.last() != 'k' && d.last() != 'K' && d.last() != 'M' && d.last() != 'G');
        },
    }
}

/// A `[main]` diff records a differing `debuglevel` or `best` with its
/// written texts, has changes exactly when it records something, and when
/// it has none the two sections agree on both options.
pub proof fn lemma_diff_main_reports(a: MainConfigView, b: MainConfigView)
    ensures
        spec_diff_main(a, b).has_changes <==> (spec_diff_main(a, b).changed.len() > 0
            || spec_diff_main(a, b).added.len() > 0 || spec_diff_main(a, b).removed.len() > 0),
        step_reports(spec_diff_main(a, b), "best"@, crate::diff::bool_value(a.best), crate::diff::bool_value(b.best)),
        match (a.debuglevel, b.debuglevel) {
            (Some(x), Some(y)) => x != y ==> spec_diff_main(a, b).changed.contains(
                ("debuglevel"@, crate::text::spec_decimal(x as nat), crate::text::spec_decimal(y as nat)),
            ),
            (Some(x), None) => spec_diff_main(a, b).removed.contains(("debuglevel"@, crate::text::spec_decimal(x as nat))),
            (None, Some(y)) => spec_diff_main(a, b).added.contains(("debuglevel"@, crate::text::spec_decimal(y as nat))),
            (None, None) => true,
        },
        !spec_diff_main(a, b).has_changes ==> a.debuglevel == b.debuglevel && a.best == b.best,
{
    let dv = |o: Option<u8>| -> Option<Seq<char>> {
        match o {
            Some(v) => Some(crate::text::spec_decimal(v as nat)),
            None => None,
        }
    };
    let d0 = empty_diff();
    let d1 = diff_step(d0, "debuglevel"@, dv(a.debuglevel), dv(b.debuglevel));
    lemma_step_extends(d0, "debuglevel"@, dv(a.debuglevel), dv(b.debuglevel));
    let d2 = diff_step(d1, "best"@, crate::diff::bool_value(a.best), crate::diff::bool_value(b.best));
    lemma_step_extends(d1, "best"@, crate::diff::bool_value(a.best), crate::diff::bool_value(b.best));
    let r = spec_diff_main(a, b);
    assert(diff_extends(d1, r));
    lemma_extends_reports(d1, r, "debuglevel"@, dv(a.debuglevel), dv(b.debuglevel));
    match (a.debuglevel, b.debuglevel) {
        (Some(x), Some(y)) => {
            if crate::text::spec_decimal(x as nat) == crate::text::spec_decimal(y as nat) {
                lemma_decimal_reads_back(x as nat);
                lemma_decimal_reads_back(y as nat);
            }
        },
        _ => {},
    }
    reveal_strlit("1");
    reveal_strlit("0");
    assert("1"@ != "0"@) by {
        assert("1"@[0] != "0"@[0]);
    }
    if !r.has_changes {
        assert(r.changed.len() == 0 && r.added.len() == 0 && r.removed.len() == 0);
        assert forall|x: (Seq<char>, Seq<char>, Seq<char>)| !r.changed.contains(x) by {}
        assert forall|x: (Seq<char>, Seq<char>)| !r.added.contains(x) && !r.removed.contains(x) by {}
        assert(a.best == b.best) by {
            match (a.best, b.best) {
                (Some(x), Some(y)) => {
                    assert(crate::types::spec_dnf_bool_text(x) == crate::types::spec_dnf_bool_text(y));
                },
                _ => {},
            }
        }
    }
}


/// A `metadata_expire` value written as a decimal number of seconds reads
/// as that duration; `never` (in any ASCII case) and `-1` read as never
/// expiring.
pub proof fn lemma_metadata_expire_reads(n: nat, never: Seq<char>)
    requires
        n <= u64::MAX,
        crate::text::spec_ascii_lowercase(never) == "never"@,
    ensures
        crate::values::spec_parse_metadata_expire(crate::text::spec_decimal(n)) == Some(
            crate::types::MetadataExpire::Duration(n as u64),
        ),
        crate::values::spec_parse_metadata_expire(never) == Some(crate::types::MetadataExpire::Never),
        crate::values::spec_parse_metadata_expire("-1"@) == Some(crate::types::MetadataExpire::Never),
{
    let d = crate::text::spec_decimal(n);
    lemma_decimal_reads_back(n);
    crate::text::lemma_trimmed_fixed(d);
    assert(d[0] != '+');
    assert(crate::text::unsigned_text_value(d) == Some(n));
    reveal_strlit("never");
    reveal_strlit("-1");
    assert(crate::text::spec_ascii_lowercase(d)[0] == crate::text::spec_ascii_lower(d[0]));
    assert(crate::text::spec_ascii_lowercase(d) != "never"@) by {
        assert("never"@[0] == 'n');
    }
    assert(d != "-1"@) by {
        assert("-1"@[0] == '-');
    }
    // `never` has no surrounding whitespace
    assert(crate::text::spec_ascii_lowercase(never).len() == never.len());
    assert("never"@.len() == 5);
    assert(never.len() == 5);
    assert forall|k: int| 0 <= k < never.len() implies !crate::text::spec_is_whitespace(#[trigger] never[k]) by {
        assert(crate::text::spec_ascii_lowercase(never)[k] == crate::text::spec_ascii_lower(never[k]));
    }
    crate::text::lemma_trimmed_fixed(never);
    let m = "-1"@;
    assert(m[0] == '-' && m[1] == '1' && m.len() == 2);
    crate::text::lemma_trimmed_fixed(m);
}

} // verus!
