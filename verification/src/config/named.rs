//! The files and folders that a configuration file names.
use vstd::prelude::*;

use super::environment::EnvironmentModel;
use super::error::ErrorCauseModel;
use super::paths::ResolvedFolder;
use super::types::{
    ConfigModel, FileClusterConfigModel, FileClusterFrontendConfigModel, FileConfigModel,
    ListenerModel,
};

verus! {

/// The listener names the file.
pub open spec fn listener_names(listener: ListenerModel, path: Seq<char>) -> bool {
    ||| listener.answer_404 == Some(path)
    ||| listener.answer_503 == Some(path)
    ||| listener.certificate == Some(path)
    ||| listener.certificate_chain == Some(path)
    ||| listener.key == Some(path)
}

/// The frontend names the file.
pub open spec fn frontend_names(frontend: FileClusterFrontendConfigModel, path: Seq<char>) -> bool {
    ||| frontend.key == Some(path)
    ||| frontend.certificate == Some(path)
    ||| frontend.certificate_chain == Some(path)
}

/// The cluster or one of its frontends names the file.
pub open spec fn cluster_names(cluster: FileClusterConfigModel, path: Seq<char>) -> bool {
    ||| cluster.answer_503 == Some(path)
    ||| exists|k: int|
        0 <= k < cluster.frontends.len() && frontend_names(#[trigger] cluster.frontends[k], path)
}

/// Adding to a list keeps what is in it.
proof fn lemma_in_both(a: Seq<Seq<char>>, b: Seq<Seq<char>>, path: Seq<char>)
    ensures
        (a + b).contains(path) <==> a.contains(path) || b.contains(path),
{
    let all = a + b;
    if a.contains(path) {
        let i = a.index_of(path);
        assert(all[i] == path);
    }
    if b.contains(path) {
        let i = b.index_of(path);
        assert(all[a.len() + i] == path);
    }
    if all.contains(path) {
        let i = all.index_of(path);
        if i < a.len() {
            assert(a[i] == path);
        } else {
            assert(b[i - a.len()] == path);
        }
    }
}

proof fn lemma_given(paths: Seq<Option<Seq<char>>>, path: Seq<char>)
    ensures
        super::check::given(paths).contains(path) <==> exists|i: int|
            0 <= i < paths.len() && #[trigger] paths[i] == Some(path),
    decreases paths.len(),
{
    if paths.len() > 0 {
        let first = paths.drop_last();
        lemma_given(first, path);
        let before = super::check::given(first);
        let n = paths.len() - 1;
        assert(paths[n] == paths.last());
        if let Some(last) = paths.last() {
            lemma_in_both(before, seq![last], path);
            assert(before + seq![last] =~= before.push(last));
            assert(seq![last][0] == last);
        }
        if exists|i: int| 0 <= i < paths.len() && #[trigger] paths[i] == Some(path) {
            let i = choose|i: int| 0 <= i < paths.len() && #[trigger] paths[i] == Some(path);
            if i < n {
                assert(first[i] == Some(path));
            }
        }
        if exists|i: int| 0 <= i < first.len() && #[trigger] first[i] == Some(path) {
            let i = choose|i: int| 0 <= i < first.len() && #[trigger] first[i] == Some(path);
            assert(paths[i] == Some(path));
        }
    }
}

proof fn lemma_listener_files(listeners: Seq<ListenerModel>, path: Seq<char>)
    ensures
        super::check::listener_files(listeners).contains(path) <==> exists|l: int|
            0 <= l < listeners.len() && listener_names(#[trigger] listeners[l], path),
    decreases listeners.len(),
{
    if listeners.len() > 0 {
        let first = listeners.drop_last();
        let last = listeners.last();
        lemma_listener_files(first, path);
        lemma_given(last.paths(), path);
        lemma_in_both(
            super::check::listener_files(first),
            super::check::given(last.paths()),
            path,
        );
        let p = last.paths();
        assert(p[0] == last.answer_404 && p[1] == last.answer_503 && p[2] == last.certificate
            && p[3] == last.certificate_chain && p[4] == last.key);
        assert(listeners[listeners.len() - 1] == last);
        if exists|l: int| 0 <= l < listeners.len() && listener_names(#[trigger] listeners[l], path) {
            let l = choose|l: int|
                0 <= l < listeners.len() && listener_names(#[trigger] listeners[l], path);
            if l < first.len() {
                assert(first[l] == listeners[l]);
            }
        }
        if exists|l: int| 0 <= l < first.len() && listener_names(#[trigger] first[l], path) {
            let l = choose|l: int| 0 <= l < first.len() && listener_names(#[trigger] first[l], path);
            assert(listeners[l] == first[l]);
        }
    }
}

proof fn lemma_frontend_files(frontends: Seq<FileClusterFrontendConfigModel>, path: Seq<char>)
    ensures
        super::check::frontend_files(frontends).contains(path) <==> exists|k: int|
            0 <= k < frontends.len() && frontend_names(#[trigger] frontends[k], path),
    decreases frontends.len(),
{
    if frontends.len() > 0 {
        let first = frontends.drop_last();
        let last = frontends.last();
        lemma_frontend_files(first, path);
        lemma_given(last.paths(), path);
        lemma_in_both(
            super::check::frontend_files(first),
            super::check::given(last.paths()),
            path,
        );
        let p = last.paths();
        assert(p[0] == last.key && p[1] == last.certificate && p[2] == last.certificate_chain);
        assert(frontends[frontends.len() - 1] == last);
        if exists|k: int| 0 <= k < frontends.len() && frontend_names(#[trigger] frontends[k], path) {
            let k = choose|k: int|
                0 <= k < frontends.len() && frontend_names(#[trigger] frontends[k], path);
            if k < first.len() {
                assert(first[k] == frontends[k]);
            }
        }
        if exists|k: int| 0 <= k < first.len() && frontend_names(#[trigger] first[k], path) {
            let k = choose|k: int| 0 <= k < first.len() && frontend_names(#[trigger] first[k], path);
            assert(frontends[k] == first[k]);
        }
    }
}

proof fn lemma_cluster_files(clusters: Seq<(Seq<char>, FileClusterConfigModel)>, path: Seq<char>)
    ensures
        super::check::cluster_files(clusters).contains(path) <==> exists|c: int|
            0 <= c < clusters.len() && cluster_names((#[trigger] clusters[c]).1, path),
    decreases clusters.len(),
{
    if clusters.len() > 0 {
        let first = clusters.drop_last();
        let last = clusters.last().1;
        lemma_cluster_files(first, path);
        let answer = seq![last.answer_503];
        lemma_given(answer, path);
        assert(answer[0] == last.answer_503);
        lemma_frontend_files(last.frontends, path);
        let before = super::check::cluster_files(first);
        lemma_in_both(before, super::check::given(answer), path);
        lemma_in_both(
            before + super::check::given(answer),
            super::check::frontend_files(last.frontends),
            path,
        );
        assert(clusters[clusters.len() - 1] == clusters.last());
        if exists|c: int| 0 <= c < clusters.len() && cluster_names((#[trigger] clusters[c]).1, path) {
            let c = choose|c: int|
                0 <= c < clusters.len() && cluster_names((#[trigger] clusters[c]).1, path);
            if c < first.len() {
                assert(first[c] == clusters[c]);
            }
        }
        if exists|c: int| 0 <= c < first.len() && cluster_names((#[trigger] first[c]).1, path) {
            let c = choose|c: int|
                0 <= c < first.len() && cluster_names((#[trigger] first[c]).1, path);
            assert(clusters[c] == first[c]);
        }
    }
}

/// The files that have to be read before a configuration can be had are exactly those that a listener,
/// a cluster or a frontend names.
pub proof fn law_named_files_are_read(file: FileConfigModel, path: Seq<char>)
    ensures
        file.files().contains(path) <==> {
            let listeners = super::described::listeners_of(file);
            let clusters = super::described::clusters_of(file);
            ||| exists|l: int|
                0 <= l < listeners.len() && listener_names(#[trigger] listeners[l], path)
            ||| exists|c: int|
                0 <= c < clusters.len() && cluster_names((#[trigger] clusters[c]).1, path)
        },
{
    let listeners = super::described::listeners_of(file);
    let clusters = super::described::clusters_of(file);
    lemma_listener_files(listeners, path);
    lemma_cluster_files(clusters, path);
    lemma_in_both(
        super::check::listener_files(listeners),
        super::check::cluster_files(clusters),
        path,
    );
}

/// A file that was read is taken as it is, unless two of its listeners are at one address, which is
/// named.
pub proof fn law_shared_addresses_are_found(file: FileConfigModel)
    ensures
        ({
            let listeners = super::described::listeners_of(file);
            &&& file.checked() is Ok <==> forall|i: int, j: int|
                0 <= i < j < listeners.len() ==> (#[trigger] listeners[i]).address != (
                #[trigger] listeners[j]).address
            &&& file.checked() matches Ok(checked) ==> checked == file
            &&& file.checked() matches Err(e) ==> exists|i: int, j: int|
                0 <= i < j < listeners.len() && e.cause == ErrorCauseModel::AddressAlreadyUsed(
                    (#[trigger] listeners[i]).address,
                ) && listeners[i].address == (#[trigger] listeners[j]).address
        }),
{
    lemma_reused(super::described::listeners_of(file));
}

proof fn lemma_reused(listeners: Seq<ListenerModel>)
    ensures
        super::check::reused_address(listeners) is None <==> forall|i: int, j: int|
            0 <= i < j < listeners.len() ==> (#[trigger] listeners[i]).address != (
            #[trigger] listeners[j]).address,
        super::check::reused_address(listeners) matches Some(address) ==> exists|i: int, j: int|
            0 <= i < j < listeners.len() && address == (#[trigger] listeners[i]).address
                && listeners[i].address == (#[trigger] listeners[j]).address,
    decreases listeners.len(),
{
    if listeners.len() > 0 {
        let first = listeners.drop_last();
        let n = first.len() as int;
        lemma_reused(first);
        let before = super::check::addresses(first);
        assert(listeners[n] == listeners.last());
        match super::check::reused_address(first) {
            Some(address) => {
                let (i, j) = choose|i: int, j: int|
                    0 <= i < j < first.len() && address == (#[trigger] first[i]).address
                        && first[i].address == (#[trigger] first[j]).address;
                assert(listeners[i] == first[i] && listeners[j] == first[j]);
            },
            None => {
                if before.contains(listeners.last().address) {
                    let i = before.index_of(listeners.last().address);
                    assert(first[i].address == before[i]);
                    assert(listeners[i] == first[i]);
                    assert(listeners[i].address == listeners[n].address);
                } else {
                    assert forall|i: int, j: int| 0 <= i < j < listeners.len() implies (
                    #[trigger] listeners[i]).address != (#[trigger] listeners[j]).address by {
                        assert(listeners[i] == first[i]);
                        if j < n {
                            assert(listeners[j] == first[j]);
                        } else {
                            assert(before[i] == first[i].address);
                        }
                    }
                }
            },
        }
    }
}

/// The command socket keeps its name. It is in the folder that its own folder resolves to, or, where
/// its path names none, in that of the configuration file; its own folder is looked for from there.
pub proof fn law_socket_keeps_its_name(config: ConfigModel, resolved: ResolvedFolder)
    ensures
        ({
            let home = crate::path::parent_of(config.config_path);
            let folder = crate::path::parent_of(config.command_socket);
            let name = crate::path::file_name_of(config.command_socket);
            let path = config.command_socket_path(resolved);
            &&& home is None ==> path is Err && config.socket_folder() is Err
            &&& home is Some && folder is None ==> {
                &&& config.socket_folder() matches Ok(none) && none is None
                &&& path is Ok <==> name is Some
                &&& path matches Ok(path) ==> path == crate::path::inside(home->0, name->0)
            }
            &&& home is Some && folder is Some ==> {
                &&& config.socket_folder() matches Ok(Some(looked_for)) && looked_for
                    == crate::path::inside(home->0, folder->0)
                &&& path is Ok <==> name is Some && resolved is Known
                &&& path matches Ok(path) ==> (resolved matches ResolvedFolder::Known(known)
                    && path == crate::path::inside(known@, name->0))
            }
        }),
{
}

/// A configuration can be had of a file that was read, exactly where the file is accepted and the state
/// that it names was found beside it. Nothing but the place of the state changes.
pub proof fn law_state_has_to_be_found(
    file: FileConfigModel,
    path: Seq<char>,
    env: EnvironmentModel,
    state_failure: Option<Seq<char>>,
)
    ensures
        ({
            let accepted = file.as_config(path, env);
            let loaded = super::load::config_of(Ok(file), path, env, state_failure);
            &&& loaded is Ok <==> accepted is Ok && (file.saved_state is None || (
            crate::path::parent_of(path) is Some && state_failure is None))
            &&& loaded matches Ok(config) ==> {
                &&& config.saved_state == (match file.saved_state {
                    Some(name) => Some(
                        crate::path::inside(crate::path::parent_of(path)->0, name),
                    ),
                    None => None,
                })
                &&& config == (ConfigModel { saved_state: config.saved_state, ..accepted->Ok_0 })
            }
        }),
{
}

/// A path in a folder is the folder, a separator and the path; an absolute path is found from
/// everywhere.
pub proof fn law_paths_are_found_in_folders(folder: Seq<char>, path: Seq<char>)
    ensures
        path.len() > 0 && path[0] == '/' ==> crate::path::inside(folder, path) == path,
        !(path.len() > 0 && path[0] == '/') ==> {
            let found = crate::path::inside(folder, path);
            &&& folder.is_prefix_of(found)
            &&& path == found.skip(found.len() - path.len())
            &&& folder.len() > 0 && folder.last() != '/' ==> found.len() == folder.len() + 1
                + path.len() && found[folder.len() as int] == '/'
            &&& folder.len() == 0 || folder.last() == '/' ==> found.len() == folder.len()
                + path.len()
        },
{
    reveal_strlit("/");
    let found = crate::path::inside(folder, path);
    if !(path.len() > 0 && path[0] == '/') {
        assert(path =~= found.skip(found.len() - path.len()));
        assert(folder =~= found.subrange(0, folder.len() as int));
    }
}

} // verus!
