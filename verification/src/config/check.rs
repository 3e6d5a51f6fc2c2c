//! What can be said of a configuration file before its parts are put together.
use vstd::prelude::*;
use vstd::string::*;

use crate::address::SocketAddress;

use super::cluster::has_address;
use super::error::{ConfigError, ConfigErrorModel, ErrorCause, ErrorCauseModel};
use super::types::{
    FileClusterConfig, FileClusterConfigModel, FileClusterFrontendConfig,
    FileClusterFrontendConfigModel, FileConfig, FileConfigModel, Listener, ListenerModel,
};

verus! {

/// The addresses of the listeners.
pub open spec fn addresses(listeners: Seq<ListenerModel>) -> Seq<SocketAddress> {
    Seq::new(listeners.len(), |i: int| listeners[i].address)
}

/// The address of the first listener whose address is that of a listener before it.
pub open spec fn reused_address(listeners: Seq<ListenerModel>) -> Option<SocketAddress>
    decreases listeners.len(),
{
    if listeners.len() == 0 {
        None
    } else {
        match reused_address(listeners.drop_last()) {
            Some(address) => Some(address),
            None => if addresses(listeners.drop_last()).contains(listeners.last().address) {
                Some(listeners.last().address)
            } else {
                None
            },
        }
    }
}

/// A reused address among the first `n` listeners is the one among all of them.
proof fn lemma_reuse_stays(listeners: Seq<ListenerModel>, n: int)
    requires
        0 <= n <= listeners.len(),
        reused_address(listeners.take(n)) is Some,
    ensures
        reused_address(listeners) == reused_address(listeners.take(n)),
    decreases listeners.len(),
{
    if n == listeners.len() {
        assert(listeners.take(n) =~= listeners);
    } else {
        assert(listeners.drop_last().take(n) =~= listeners.take(n));
        lemma_reuse_stays(listeners.drop_last(), n);
    }
}

/// No address is reused exactly where the addresses of the listeners are all different.
pub proof fn law_no_reuse_is_distinct(listeners: Seq<ListenerModel>)
    ensures
        reused_address(listeners) is None <==> addresses(listeners).no_duplicates(),
    decreases listeners.len(),
{
    if listeners.len() > 0 {
        let first = listeners.drop_last();
        law_no_reuse_is_distinct(first);
        let all = addresses(listeners);
        let before = addresses(first);
        assert(all.drop_last() =~= before);
        if all.no_duplicates() {
            assert forall|i: int, j: int|
                0 <= i < before.len() && 0 <= j < before.len() && i != j implies before[i]
                != before[j] by {
                assert(all[i] == before[i] && all[j] == before[j]);
            }
            if before.contains(listeners.last().address) {
                let k = choose|k: int|
                    0 <= k < before.len() && before[k] == listeners.last().address;
                assert(all[k] == all[all.len() - 1]);
            }
        }
        if reused_address(listeners) is None {
            assert forall|i: int, j: int|
                0 <= i < all.len() && 0 <= j < all.len() && i != j implies all[i] != all[j] by {
                if i < before.len() && j < before.len() {
                    assert(before[i] != before[j]);
                } else if i < before.len() {
                    assert(before[i] == all[i]);
                    assert(before.contains(all[i]));
                } else {
                    assert(before[j] == all[j]);
                    assert(before.contains(all[j]));
                }
            }
        }
    }
}

impl FileConfigModel {
    /// The file itself, unless it describes two listeners on one address.
    pub open spec fn checked(self) -> Result<FileConfigModel, ConfigErrorModel> {
        match self.listeners {
            None => Ok(self),
            Some(listeners) => match reused_address(listeners) {
                None => Ok(self),
                Some(address) => Err(
                    ConfigErrorModel::bare(ErrorCauseModel::AddressAlreadyUsed(address)),
                ),
            },
        }
    }
}

impl FileConfig {
    /// Refuses a file that describes two listeners on one address.
    pub fn checked(self) -> (r: Result<FileConfig, ConfigError>)
        ensures
            crate::config::listener::outcome(r) == self.deep_view().checked(),
    {
        match &self.listeners {
            None => {},
            Some(listeners) => {
                let ghost all = listeners.deep_view();
                let mut reserved: Vec<SocketAddress> = Vec::new();
                let mut i: usize = 0;
                proof {
                    assert(all.take(0) =~= Seq::empty());
                    assert(reserved@ =~= addresses(all.take(0)));
                }
                while i < listeners.len()
                    invariant
                        i <= listeners.len(),
                        all == listeners.deep_view(),
                        self.deep_view().listeners == Some(all),
                        reserved@ == addresses(all.take(i as int)),
                        reused_address(all.take(i as int)) is None,
                    decreases listeners.len() - i,
                {
                    let address = listeners[i].address;
                    proof {
                        assert(all.take(i + 1).drop_last() =~= all.take(i as int));
                        assert(all.take(i + 1).last() == listeners@[i as int].deep_view());
                    }
                    if has_address(&reserved, address) {
                        proof {
                            lemma_reuse_stays(all, i + 1);
                        }
                        return Err(ConfigError::new(ErrorCause::AddressAlreadyUsed(address)));
                    }
                    reserved.push(address);
                    proof {
                        assert(reserved@ =~= addresses(all.take(i + 1)));
                    }
                    i = i + 1;
                }
                proof {
                    assert(all.take(all.len() as int) =~= all);
                }
            },
        }
        Ok(self)
    }
}

/// The paths among the given ones, in order.
pub open spec fn given(paths: Seq<Option<Seq<char>>>) -> Seq<Seq<char>>
    decreases paths.len(),
{
    if paths.len() == 0 {
        Seq::empty()
    } else {
        match paths.last() {
            None => given(paths.drop_last()),
            Some(path) => given(paths.drop_last()).push(path),
        }
    }
}

impl ListenerModel {
    /// The files that a listener may name.
    pub open spec fn paths(self) -> Seq<Option<Seq<char>>> {
        seq![self.answer_404, self.answer_503, self.certificate, self.certificate_chain, self.key]
    }
}

impl FileClusterFrontendConfigModel {
    /// The files that a frontend may name.
    pub open spec fn paths(self) -> Seq<Option<Seq<char>>> {
        seq![self.key, self.certificate, self.certificate_chain]
    }
}

/// The files that the frontends name.
pub open spec fn frontend_files(frontends: Seq<FileClusterFrontendConfigModel>) -> Seq<Seq<char>>
    decreases frontends.len(),
{
    if frontends.len() == 0 {
        Seq::empty()
    } else {
        frontend_files(frontends.drop_last()) + given(frontends.last().paths())
    }
}

/// The files that the listeners name.
pub open spec fn listener_files(listeners: Seq<ListenerModel>) -> Seq<Seq<char>>
    decreases listeners.len(),
{
    if listeners.len() == 0 {
        Seq::empty()
    } else {
        listener_files(listeners.drop_last()) + given(listeners.last().paths())
    }
}

/// The files that the clusters name.
pub open spec fn cluster_files(clusters: Seq<(Seq<char>, FileClusterConfigModel)>) -> Seq<Seq<char>>
    decreases clusters.len(),
{
    if clusters.len() == 0 {
        Seq::empty()
    } else {
        cluster_files(clusters.drop_last()) + given(seq![clusters.last().1.answer_503])
            + frontend_files(clusters.last().1.frontends)
    }
}

impl FileConfigModel {
    /// All files that the configuration file names for the proxy to read.
    pub open spec fn files(self) -> Seq<Seq<char>> {
        listener_files(crate::config::assembly::or_default(self.listeners, Seq::empty()))
            + cluster_files(crate::config::assembly::or_default(self.clusters, Seq::empty()))
    }
}

/// Adds a path that is given.
fn push_path(paths: &mut Vec<String>, path: &Option<String>)
    ensures
        final(paths).deep_view() == old(paths).deep_view() + given(seq![path.deep_view()]),
{
    let ghost before = paths.deep_view();
    proof {
        reveal_with_fuel(given, 2);
        assert(seq![path.deep_view()].drop_last() =~= Seq::empty());
    }
    match path {
        None => {
            proof {
                assert(before + given(seq![path.deep_view()]) =~= before);
            }
        },
        Some(path) => {
            paths.push(path.clone());
            proof {
                assert(paths.deep_view() =~= before + given(seq![Some(path@)]));
            }
        },
    }
}

proof fn lemma_given_splits(a: Seq<Option<Seq<char>>>, b: Option<Seq<char>>)
    ensures
        given(a.push(b)) == given(a) + given(seq![b]),
{
    reveal_with_fuel(given, 2);
    assert(a.push(b).drop_last() =~= a);
    assert(seq![b].drop_last() =~= Seq::empty());
    assert(given(a.push(b)) =~= given(a) + given(seq![b]));
}

impl FileClusterFrontendConfig {
    /// Adds the files that the frontend names.
    fn push_files(&self, paths: &mut Vec<String>)
        ensures
            final(paths).deep_view() == old(paths).deep_view() + given(self.deep_view().paths()),
    {
        let ghost model = self.deep_view();
        let ghost before = paths.deep_view();
        push_path(paths, &self.key);
        push_path(paths, &self.certificate);
        push_path(paths, &self.certificate_chain);
        proof {
            lemma_given_splits(seq![model.key], model.certificate);
            lemma_given_splits(seq![model.key, model.certificate], model.certificate_chain);
            assert(seq![model.key].push(model.certificate) =~= seq![model.key, model.certificate]);
            assert(seq![model.key, model.certificate].push(model.certificate_chain)
                =~= model.paths());
            assert(paths.deep_view() =~= before + given(model.paths()));
        }
    }
}

impl Listener {
    /// Adds the files that the listener names.
    fn push_files(&self, paths: &mut Vec<String>)
        ensures
            final(paths).deep_view() == old(paths).deep_view() + given(self.deep_view().paths()),
    {
        let ghost m = self.deep_view();
        let ghost before = paths.deep_view();
        push_path(paths, &self.answer_404);
        push_path(paths, &self.answer_503);
        push_path(paths, &self.certificate);
        push_path(paths, &self.certificate_chain);
        push_path(paths, &self.key);
        proof {
            let one = seq![m.answer_404];
            let two = one.push(m.answer_503);
            let three = two.push(m.certificate);
            let four = three.push(m.certificate_chain);
            lemma_given_splits(one, m.answer_503);
            lemma_given_splits(two, m.certificate);
            lemma_given_splits(three, m.certificate_chain);
            lemma_given_splits(four, m.key);
            assert(four.push(m.key) =~= m.paths());
            assert(paths.deep_view() =~= before + given(m.paths()));
        }
    }
}

impl FileClusterConfig {
    /// Adds the files that the cluster names.
    fn push_files(&self, paths: &mut Vec<String>)
        ensures
            final(paths).deep_view() == old(paths).deep_view() + given(
                seq![self.deep_view().answer_503],
            ) + frontend_files(self.deep_view().frontends),
    {
        push_path(paths, &self.answer_503);
        let ghost before = paths.deep_view();
        let ghost all = self.frontends.deep_view();
        let mut i: usize = 0;
        proof {
            assert(all.take(0) =~= Seq::empty());
            assert(before + frontend_files(all.take(0)) =~= before);
        }
        while i < self.frontends.len()
            invariant
                i <= self.frontends.len(),
                all == self.frontends.deep_view(),
                paths.deep_view() == before + frontend_files(all.take(i as int)),
            decreases self.frontends.len() - i,
        {
            self.frontends[i].push_files(paths);
            proof {
                assert(all.take(i + 1).drop_last() =~= all.take(i as int));
                assert(all.take(i + 1).last() == self.frontends@[i as int].deep_view());
                assert(paths.deep_view() =~= before + frontend_files(all.take(i + 1)));
            }
            i = i + 1;
        }
        proof {
            assert(all.take(all.len() as int) =~= all);
        }
    }
}

impl FileConfig {
    /// All files that the configuration file names for the proxy to read.
    pub fn files(&self) -> (r: Vec<String>)
        ensures
            r.deep_view() == self.deep_view().files(),
    {
        let mut paths: Vec<String> = Vec::new();
        proof {
            assert(paths.deep_view() =~= Seq::empty());
        }
        match &self.listeners {
            None => {},
            Some(listeners) => {
                let ghost all = listeners.deep_view();
                let mut i: usize = 0;
                proof {
                    assert(all.take(0) =~= Seq::empty());
                }
                while i < listeners.len()
                    invariant
                        i <= listeners.len(),
                        all == listeners.deep_view(),
                        paths.deep_view() == listener_files(all.take(i as int)),
                    decreases listeners.len() - i,
                {
                    listeners[i].push_files(&mut paths);
                    proof {
                        assert(all.take(i + 1).drop_last() =~= all.take(i as int));
                        assert(all.take(i + 1).last() == listeners@[i as int].deep_view());
                    }
                    i = i + 1;
                }
                proof {
                    assert(all.take(all.len() as int) =~= all);
                }
            },
        }
        let ghost before = paths.deep_view();
        proof {
            assert(before =~= listener_files(
                crate::config::assembly::or_default(self.deep_view().listeners, Seq::empty()),
            ));
            assert(before + cluster_files(Seq::empty()) =~= before);
        }
        match &self.clusters {
            None => {},
            Some(clusters) => {
                let ghost all = clusters.deep_view();
                let mut i: usize = 0;
                proof {
                    assert(all.take(0) =~= Seq::empty());
                }
                while i < clusters.len()
                    invariant
                        i <= clusters.len(),
                        all == clusters.deep_view(),
                        paths.deep_view() == before + cluster_files(all.take(i as int)),
                    decreases clusters.len() - i,
                {
                    clusters[i].1.push_files(&mut paths);
                    proof {
                        assert(all.take(i + 1).drop_last() =~= all.take(i as int));
                        assert(all.take(i + 1).last() == clusters@[i as int].deep_view());
                        assert(paths.deep_view() =~= before + cluster_files(all.take(i + 1)));
                    }
                    i = i + 1;
                }
                proof {
                    assert(all.take(all.len() as int) =~= all);
                }
            },
        }
        paths
    }
}

} // verus!
