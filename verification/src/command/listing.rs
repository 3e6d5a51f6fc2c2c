//! What the main process lists for clients.
use vstd::prelude::*;
use vstd::string::*;

use crate::proxy::{
    HttpFrontend, HttpFrontendModel, HttpListenerConfig, HttpsListenerConfig, TcpFrontend,
    TcpFrontendModel, TcpListenerConfig,
};
use crate::text::has_text;

use super::server::CommandServer;
use super::types::{
    FrontendFilters, FrontendFiltersModel, ListedFrontends, ListedFrontendsModel, ListenersList,
    ListenersListModel, ResponseContent, ResponseContentModel, Success, SuccessModel,
};

verus! {

/// The frontends whose hostname contains the domain, or all of them where none is given.
pub open spec fn in_domain(frontends: Seq<HttpFrontendModel>, domain: Option<Seq<char>>) -> Seq<
    HttpFrontendModel,
>
    decreases frontends.len(),
{
    if frontends.len() == 0 {
        Seq::empty()
    } else {
        let before = in_domain(frontends.drop_last(), domain);
        if domain is None || crate::text::contains_text(frontends.last().hostname, domain->0) {
            before.push(frontends.last())
        } else {
            before
        }
    }
}

impl FrontendFiltersModel {
    /// No kind is asked for, which means all kinds.
    pub open spec fn all_kinds(self) -> bool {
        !self.http && !self.https && !self.tcp
    }

    /// The frontends that are asked for. TCP frontends have no hostname, so none of them is listed
    /// where a domain is given.
    pub open spec fn listed(
        self,
        http: Seq<HttpFrontendModel>,
        https: Seq<HttpFrontendModel>,
        tcp: Seq<TcpFrontendModel>,
    ) -> ListedFrontendsModel {
        ListedFrontendsModel {
            http_frontends: if self.http || self.all_kinds() {
                in_domain(http, self.domain)
            } else {
                Seq::empty()
            },
            https_frontends: if self.https || self.all_kinds() {
                in_domain(https, self.domain)
            } else {
                Seq::empty()
            },
            tcp_frontends: if (self.tcp || self.all_kinds()) && self.domain is None {
                tcp
            } else {
                Seq::empty()
            },
        }
    }
}

fn select(frontends: &Vec<HttpFrontend>, domain: &Option<String>) -> (r: Vec<HttpFrontend>)
    ensures
        r.deep_view() == in_domain(frontends.deep_view(), domain.deep_view()),
{
    let ghost all = frontends.deep_view();
    let mut r: Vec<HttpFrontend> = Vec::new();
    let mut i: usize = 0;
    proof {
        assert(all.take(0) =~= Seq::empty());
        assert(r.deep_view() =~= Seq::empty());
    }
    while i < frontends.len()
        invariant
            i <= frontends.len(),
            all == frontends.deep_view(),
            r.deep_view() == in_domain(all.take(i as int), domain.deep_view()),
        decreases frontends.len() - i,
    {
        let ghost before = r.deep_view();
        proof {
            assert(all.take(i + 1).drop_last() =~= all.take(i as int));
            assert(all.take(i + 1).last() == frontends@[i as int].deep_view());
        }
        let wanted = match domain {
            None => true,
            Some(domain) => has_text(frontends[i].hostname.as_str(), domain.as_str()),
        };
        if wanted {
            r.push(frontends[i].clone());
            proof {
                assert(r.deep_view() =~= before.push(all[i as int]));
            }
        }
        i = i + 1;
    }
    proof {
        assert(all.take(all.len() as int) =~= all);
    }
    r
}

impl CommandServer {
    /// The frontends that a client wants to see, of all frontends of the state.
    pub fn list_frontends(
        &self,
        filters: &FrontendFilters,
        http_fronts: &Vec<HttpFrontend>,
        https_fronts: &Vec<HttpFrontend>,
        tcp_fronts: &Vec<TcpFrontend>,
    ) -> (r: Success)
        ensures
            r.deep_view() == SuccessModel::ListFrontends(
                ResponseContentModel::FrontendList(
                    filters.deep_view().listed(
                        http_fronts.deep_view(),
                        https_fronts.deep_view(),
                        tcp_fronts.deep_view(),
                    ),
                ),
            ),
    {
        let list_all = !filters.http && !filters.https && !filters.tcp;
        let http_frontends = if filters.http || list_all {
            select(http_fronts, &filters.domain)
        } else {
            Vec::new()
        };
        let https_frontends = if filters.https || list_all {
            select(https_fronts, &filters.domain)
        } else {
            Vec::new()
        };
        let tcp_frontends = if (filters.tcp || list_all) && filters.domain.is_none() {
            tcp_fronts.clone()
        } else {
            Vec::new()
        };
        let listed = ListedFrontends { http_frontends, https_frontends, tcp_frontends };
        proof {
            let wanted = filters.deep_view().listed(
                http_fronts.deep_view(),
                https_fronts.deep_view(),
                tcp_fronts.deep_view(),
            );
            assert(listed.http_frontends.deep_view() =~= wanted.http_frontends);
            assert(listed.https_frontends.deep_view() =~= wanted.https_frontends);
            assert(listed.tcp_frontends.deep_view() =~= wanted.tcp_frontends);
        }
        Success::ListFrontends(ResponseContent::FrontendList(listed))
    }

    /// The listeners of the state.
    pub fn list_listeners(
        &self,
        http_listeners: &Vec<HttpListenerConfig>,
        https_listeners: &Vec<HttpsListenerConfig>,
        tcp_listeners: &Vec<TcpListenerConfig>,
    ) -> (r: Success)
        ensures
            r.deep_view() == SuccessModel::ListListeners(
                ResponseContentModel::ListenersList(
                    ListenersListModel {
                        http_listeners: http_listeners.deep_view(),
                        https_listeners: https_listeners.deep_view(),
                        tcp_listeners: tcp_listeners.deep_view(),
                    },
                ),
            ),
    {
        let list = ListenersList {
            http_listeners: http_listeners.clone(),
            https_listeners: https_listeners.clone(),
            tcp_listeners: tcp_listeners.clone(),
        };
        proof {
            assert(list.http_listeners.deep_view() =~= http_listeners.deep_view());
            assert(list.https_listeners.deep_view() =~= https_listeners.deep_view());
            assert(list.tcp_listeners.deep_view() =~= tcp_listeners.deep_view());
        }
        Success::ListListeners(ResponseContent::ListenersList(list))
    }

    /// The workers.
    pub fn list_workers(&self) -> (r: Success)
        ensures
            r.deep_view() == SuccessModel::ListWorkers(
                ResponseContentModel::Workers(self.deep_view().workers),
            ),
    {
        let workers = self.workers.clone();
        proof {
            assert(workers.deep_view() =~= self.workers.deep_view());
        }
        Success::ListWorkers(ResponseContent::Workers(workers))
    }

    /// The whole state, which is given in its serialised form.
    pub fn dump_state(&self, state: String) -> (r: Success)
        ensures
            r.deep_view() == SuccessModel::DumpState(ResponseContentModel::State(state@)),
    {
        Success::DumpState(ResponseContent::State(state))
    }
}

/// A frontend is listed exactly where it is one of the state and its hostname contains the domain.
pub proof fn law_listed_frontends_match(
    frontends: Seq<HttpFrontendModel>,
    domain: Seq<char>,
    frontend: HttpFrontendModel,
)
    ensures
        in_domain(frontends, Some(domain)).contains(frontend) <==> frontends.contains(frontend)
            && crate::text::contains_text(frontend.hostname, domain),
        in_domain(frontends, None) == frontends,
    decreases frontends.len(),
{
    let listed = in_domain(frontends, Some(domain));
    if frontends.len() == 0 {
        assert(in_domain(frontends, None) =~= frontends);
    } else {
        let first = frontends.drop_last();
        let before = in_domain(first, Some(domain));
        law_listed_frontends_match(first, domain, frontend);
        assert(first.push(frontends.last()) =~= frontends);
        if listed.contains(frontend) {
            let i = choose|i: int| 0 <= i < listed.len() && listed[i] == frontend;
            if i < before.len() {
                assert(before[i] == frontend);
                let k = choose|k: int| 0 <= k < first.len() && first[k] == frontend;
                assert(frontends[k] == frontend);
            } else {
                assert(frontends[frontends.len() - 1] == frontend);
            }
        }
        if frontends.contains(frontend) && crate::text::contains_text(frontend.hostname, domain) {
            let k = choose|k: int| 0 <= k < frontends.len() && frontends[k] == frontend;
            if k < first.len() {
                assert(first[k] == frontend);
                let i = choose|i: int| 0 <= i < before.len() && before[i] == frontend;
                assert(listed[i] == frontend);
            } else {
                assert(listed[listed.len() - 1] == frontend);
            }
        }
    }
}

} // verus!
