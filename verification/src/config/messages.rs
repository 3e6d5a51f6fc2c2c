//! The messages that bring a worker to the state that a configuration describes.
use vstd::prelude::*;
use vstd::string::*;

use crate::command::types::{
    CommandRequest, CommandRequestModel, CommandRequestOrder, CommandRequestOrderModel,
    PROTOCOL_VERSION,
};
use crate::proxy::{
    ActivateListener, ActivateListenerModel, ListenerType, ProxyRequestOrder,
    ProxyRequestOrderModel,
};
use crate::address::SocketAddress;
use crate::text::decimal_text;

use super::types::{ClusterConfigModel, Config, ConfigModel};

verus! {

/// The orders of the clusters one after the other.
pub open spec fn cluster_orders(clusters: Seq<(Seq<char>, ClusterConfigModel)>) -> Seq<
    ProxyRequestOrderModel,
>
    decreases clusters.len(),
{
    if clusters.len() == 0 {
        Seq::empty()
    } else {
        cluster_orders(clusters.drop_last()) + clusters.last().1.orders()
    }
}

/// The order to start to listen on `address`.
pub open spec fn activation(address: SocketAddress, proxy: ListenerType) -> ProxyRequestOrderModel {
    ProxyRequestOrderModel::ActivateListener(
        ActivateListenerModel { address, proxy, from_scm: false },
    )
}

impl ConfigModel {
    /// The orders for the listeners.
    pub open spec fn listener_orders(self) -> Seq<ProxyRequestOrderModel> {
        Seq::new(
            self.http_listeners.len(),
            |i: int| ProxyRequestOrderModel::AddHttpListener(self.http_listeners[i]),
        ) + Seq::new(
            self.https_listeners.len(),
            |i: int| ProxyRequestOrderModel::AddHttpsListener(self.https_listeners[i]),
        ) + Seq::new(
            self.tcp_listeners.len(),
            |i: int| ProxyRequestOrderModel::AddTcpListener(self.tcp_listeners[i]),
        )
    }

    /// The orders to start to listen, none unless the configuration says so.
    pub open spec fn activation_orders(self) -> Seq<ProxyRequestOrderModel> {
        if self.activate_listeners {
            Seq::new(
                self.http_listeners.len(),
                |i: int| activation(self.http_listeners[i].address, ListenerType::HTTP),
            ) + Seq::new(
                self.https_listeners.len(),
                |i: int| activation(self.https_listeners[i].address, ListenerType::HTTPS),
            ) + Seq::new(
                self.tcp_listeners.len(),
                |i: int| activation(self.tcp_listeners[i].address, ListenerType::TCP),
            )
        } else {
            Seq::empty()
        }
    }

    /// All orders: the listeners are there before the clusters, and are started last.
    pub open spec fn orders(self) -> Seq<ProxyRequestOrderModel> {
        self.listener_orders() + cluster_orders(self.clusters) + self.activation_orders()
    }

    /// The message in place `i`, for all workers. Its number is counted in one byte.
    pub open spec fn message(self, i: int) -> CommandRequestModel {
        CommandRequestModel {
            id: "CONFIG-"@ + crate::text::decimal((i % 256) as nat),
            version: PROTOCOL_VERSION,
            worker_id: None,
            order: CommandRequestOrderModel::Proxy(self.orders()[i]),
        }
    }

    /// One message for each order.
    pub open spec fn messages(self) -> Seq<CommandRequestModel> {
        Seq::new(self.orders().len(), |i: int| self.message(i))
    }
}

impl Config {
    fn push_listener_orders(&self, v: &mut Vec<ProxyRequestOrder>)
        requires
            old(v).deep_view() == Seq::<ProxyRequestOrderModel>::empty(),
        ensures
            final(v).deep_view() == self.deep_view().listener_orders(),
    {
        let ghost model = self.deep_view();
        let ghost wanted = model.listener_orders();
        let mut i: usize = 0;
        proof {
            assert(wanted.take(0) =~= Seq::empty());
        }
        while i < self.http_listeners.len()
            invariant
                i <= self.http_listeners.len(),
                model == self.deep_view(),
                wanted == model.listener_orders(),
                v.deep_view() == wanted.take(i as int),
            decreases self.http_listeners.len() - i,
        {
            let ghost before = v.deep_view();
            let order = ProxyRequestOrder::AddHttpListener(self.http_listeners[i].clone());
            v.push(order);
            proof {
                assert(v.deep_view() =~= before.push(order.deep_view()));
                assert(order.deep_view() == wanted[i as int]);
                assert(v.deep_view() =~= wanted.take(i + 1));
            }
            i = i + 1;
        }
        let ghost offset: int = i as int;
        i = 0;
        while i < self.https_listeners.len()
            invariant
                i <= self.https_listeners.len(),
                offset == self.http_listeners.len(),
                model == self.deep_view(),
                wanted == model.listener_orders(),
                v.deep_view() == wanted.take(offset + i),
            decreases self.https_listeners.len() - i,
        {
            let ghost before = v.deep_view();
            let order = ProxyRequestOrder::AddHttpsListener(self.https_listeners[i].clone());
            v.push(order);
            proof {
                assert(v.deep_view() =~= before.push(order.deep_view()));
                assert(order.deep_view() == wanted[offset + i]);
                assert(v.deep_view() =~= wanted.take(offset + i + 1));
            }
            i = i + 1;
        }
        let ghost offset: int = offset + i;
        i = 0;
        while i < self.tcp_listeners.len()
            invariant
                i <= self.tcp_listeners.len(),
                offset == self.http_listeners.len() + self.https_listeners.len(),
                model == self.deep_view(),
                wanted == model.listener_orders(),
                v.deep_view() == wanted.take(offset + i),
            decreases self.tcp_listeners.len() - i,
        {
            let ghost before = v.deep_view();
            let order = ProxyRequestOrder::AddTcpListener(self.tcp_listeners[i].clone());
            v.push(order);
            proof {
                assert(v.deep_view() =~= before.push(order.deep_view()));
                assert(order.deep_view() == wanted[offset + i]);
                assert(v.deep_view() =~= wanted.take(offset + i + 1));
            }
            i = i + 1;
        }
        proof {
            assert(wanted.take(wanted.len() as int) =~= wanted);
        }
    }

    fn push_activation_orders(&self, v: &mut Vec<ProxyRequestOrder>)
        ensures
            final(v).deep_view() == old(v).deep_view() + self.deep_view().activation_orders(),
    {
        let ghost model = self.deep_view();
        let ghost wanted = model.activation_orders();
        let ghost start = v.deep_view();
        let mut i: usize = 0;
        proof {
            assert(start + Seq::empty() =~= start);
            assert(start + wanted.take(0) =~= start);
        }
        if !self.activate_listeners {
            return;
        }
        while i < self.http_listeners.len()
            invariant
                i <= self.http_listeners.len(),
                self.activate_listeners,
                model == self.deep_view(),
                wanted == model.activation_orders(),
                v.deep_view() == start + wanted.take(i as int),
            decreases self.http_listeners.len() - i,
        {
            let ghost before = v.deep_view();
            let order = ProxyRequestOrder::ActivateListener(
                ActivateListener {
                    address: self.http_listeners[i].address,
                    proxy: ListenerType::HTTP,
                    from_scm: false,
                },
            );
            v.push(order);
            proof {
                assert(v.deep_view() =~= before.push(order.deep_view()));
                assert(model.http_listeners[i as int].address == self.http_listeners[i as int].address);
                assert(order.deep_view() == wanted[i as int]);
                assert(v.deep_view() =~= start + wanted.take(i + 1));
            }
            i = i + 1;
        }
        let ghost offset: int = i as int;
        i = 0;
        while i < self.https_listeners.len()
            invariant
                i <= self.https_listeners.len(),
                offset == self.http_listeners.len(),
                self.activate_listeners,
                model == self.deep_view(),
                wanted == model.activation_orders(),
                v.deep_view() == start + wanted.take(offset + i),
            decreases self.https_listeners.len() - i,
        {
            let ghost before = v.deep_view();
            let order = ProxyRequestOrder::ActivateListener(
                ActivateListener {
                    address: self.https_listeners[i].address,
                    proxy: ListenerType::HTTPS,
                    from_scm: false,
                },
            );
            v.push(order);
            proof {
                assert(v.deep_view() =~= before.push(order.deep_view()));
                assert(model.https_listeners[i as int].address == self.https_listeners[i as int].address);
                assert(order.deep_view() == wanted[offset + i]);
                assert(v.deep_view() =~= start + wanted.take(offset + i + 1));
            }
            i = i + 1;
        }
        let ghost offset: int = offset + i;
        i = 0;
        while i < self.tcp_listeners.len()
            invariant
                i <= self.tcp_listeners.len(),
                offset == self.http_listeners.len() + self.https_listeners.len(),
                self.activate_listeners,
                model == self.deep_view(),
                wanted == model.activation_orders(),
                v.deep_view() == start + wanted.take(offset + i),
            decreases self.tcp_listeners.len() - i,
        {
            let ghost before = v.deep_view();
            let order = ProxyRequestOrder::ActivateListener(
                ActivateListener {
                    address: self.tcp_listeners[i].address,
                    proxy: ListenerType::TCP,
                    from_scm: false,
                },
            );
            v.push(order);
            proof {
                assert(v.deep_view() =~= before.push(order.deep_view()));
                assert(model.tcp_listeners[i as int].address == self.tcp_listeners[i as int].address);
                assert(order.deep_view() == wanted[offset + i]);
                assert(v.deep_view() =~= start + wanted.take(offset + i + 1));
            }
            i = i + 1;
        }
        proof {
            assert(wanted.take(wanted.len() as int) =~= wanted);
        }
    }

    /// All orders that set up what the configuration describes.
    fn generate_orders(&self) -> (r: Vec<ProxyRequestOrder>)
        ensures
            r.deep_view() == self.deep_view().orders(),
    {
        let mut v: Vec<ProxyRequestOrder> = Vec::new();
        proof {
            assert(v.deep_view() =~= Seq::empty());
        }
        self.push_listener_orders(&mut v);
        let ghost listeners = v.deep_view();
        let ghost clusters = self.clusters.deep_view();
        let mut i: usize = 0;
        proof {
            assert(clusters.take(0) =~= Seq::empty());
            assert(listeners + cluster_orders(clusters.take(0)) =~= listeners);
        }
        while i < self.clusters.len()
            invariant
                i <= self.clusters.len(),
                clusters == self.clusters.deep_view(),
                v.deep_view() == listeners + cluster_orders(clusters.take(i as int)),
            decreases self.clusters.len() - i,
        {
            let ghost before = v.deep_view();
            let mut orders = self.clusters[i].1.generate_orders();
            let ghost added = orders.deep_view();
            v.append(&mut orders);
            proof {
                assert(v.deep_view() =~= before + added);
                assert(clusters.take(i + 1).drop_last() =~= clusters.take(i as int));
                assert(clusters.take(i + 1).last() == self.clusters@[i as int].deep_view());
                assert(v.deep_view() =~= listeners + cluster_orders(clusters.take(i + 1)));
            }
            i = i + 1;
        }
        proof {
            assert(clusters.take(clusters.len() as int) =~= clusters);
        }
        self.push_activation_orders(&mut v);
        v
    }

    /// The messages that set up what the configuration describes.
    pub fn generate_config_messages(&self) -> (r: Vec<CommandRequest>)
        ensures
            r.deep_view() == self.deep_view().messages(),
    {
        let orders = self.generate_orders();
        let ghost model = self.deep_view();
        let ghost all = orders.deep_view();
        let mut v: Vec<CommandRequest> = Vec::new();
        let mut count: u8 = 0;
        let mut i: usize = 0;
        while i < orders.len()
            invariant
                i <= orders.len(),
                all == orders.deep_view(),
                all == model.orders(),
                count == i % 256,
                v.len() == i,
                forall|k: int| 0 <= k < i ==> (#[trigger] v@[k]).deep_view() == model.message(k),
            decreases orders.len() - i,
        {
            let mut id = "CONFIG-".to_owned();
            id.append(decimal_text(count as u64).as_str());
            let message = CommandRequest {
                id,
                version: PROTOCOL_VERSION,
                worker_id: None,
                order: CommandRequestOrder::Proxy(Box::new(orders[i].clone())),
            };
            v.push(message);
            proof {
                assert(all[i as int] == orders@[i as int].deep_view());
                assert(message.deep_view() == model.message(i as int));
            }
            count = count.wrapping_add(1);
            i = i + 1;
        }
        proof {
            assert(v.deep_view() =~= model.messages());
        }
        v
    }
}

/// Up to as many messages as one byte can count, no two messages of a configuration share their
/// identifier.
#[verifier::spinoff_prover]
pub proof fn law_message_ids_are_distinct(config: ConfigModel, i: int, j: int)
    requires
        config.messages().len() <= 256,
        0 <= i < j < config.messages().len(),
    ensures
        config.messages()[i].id != config.messages()[j].id,
{
    let a = config.messages()[i].id;
    let b = config.messages()[j].id;
    assert(a != b) by {
        lemma_message_id(config, i);
        lemma_message_id(config, j);
        crate::text::lemma_prefixed_numbers_differ("CONFIG-"@, (i % 256) as nat, (j % 256) as nat);
    }
}

/// A message is identified by its number.
proof fn lemma_message_id(config: ConfigModel, i: int)
    requires
        0 <= i < config.messages().len(),
    ensures
        config.messages()[i].id == "CONFIG-"@ + crate::text::decimal((i % 256) as nat),
{
    assert(config.messages()[i] == config.message(i));
}

/// No listener is started before all listeners and clusters are set up, and every one is started
/// where the configuration says so.
pub proof fn law_listeners_are_started_last(config: ConfigModel, i: int)
    requires
        0 <= i < config.orders().len(),
    ensures
        config.orders()[i] is ActivateListener ==> i >= config.listener_orders().len()
            + cluster_orders(config.clusters).len(),
        config.activate_listeners ==> config.orders().len() == 2 * config.listener_orders().len()
            + cluster_orders(config.clusters).len(),
{
    if i < config.listener_orders().len() {
        assert(config.orders()[i] == config.listener_orders()[i]);
    } else if i < config.listener_orders().len() + cluster_orders(config.clusters).len() {
        let k = i - config.listener_orders().len();
        assert(config.orders()[i] == cluster_orders(config.clusters)[k]);
        lemma_clusters_start_nothing(config.clusters, k);
    }
}

/// The orders of clusters start no listener.
proof fn lemma_clusters_start_nothing(clusters: Seq<(Seq<char>, ClusterConfigModel)>, k: int)
    requires
        0 <= k < cluster_orders(clusters).len(),
    ensures
        cluster_orders(clusters)[k] !is ActivateListener,
    decreases clusters.len(),
{
    let before = cluster_orders(clusters.drop_last());
    if k < before.len() {
        lemma_clusters_start_nothing(clusters.drop_last(), k);
    } else {
        clusters.last().1.lemma_orders_start_nothing(k - before.len());
    }
}

} // verus!
