//! The resolved configuration: the tables of a settings document with every
//! reference replaced by the handle of the entry it names.
//!
//! A handle is the position of an entry in its table. In a well-formed
//! configuration every handle is in range, so it can be followed without a
//! check.

use crate::bindings::{keys_distinct, pairs_map, Bindings};
use crate::literal::VaultId;
use crate::lookup::{distinct, find_name, index_of, names_view};
use crate::raw::{
    opt_str, pairs_view, plots_view, Address, NetworkString, NetworkView, PlotString, PlotView,
};
use vstd::prelude::*;

verus! {

/// The position of an entry in its table.
pub type Handle = usize;

pub type NetworkHandle = usize;

pub type SubgraphHandle = usize;

pub type OrderbookHandle = usize;

pub type TokenHandle = usize;

pub type DeployerHandle = usize;

pub type OrderHandle = usize;

pub type ScenarioHandle = usize;

/// The value of an optional handle.
pub open spec fn opt_handle(o: Option<usize>) -> Option<int> {
    match o {
        Some(h) => Some(h as int),
        None => None,
    }
}

/// A resolved table: the names of its entries, which serve to find a handle,
/// and beside each name its record.
#[derive(Clone, Debug, PartialEq, Eq)]
pub struct Table<T> {
    pub names: Vec<String>,
    pub records: Vec<T>,
}

impl<T> Table<T> {
    /// Every name has its record, and no name occurs twice.
    pub open spec fn wf(&self) -> bool {
        &&& self.names@.len() == self.records@.len()
        &&& distinct(names_view(self.names@))
    }

    /// The number of entries.
    pub fn len(&self) -> (n: usize)
        ensures
            n == self.names@.len(),
    {
        self.names.len()
    }

    /// The handle of the entry called `name`, if there is one.
    pub fn find(&self, name: &str) -> (r: Option<Handle>)
        ensures
            opt_handle(r) == index_of(names_view(self.names@), name@),
            r matches Some(h) ==> h < self.names@.len() && self.names@[h as int]@ == name@,
    {
        find_name(&self.names, name)
    }

    /// The record behind a handle, if the handle is in range.
    pub fn get(&self, handle: Handle) -> (r: Option<&T>)
        ensures
            handle < self.records@.len() ==> r == Some(&self.records@[handle as int]),
            handle >= self.records@.len() ==> r is None,
    {
        if handle < self.records.len() {
            Some(&self.records[handle])
        } else {
            None
        }
    }

    /// The name behind a handle, if the handle is in range.
    pub fn name(&self, handle: Handle) -> (r: Option<&String>)
        ensures
            handle < self.names@.len() ==> r == Some(&self.names@[handle as int]),
            handle >= self.names@.len() ==> r is None,
    {
        if handle < self.names.len() {
            Some(&self.names[handle])
        } else {
            None
        }
    }

    /// The record of the entry called `name`, if there is one.
    pub fn get_by_name(&self, name: &str) -> (r: Option<&T>)
        ensures
            match index_of(names_view(self.names@), name@) {
                Some(h) => if h < self.records@.len() {
                    r == Some(&self.records@[h])
                } else {
                    r is None
                },
                None => r is None,
            },
    {
        match self.find(name) {
            Some(h) => self.get(h),
            None => None,
        }
    }
}

/// What resolving one table gives: the names of its entries, and their
/// records unless an entry has a defect. The names are there in either case,
/// for the tables that refer into this one.
#[derive(Clone, Debug, PartialEq, Eq)]
pub struct Resolved<T> {
    pub names: Vec<String>,
    pub records: Option<Vec<T>>,
}

/// The entries of a table: the value of each name and of its record.
pub open spec fn entries<T: View>(table: Table<T>) -> Seq<(Seq<char>, T::V)> {
    Seq::new(table.names@.len(), |i: int| (table.names@[i]@, table.records@[i]@))
}

/// A network. It refers to nothing, so it is as it was written.
pub type Network = NetworkString;

/// An orderbook contract.
#[derive(Clone, Debug, PartialEq, Eq)]
pub struct Orderbook {
    pub address: Address,
    pub network: Option<NetworkHandle>,
    pub subgraph: Option<SubgraphHandle>,
    pub label: Option<String>,
}

pub struct OrderbookView {
    pub address: Seq<u8>,
    pub network: Option<int>,
    pub subgraph: Option<int>,
    pub label: Option<Seq<char>>,
}

impl View for Orderbook {
    type V = OrderbookView;

    open spec fn view(&self) -> OrderbookView {
        OrderbookView {
            address: self.address@,
            network: opt_handle(self.network),
            subgraph: opt_handle(self.subgraph),
            label: opt_str(self.label),
        }
    }
}

/// A token.
#[derive(Clone, Debug, PartialEq, Eq)]
pub struct Token {
    pub network: NetworkHandle,
    pub address: Address,
    pub decimals: Option<u8>,
    pub label: Option<String>,
    pub symbol: Option<String>,
}

pub struct TokenView {
    pub network: int,
    pub address: Seq<u8>,
    pub decimals: Option<u8>,
    pub label: Option<Seq<char>>,
    pub symbol: Option<Seq<char>>,
}

impl View for Token {
    type V = TokenView;

    open spec fn view(&self) -> TokenView {
        TokenView {
            network: self.network as int,
            address: self.address@,
            decimals: self.decimals,
            label: opt_str(self.label),
            symbol: opt_str(self.symbol),
        }
    }
}

/// A deployer contract.
#[derive(Clone, Debug, PartialEq, Eq)]
pub struct Deployer {
    pub address: Address,
    pub network: Option<NetworkHandle>,
    pub label: Option<String>,
}

pub struct DeployerView {
    pub address: Seq<u8>,
    pub network: Option<int>,
    pub label: Option<Seq<char>>,
}

impl View for Deployer {
    type V = DeployerView;

    open spec fn view(&self) -> DeployerView {
        DeployerView {
            address: self.address@,
            network: opt_handle(self.network),
            label: opt_str(self.label),
        }
    }
}

/// One input or output of an order: a token and the vault it moves through.
#[derive(Clone, Copy, Debug, PartialEq, Eq)]
pub struct OrderIO {
    pub token: TokenHandle,
    pub vault_id: VaultId,
}

pub struct OrderIOView {
    pub token: int,
    pub vault_id: nat,
}

impl View for OrderIO {
    type V = OrderIOView;

    open spec fn view(&self) -> OrderIOView {
        OrderIOView { token: self.token as int, vault_id: self.vault_id@ }
    }
}

/// The values of a list of inputs or outputs, in order.
pub open spec fn order_ios_view(ios: Seq<OrderIO>) -> Seq<OrderIOView> {
    ios.map_values(|io: OrderIO| io@)
}

/// An order.
#[derive(Clone, Debug, PartialEq, Eq)]
pub struct Order {
    pub inputs: Vec<OrderIO>,
    pub outputs: Vec<OrderIO>,
    pub network: NetworkHandle,
    pub deployer: Option<DeployerHandle>,
    pub orderbook: Option<OrderbookHandle>,
}

pub struct OrderView {
    pub inputs: Seq<OrderIOView>,
    pub outputs: Seq<OrderIOView>,
    pub network: int,
    pub deployer: Option<int>,
    pub orderbook: Option<int>,
}

impl View for Order {
    type V = OrderView;

    open spec fn view(&self) -> OrderView {
        OrderView {
            inputs: order_ios_view(self.inputs@),
            outputs: order_ios_view(self.outputs@),
            network: self.network as int,
            deployer: opt_handle(self.deployer),
            orderbook: opt_handle(self.orderbook),
        }
    }
}

/// A flattened scenario with all that it inherits. Its name in the table is
/// composite: the names of its ancestors and its own, joined by `.`.
#[derive(Clone, Debug, PartialEq, Eq)]
pub struct Scenario {
    /// The bindings in force, each key once.
    pub bindings: Vec<(String, String)>,
    pub runs: u64,
    pub deployer: DeployerHandle,
}

pub struct ScenarioView {
    pub bindings: Bindings,
    pub runs: u64,
    pub deployer: int,
}

impl View for Scenario {
    type V = ScenarioView;

    open spec fn view(&self) -> ScenarioView {
        ScenarioView {
            bindings: pairs_map(pairs_view(self.bindings@)),
            runs: self.runs,
            deployer: self.deployer as int,
        }
    }
}

impl Scenario {
    /// What the scenario binds `key` to, if anything.
    pub fn binding(&self, key: &str) -> (r: Option<&String>)
        ensures
            r is Some <==> self@.bindings.contains_key(key@),
            r matches Some(v) ==> v@ == self@.bindings[key@],
    {
        crate::bindings::lookup(&self.bindings, key)
    }
}

/// A chart: the scenario it draws, and its named plots.
#[derive(Clone, Debug, PartialEq, Eq)]
pub struct Chart {
    pub scenario: Option<ScenarioHandle>,
    pub plots: Vec<(String, PlotString)>,
}

pub struct ChartView {
    pub scenario: Option<int>,
    pub plots: Seq<(Seq<char>, PlotView)>,
}

impl View for Chart {
    type V = ChartView;

    open spec fn view(&self) -> ChartView {
        ChartView { scenario: opt_handle(self.scenario), plots: plots_view(self.plots@) }
    }
}

/// A deployment: a scenario paired with an order.
#[derive(Clone, Copy, Debug, PartialEq, Eq)]
pub struct Deployment {
    pub scenario: ScenarioHandle,
    pub order: OrderHandle,
}

pub struct DeploymentView {
    pub scenario: int,
    pub order: int,
}

impl View for Deployment {
    type V = DeploymentView;

    open spec fn view(&self) -> DeploymentView {
        DeploymentView { scenario: self.scenario as int, order: self.order as int }
    }
}

/// The resolved configuration.
#[derive(Clone, Debug, PartialEq, Eq)]
pub struct Config {
    pub networks: Table<Network>,
    pub subgraphs: Table<String>,
    pub orderbooks: Table<Orderbook>,
    pub tokens: Table<Token>,
    pub deployers: Table<Deployer>,
    pub orders: Table<Order>,
    pub scenarios: Table<Scenario>,
    pub charts: Table<Chart>,
    pub deployments: Table<Deployment>,
}

pub struct ConfigView {
    pub networks: Seq<(Seq<char>, NetworkView)>,
    pub subgraphs: Seq<(Seq<char>, Seq<char>)>,
    pub orderbooks: Seq<(Seq<char>, OrderbookView)>,
    pub tokens: Seq<(Seq<char>, TokenView)>,
    pub deployers: Seq<(Seq<char>, DeployerView)>,
    pub orders: Seq<(Seq<char>, OrderView)>,
    pub scenarios: Seq<(Seq<char>, ScenarioView)>,
    pub charts: Seq<(Seq<char>, ChartView)>,
    pub deployments: Seq<(Seq<char>, DeploymentView)>,
}

impl View for Config {
    type V = ConfigView;

    open spec fn view(&self) -> ConfigView {
        ConfigView {
            networks: entries(self.networks),
            subgraphs: entries(self.subgraphs),
            orderbooks: entries(self.orderbooks),
            tokens: entries(self.tokens),
            deployers: entries(self.deployers),
            orders: entries(self.orders),
            scenarios: entries(self.scenarios),
            charts: entries(self.charts),
            deployments: entries(self.deployments),
        }
    }
}

/// `h` is the handle of an entry of a table with `len` entries.
pub open spec fn in_range(h: int, len: nat) -> bool {
    0 <= h < len
}

/// An optional handle is absent or in range.
pub open spec fn opt_in_range(h: Option<int>, len: nat) -> bool {
    h matches Some(i) ==> in_range(i, len)
}

/// Every token handle of a list of inputs or outputs is in range.
pub open spec fn ios_in_range(ios: Seq<OrderIOView>, tokens: nat) -> bool {
    forall|k: int| 0 <= k < ios.len() ==> in_range((#[trigger] ios[k]).token, tokens)
}

pub open spec fn orderbook_in_range(o: OrderbookView, networks: nat, subgraphs: nat) -> bool {
    opt_in_range(o.network, networks) && opt_in_range(o.subgraph, subgraphs)
}

pub open spec fn order_in_range(
    o: OrderView,
    networks: nat,
    deployers: nat,
    orderbooks: nat,
    tokens: nat,
) -> bool {
    &&& in_range(o.network, networks)
    &&& opt_in_range(o.deployer, deployers)
    &&& opt_in_range(o.orderbook, orderbooks)
    &&& ios_in_range(o.inputs, tokens)
    &&& ios_in_range(o.outputs, tokens)
}

pub open spec fn deployment_in_range(d: DeploymentView, scenarios: nat, orders: nat) -> bool {
    in_range(d.scenario, scenarios) && in_range(d.order, orders)
}

impl ConfigView {
    /// Every handle held anywhere in the configuration is in range.
    pub open spec fn handles_in_range(self) -> bool {
        &&& forall|i: int|
            0 <= i < self.orderbooks.len() ==> orderbook_in_range(
                (#[trigger] self.orderbooks[i]).1,
                self.networks.len(),
                self.subgraphs.len(),
            )
        &&& forall|i: int|
            0 <= i < self.tokens.len() ==> in_range(
                (#[trigger] self.tokens[i]).1.network,
                self.networks.len(),
            )
        &&& forall|i: int|
            0 <= i < self.deployers.len() ==> opt_in_range(
                (#[trigger] self.deployers[i]).1.network,
                self.networks.len(),
            )
        &&& forall|i: int|
            0 <= i < self.orders.len() ==> order_in_range(
                (#[trigger] self.orders[i]).1,
                self.networks.len(),
                self.deployers.len(),
                self.orderbooks.len(),
                self.tokens.len(),
            )
        &&& forall|i: int|
            0 <= i < self.scenarios.len() ==> in_range(
                (#[trigger] self.scenarios[i]).1.deployer,
                self.deployers.len(),
            )
        &&& forall|i: int|
            0 <= i < self.charts.len() ==> opt_in_range(
                (#[trigger] self.charts[i]).1.scenario,
                self.scenarios.len(),
            )
        &&& forall|i: int|
            0 <= i < self.deployments.len() ==> deployment_in_range(
                (#[trigger] self.deployments[i]).1,
                self.scenarios.len(),
                self.orders.len(),
            )
    }
}

impl Config {
    /// The configuration is well formed: each table is, every scenario holds
    /// each of its keys once, and every handle is in range.
    pub open spec fn wf(&self) -> bool {
        &&& self.networks.wf()
        &&& self.subgraphs.wf()
        &&& self.orderbooks.wf()
        &&& self.tokens.wf()
        &&& self.deployers.wf()
        &&& self.orders.wf()
        &&& self.scenarios.wf()
        &&& self.charts.wf()
        &&& self.deployments.wf()
        &&& forall|i: int|
            0 <= i < self.scenarios.records@.len() ==> keys_distinct(
                pairs_view((#[trigger] self.scenarios.records@[i]).bindings@),
            )
        &&& self@.handles_in_range()
    }
}

} // verus!
