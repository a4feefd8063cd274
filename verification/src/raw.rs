//! The raw document model: the tables of a settings document as written, with
//! every cross-reference a plain name and every large integer a literal.
//!
//! A table is a list of entries, each a name and a record. Nothing here is
//! checked against anything else: a name may occur twice and a reference may
//! dangle. Resolution reports both.

use vstd::prelude::*;

verus! {

/// A 20-byte contract address.
pub type Address = [u8; 20];

/// The name of an entry of the subgraphs table.
pub type SubgraphRef = String;

/// The composite name of a flattened scenario.
pub type ScenarioRef = String;

/// The name of an entry of the networks table.
pub type NetworkRef = String;

/// The name of an entry of the deployers table.
pub type DeployerRef = String;

/// The name of an entry of the orders table.
pub type OrderRef = String;

/// The name of an entry of the orderbooks table.
pub type OrderbookRef = String;

/// The name of an entry of the tokens table.
pub type TokenRef = String;

/// The value of an optional string.
pub open spec fn opt_str(o: Option<String>) -> Option<Seq<char>> {
    match o {
        Some(s) => Some(s@),
        None => None,
    }
}

/// The values of a list of pairs of strings, in order.
pub open spec fn pairs_view(pairs: Seq<(String, String)>) -> Seq<(Seq<char>, Seq<char>)> {
    pairs.map_values(|p: (String, String)| (p.0@, p.1@))
}

/// A network: where its node is reached and which chain it is.
#[derive(Clone, Debug, PartialEq, Eq)]
pub struct NetworkString {
    pub rpc: String,
    pub chain_id: u64,
    pub label: Option<String>,
    pub network_id: Option<u64>,
    pub currency: Option<String>,
}

pub struct NetworkView {
    pub rpc: Seq<char>,
    pub chain_id: u64,
    pub label: Option<Seq<char>>,
    pub network_id: Option<u64>,
    pub currency: Option<Seq<char>>,
}

impl View for NetworkString {
    type V = NetworkView;

    open spec fn view(&self) -> NetworkView {
        NetworkView {
            rpc: self.rpc@,
            chain_id: self.chain_id,
            label: opt_str(self.label),
            network_id: self.network_id,
            currency: opt_str(self.currency),
        }
    }
}

/// An orderbook contract as written: its network and subgraph by name.
#[derive(Clone, Debug, PartialEq, Eq)]
pub struct OrderbookString {
    pub address: Address,
    pub network: Option<NetworkRef>,
    pub subgraph: Option<SubgraphRef>,
    pub label: Option<String>,
}

pub struct OrderbookStringView {
    pub address: Seq<u8>,
    pub network: Option<Seq<char>>,
    pub subgraph: Option<Seq<char>>,
    pub label: Option<Seq<char>>,
}

impl View for OrderbookString {
    type V = OrderbookStringView;

    open spec fn view(&self) -> OrderbookStringView {
        OrderbookStringView {
            address: self.address@,
            network: opt_str(self.network),
            subgraph: opt_str(self.subgraph),
            label: opt_str(self.label),
        }
    }
}

/// A token as written: its network by name.
#[derive(Clone, Debug, PartialEq, Eq)]
pub struct TokenString {
    pub network: NetworkRef,
    pub address: Address,
    pub decimals: Option<u8>,
    pub label: Option<String>,
    pub symbol: Option<String>,
}

pub struct TokenStringView {
    pub network: Seq<char>,
    pub address: Seq<u8>,
    pub decimals: Option<u8>,
    pub label: Option<Seq<char>>,
    pub symbol: Option<Seq<char>>,
}

impl View for TokenString {
    type V = TokenStringView;

    open spec fn view(&self) -> TokenStringView {
        TokenStringView {
            network: self.network@,
            address: self.address@,
            decimals: self.decimals,
            label: opt_str(self.label),
            symbol: opt_str(self.symbol),
        }
    }
}

/// A deployer contract as written: its network by name.
#[derive(Clone, Debug, PartialEq, Eq)]
pub struct DeployerString {
    pub address: Address,
    pub network: Option<NetworkRef>,
    pub label: Option<String>,
}

pub struct DeployerStringView {
    pub address: Seq<u8>,
    pub network: Option<Seq<char>>,
    pub label: Option<Seq<char>>,
}

impl View for DeployerString {
    type V = DeployerStringView;

    open spec fn view(&self) -> DeployerStringView {
        DeployerStringView {
            address: self.address@,
            network: opt_str(self.network),
            label: opt_str(self.label),
        }
    }
}

/// A deployment as written: a scenario and an order, both by name.
#[derive(Clone, Debug, PartialEq, Eq)]
pub struct DeploymentString {
    pub scenario: ScenarioRef,
    pub order: OrderRef,
}

pub struct DeploymentStringView {
    pub scenario: Seq<char>,
    pub order: Seq<char>,
}

impl View for DeploymentString {
    type V = DeploymentStringView;

    open spec fn view(&self) -> DeploymentStringView {
        DeploymentStringView { scenario: self.scenario@, order: self.order@ }
    }
}

/// One input or output of an order as written: a token by name and a vault id
/// as a decimal or `0x` hexadecimal literal.
#[derive(Clone, Debug, PartialEq, Eq)]
pub struct IOString {
    pub token: TokenRef,
    pub vault_id: String,
}

pub struct IOStringView {
    pub token: Seq<char>,
    pub vault_id: Seq<char>,
}

impl View for IOString {
    type V = IOStringView;

    open spec fn view(&self) -> IOStringView {
        IOStringView { token: self.token@, vault_id: self.vault_id@ }
    }
}

/// The values of a list of inputs or outputs, in order.
pub open spec fn ios_view(ios: Seq<IOString>) -> Seq<IOStringView> {
    ios.map_values(|io: IOString| io@)
}

/// An order as written.
#[derive(Clone, Debug, PartialEq, Eq)]
pub struct OrderString {
    pub inputs: Vec<IOString>,
    pub outputs: Vec<IOString>,
    pub network: NetworkRef,
    pub deployer: Option<DeployerRef>,
    pub orderbook: Option<OrderbookRef>,
}

pub struct OrderStringView {
    pub inputs: Seq<IOStringView>,
    pub outputs: Seq<IOStringView>,
    pub network: Seq<char>,
    pub deployer: Option<Seq<char>>,
    pub orderbook: Option<Seq<char>>,
}

impl View for OrderString {
    type V = OrderStringView;

    open spec fn view(&self) -> OrderStringView {
        OrderStringView {
            inputs: ios_view(self.inputs@),
            outputs: ios_view(self.outputs@),
            network: self.network@,
            deployer: opt_str(self.deployer),
            orderbook: opt_str(self.orderbook),
        }
    }
}

/// A scenario as written: what it sets itself, and the scenarios nested in it.
#[derive(Debug, PartialEq, Eq)]
pub struct ScenarioString {
    pub bindings: Vec<(String, String)>,
    pub runs: Option<u64>,
    pub deployer: Option<DeployerRef>,
    pub scenarios: Option<Vec<(String, ScenarioString)>>,
}

/// The value of a scenario. A scenario without a list of children and one with
/// an empty list have the same value.
pub struct ScenarioStringView {
    pub bindings: Seq<(Seq<char>, Seq<char>)>,
    pub runs: Option<u64>,
    pub deployer: Option<Seq<char>>,
    pub scenarios: Seq<(Seq<char>, ScenarioStringView)>,
}

impl ScenarioString {
    /// The children of the scenario, none where it has no list of them.
    pub open spec fn children(&self) -> Seq<(String, ScenarioString)> {
        match self.scenarios {
            Some(v) => v@,
            None => Seq::empty(),
        }
    }
}

impl View for ScenarioString {
    type V = ScenarioStringView;

    open spec fn view(&self) -> ScenarioStringView
        decreases self,
    {
        ScenarioStringView {
            bindings: pairs_view(self.bindings@),
            runs: self.runs,
            deployer: opt_str(self.deployer),
            scenarios: match self.scenarios {
                Some(v) => scenarios_view(v@),
                None => Seq::empty(),
            },
        }
    }
}

/// The values of a table of scenarios, in order.
pub open spec fn scenarios_view(table: Seq<(String, ScenarioString)>) -> Seq<
    (Seq<char>, ScenarioStringView),
>
    decreases table,
{
    if table.len() == 0 {
        Seq::empty()
    } else {
        scenarios_view(table.drop_last()).push((table.last().0@, table.last().1.view()))
    }
}

/// The value of a table of scenarios has an entry for each entry of the table:
/// the value of its name and the value of its scenario.
pub proof fn lemma_scenarios_view(table: Seq<(String, ScenarioString)>)
    ensures
        scenarios_view(table).len() == table.len(),
        forall|i: int|
            0 <= i < table.len() ==> #[trigger] scenarios_view(table)[i] == (
                table[i].0@,
                table[i].1@,
            ),
    decreases table.len(),
{
    reveal_with_fuel(scenarios_view, 2);
    if table.len() > 0 {
        lemma_scenarios_view(table.drop_last());
        assert(scenarios_view(table) == scenarios_view(table.drop_last()).push(
            (table.last().0@, table.last().1.view()),
        ));
    } else {
        assert(scenarios_view(table) == Seq::<(Seq<char>, ScenarioStringView)>::empty());
    }
}

/// Copies an optional string.
pub fn clone_opt(o: &Option<String>) -> (r: Option<String>)
    ensures
        r == *o,
{
    match o {
        Some(s) => Some(s.clone()),
        None => None,
    }
}

/// Copies a list of pairs of strings.
pub fn clone_pairs(pairs: &Vec<(String, String)>) -> (r: Vec<(String, String)>)
    ensures
        r@ == pairs@,
{
    let mut out: Vec<(String, String)> = Vec::new();
    let mut i: usize = 0;
    while i < pairs.len()
        invariant
            i <= pairs.len(),
            out@ == pairs@.take(i as int),
        decreases pairs.len() - i,
    {
        out.push((pairs[i].0.clone(), pairs[i].1.clone()));
        assert(out@ =~= pairs@.take(i + 1));
        i += 1;
    }
    assert(pairs@.take(i as int) =~= pairs@);
    out
}

impl ScenarioString {
    /// Copies the scenario with everything nested in it.
    pub fn duplicate(&self) -> (r: ScenarioString)
        ensures
            r@ == self@,
            r.scenarios is Some <==> self.scenarios is Some,
        decreases self,
    {
        let scenarios = match &self.scenarios {
            Some(v) => {
                let mut out: Vec<(String, ScenarioString)> = Vec::new();
                let mut i: usize = 0;
                while i < v.len()
                    invariant
                        i <= v.len(),
                        self.scenarios == Some(*v),
                        out@.len() == i,
                        forall|j: int|
                            0 <= j < i ==> (#[trigger] out@[j]).0@ == v@[j].0@ && out@[j].1@
                                == v@[j].1@,
                    decreases v.len() - i,
                {
                    proof {
                        assert(decreases_to!(self => self.scenarios));
                        assert(decreases_to!(self.scenarios => self.scenarios->0));
                        assert(decreases_to!(self.scenarios->0 => v@));
                        assert(decreases_to!(v@ => v@[i as int]));
                        assert(decreases_to!(v@[i as int] => v@[i as int].1));
                    }
                    let child = v[i].1.duplicate();
                    out.push((v[i].0.clone(), child));
                    i += 1;
                }
                proof {
                    lemma_scenarios_view(v@);
                    lemma_scenarios_view(out@);
                    assert(scenarios_view(out@) =~= scenarios_view(v@));
                }
                Some(out)
            },
            None => None,
        };
        let r = ScenarioString {
            bindings: clone_pairs(&self.bindings),
            runs: self.runs,
            deployer: clone_opt(&self.deployer),
            scenarios,
        };
        r
    }
}

impl Clone for ScenarioString {
    fn clone(&self) -> (r: ScenarioString)
        ensures
            r@ == self@,
            r.scenarios is Some <==> self.scenarios is Some,
    {
        self.duplicate()
    }
}

/// The coordinates a plot draws, by column name.
#[derive(Clone, Debug, PartialEq, Eq)]
pub struct DataPointsString {
    pub x: String,
    pub y: String,
}

pub struct DataPointsView {
    pub x: Seq<char>,
    pub y: Seq<char>,
}

impl View for DataPointsString {
    type V = DataPointsView;

    open spec fn view(&self) -> DataPointsView {
        DataPointsView { x: self.x@, y: self.y@ }
    }
}

/// One plot of a chart.
#[derive(Clone, Debug, PartialEq, Eq)]
pub struct PlotString {
    pub data: DataPointsString,
    pub plot_type: String,
}

pub struct PlotView {
    pub data: DataPointsView,
    pub plot_type: Seq<char>,
}

impl View for PlotString {
    type V = PlotView;

    open spec fn view(&self) -> PlotView {
        PlotView { data: self.data@, plot_type: self.plot_type@ }
    }
}

/// The values of a list of named plots, in order.
pub open spec fn plots_view(plots: Seq<(String, PlotString)>) -> Seq<(Seq<char>, PlotView)> {
    plots.map_values(|e: (String, PlotString)| (e.0@, e.1@))
}

/// A chart as written: its scenario by composite name, and its named plots.
#[derive(Clone, Debug, PartialEq, Eq)]
pub struct ChartString {
    pub scenario: Option<ScenarioRef>,
    pub plots: Vec<(String, PlotString)>,
}

pub struct ChartStringView {
    pub scenario: Option<Seq<char>>,
    pub plots: Seq<(Seq<char>, PlotView)>,
}

impl View for ChartString {
    type V = ChartStringView;

    open spec fn view(&self) -> ChartStringView {
        ChartStringView { scenario: opt_str(self.scenario), plots: plots_view(self.plots@) }
    }
}

/// A settings document as written: one table for each kind of entry.
#[derive(Clone, Debug, PartialEq, Eq)]
pub struct ConfigString {
    pub networks: Vec<(String, NetworkString)>,
    pub subgraphs: Vec<(String, String)>,
    pub orderbooks: Vec<(String, OrderbookString)>,
    pub tokens: Vec<(String, TokenString)>,
    pub deployers: Vec<(String, DeployerString)>,
    pub orders: Vec<(String, OrderString)>,
    pub scenarios: Vec<(String, ScenarioString)>,
    pub charts: Vec<(String, ChartString)>,
    pub deployments: Vec<(String, DeploymentString)>,
}

pub struct ConfigStringView {
    pub networks: Seq<(Seq<char>, NetworkView)>,
    pub subgraphs: Seq<(Seq<char>, Seq<char>)>,
    pub orderbooks: Seq<(Seq<char>, OrderbookStringView)>,
    pub tokens: Seq<(Seq<char>, TokenStringView)>,
    pub deployers: Seq<(Seq<char>, DeployerStringView)>,
    pub orders: Seq<(Seq<char>, OrderStringView)>,
    pub scenarios: Seq<(Seq<char>, ScenarioStringView)>,
    pub charts: Seq<(Seq<char>, ChartStringView)>,
    pub deployments: Seq<(Seq<char>, DeploymentStringView)>,
}

/// The values of a table, in order.
pub open spec fn table_view<T: View>(table: Seq<(String, T)>) -> Seq<(Seq<char>, T::V)> {
    table.map_values(|e: (String, T)| (e.0@, e.1@))
}

/// The names of a table, in order.
pub open spec fn keys<V>(table: Seq<(Seq<char>, V)>) -> Seq<Seq<char>> {
    table.map_values(|e: (Seq<char>, V)| e.0)
}

impl View for ConfigString {
    type V = ConfigStringView;

    open spec fn view(&self) -> ConfigStringView {
        ConfigStringView {
            networks: table_view(self.networks@),
            subgraphs: pairs_view(self.subgraphs@),
            orderbooks: table_view(self.orderbooks@),
            tokens: table_view(self.tokens@),
            deployers: table_view(self.deployers@),
            orders: table_view(self.orders@),
            scenarios: scenarios_view(self.scenarios@),
            charts: table_view(self.charts@),
            deployments: table_view(self.deployments@),
        }
    }
}

impl Default for ConfigString {
    /// The document with no entry in any table.
    fn default() -> (r: ConfigString)
        ensures
            r@.networks.len() == 0,
            r@.subgraphs.len() == 0,
            r@.orderbooks.len() == 0,
            r@.tokens.len() == 0,
            r@.deployers.len() == 0,
            r@.orders.len() == 0,
            r@.scenarios.len() == 0,
            r@.charts.len() == 0,
            r@.deployments.len() == 0,
    {
        ConfigString {
            networks: Vec::new(),
            subgraphs: Vec::new(),
            orderbooks: Vec::new(),
            tokens: Vec::new(),
            deployers: Vec::new(),
            orders: Vec::new(),
            scenarios: Vec::new(),
            charts: Vec::new(),
            deployments: Vec::new(),
        }
    }
}

} // verus!

