use orderbook_settings::assemble::{assemble, resolve, resolve_with_max_depth};
use orderbook_settings::config::{Config, Deployment, Order, OrderIO, Table};
use orderbook_settings::error::{ConfigError, FieldKind, TableKind};
use orderbook_settings::literal::VaultId;
use orderbook_settings::raw::{
    ChartString, ConfigString, DataPointsString, DeployerString, DeploymentString, IOString,
    NetworkString, OrderString, OrderbookString, PlotString, ScenarioString, TokenString,
};
use orderbook_settings::scenario::DEFAULT_MAX_DEPTH;

fn s(text: &str) -> String {
    text.to_string()
}

fn address(last: u8) -> [u8; 20] {
    let mut a = [0u8; 20];
    a[19] = last;
    a
}

fn network(rpc: &str, chain_id: u64, label: &str) -> NetworkString {
    NetworkString {
        rpc: s(rpc),
        chain_id,
        label: Some(s(label)),
        network_id: Some(chain_id),
        currency: Some(s("ETH")),
    }
}

fn orderbook(last: u8, network: &str, subgraph: &str, label: &str) -> OrderbookString {
    OrderbookString {
        address: address(last),
        network: Some(s(network)),
        subgraph: Some(s(subgraph)),
        label: Some(s(label)),
    }
}

fn token(last: u8, network: &str, label: &str, symbol: &str) -> TokenString {
    TokenString {
        network: s(network),
        address: address(last),
        decimals: Some(18),
        label: Some(s(label)),
        symbol: Some(s(symbol)),
    }
}

fn deployer(last: u8, network: &str, label: &str) -> DeployerString {
    DeployerString { address: address(last), network: Some(s(network)), label: Some(s(label)) }
}

fn io(token: &str, vault_id: &str) -> IOString {
    IOString { token: s(token), vault_id: s(vault_id) }
}

fn scenario(
    bindings: &[(&str, &str)],
    runs: Option<u64>,
    deployer: Option<&str>,
    children: Vec<(String, ScenarioString)>,
) -> ScenarioString {
    ScenarioString {
        bindings: bindings.iter().map(|(k, v)| (s(k), s(v))).collect(),
        runs,
        deployer: deployer.map(s),
        scenarios: if children.is_empty() { None } else { Some(children) },
    }
}

fn plot(x: &str, y: &str, plot_type: &str) -> PlotString {
    PlotString { data: DataPointsString { x: s(x), y: s(y) }, plot_type: s(plot_type) }
}

/// The document with both deployments, the first of which names an order that
/// the orders table does not have.
fn example_document() -> ConfigString {
    ConfigString {
        networks: vec![
            (s("mainnet"), network("https://mainnet.node", 1, "Mainnet")),
            (s("testnet"), network("https://testnet.node", 2, "Testnet")),
        ],
        subgraphs: vec![
            (s("mainnet"), s("https://mainnet.subgraph")),
            (s("testnet"), s("https://testnet.subgraph")),
        ],
        orderbooks: vec![
            (s("mainnetOrderbook"), orderbook(0x23, "mainnet", "mainnet", "Mainnet Orderbook")),
            (s("testnetOrderbook"), orderbook(0x56, "testnet", "testnet", "Testnet Orderbook")),
        ],
        tokens: vec![
            (s("eth"), token(0xde, "mainnet", "Ethereum", "ETH")),
            (s("dai"), token(0xda, "mainnet", "Dai", "DAI")),
        ],
        deployers: vec![
            (s("mainDeployer"), deployer(0x01, "mainnet", "Main Deployer")),
            (s("testDeployer"), deployer(0x02, "testnet", "Test Deployer")),
        ],
        orders: vec![(
            s("buyETH"),
            OrderString {
                inputs: vec![io("eth", "2"), io("dai", "0x1")],
                outputs: vec![io("dai", "3")],
                network: s("mainnet"),
                deployer: Some(s("mainDeployer")),
                orderbook: Some(s("mainnetOrderbook")),
            },
        )],
        scenarios: vec![(
            s("mainScenario"),
            scenario(
                &[("key1", "value1"), ("key2", "value2")],
                Some(100),
                Some("mainDeployer"),
                vec![
                    (s("subScenario1"), scenario(&[("key3", "value3")], None, None, vec![])),
                    (s("subScenario2"), scenario(&[("key4", "value4")], None, None, vec![])),
                ],
            ),
        )],
        charts: vec![(
            s("mainChart"),
            ChartString {
                scenario: Some(s("mainScenario")),
                plots: vec![
                    (s("plot1"), plot("dataX", "dataY", "line")),
                    (s("plot2"), plot("dataX2", "dataY2", "bar")),
                ],
            },
        )],
        deployments: vec![
            (
                s("first-deployment"),
                DeploymentString { scenario: s("mainScenario"), order: s("sellETH") },
            ),
            (
                s("second-deployment"),
                DeploymentString { scenario: s("mainScenario"), order: s("buyETH") },
            ),
        ],
    }
}

/// The same document without the deployment that dangles.
fn valid_document() -> ConfigString {
    let mut raw = example_document();
    raw.deployments.remove(0);
    raw
}

fn resolved() -> Config {
    resolve(&valid_document()).expect("the document is valid")
}

fn id(n: u64) -> VaultId {
    VaultId { limbs: [n, 0, 0, 0] }
}

fn sorted(bindings: &[(String, String)]) -> Vec<(String, String)> {
    let mut v = bindings.to_vec();
    v.sort();
    v
}

fn pairs(list: &[(&str, &str)]) -> Vec<(String, String)> {
    list.iter().map(|(k, v)| (s(k), s(v))).collect()
}

#[test]
fn raw_document_holds_what_was_written() {
    let config = example_document();
    let mainnet = &config.networks.iter().find(|(name, _)| name == "mainnet").unwrap().1;
    assert_eq!(mainnet.rpc, "https://mainnet.node");
    assert_eq!(mainnet.label, Some("Mainnet".into()));
    let subgraph = &config.subgraphs.iter().find(|(name, _)| name == "mainnet").unwrap().1;
    assert_eq!(subgraph, "https://mainnet.subgraph");
    let book = &config.orderbooks.iter().find(|(name, _)| name == "mainnetOrderbook").unwrap().1;
    assert_eq!(book.address, address(0x23));
    let eth = &config.tokens.iter().find(|(name, _)| name == "eth").unwrap().1;
    assert_eq!(eth.decimals, Some(18));
}

#[test]
fn the_example_document_resolves() {
    let config = resolved();
    assert_eq!(
        config.scenarios.names,
        vec![s("mainScenario"), s("mainScenario.subScenario1"), s("mainScenario.subScenario2")]
    );
    assert_eq!(config.scenarios.records.len(), 3);

    let buy = config.orders.get_by_name("buyETH").expect("buyETH is an order");
    assert_eq!(buy.outputs.len(), 1);
    let out_token = config.tokens.get(buy.outputs[0].token).expect("the handle is in range");
    assert_eq!(out_token.decimals, Some(18));
    assert_eq!(out_token.symbol, Some(s("DAI")));
    assert_eq!(config.tokens.name(buy.outputs[0].token), Some(&s("dai")));
}

#[test]
fn the_example_order_is_resolved_field_by_field() {
    let config = resolved();
    let eth = config.tokens.find("eth").unwrap();
    let dai = config.tokens.find("dai").unwrap();
    assert_eq!((eth, dai), (0, 1));
    assert_eq!(
        config.orders.records,
        vec![Order {
            inputs: vec![
                OrderIO { token: eth, vault_id: id(2) },
                OrderIO { token: dai, vault_id: id(1) },
            ],
            outputs: vec![OrderIO { token: dai, vault_id: id(3) }],
            network: config.networks.find("mainnet").unwrap(),
            deployer: config.deployers.find("mainDeployer"),
            orderbook: config.orderbooks.find("mainnetOrderbook"),
        }]
    );
    assert_eq!(config.orders.records[0].network, 0);
    assert_eq!(config.orders.records[0].deployer, Some(0));
    assert_eq!(config.orders.records[0].orderbook, Some(0));
}

#[test]
fn the_example_tables_keep_the_order_written() {
    let config = resolved();
    assert_eq!(config.networks.names, vec![s("mainnet"), s("testnet")]);
    assert_eq!(config.networks.records[1], network("https://testnet.node", 2, "Testnet"));
    assert_eq!(config.subgraphs.names, vec![s("mainnet"), s("testnet")]);
    assert_eq!(config.subgraphs.records[0], "https://mainnet.subgraph");
    assert_eq!(config.orderbooks.names, vec![s("mainnetOrderbook"), s("testnetOrderbook")]);
    let test_book = &config.orderbooks.records[1];
    assert_eq!(test_book.address, address(0x56));
    assert_eq!(test_book.network, Some(1));
    assert_eq!(test_book.subgraph, Some(1));
    assert_eq!(test_book.label, Some(s("Testnet Orderbook")));
    assert_eq!(config.tokens.records[0].network, 0);
    assert_eq!(config.tokens.records[0].address, address(0xde));
    assert_eq!(config.deployers.records[1].network, Some(1));
    assert_eq!(config.deployers.records[1].address, address(0x02));
    assert_eq!(config.deployers.records[1].label, Some(s("Test Deployer")));
    let chart = &config.charts.records[0];
    assert_eq!(chart.scenario, Some(0));
    assert_eq!(
        chart.plots,
        vec![
            (s("plot1"), plot("dataX", "dataY", "line")),
            (s("plot2"), plot("dataX2", "dataY2", "bar")),
        ]
    );
}

#[test]
fn second_deployment_resolves_both_handles() {
    let config = resolved();
    let h = config.deployments.find("second-deployment").unwrap();
    let d = *config.deployments.get(h).unwrap();
    assert_eq!(
        d,
        Deployment {
            scenario: config.scenarios.find("mainScenario").unwrap(),
            order: config.orders.find("buyETH").unwrap(),
        }
    );
    assert_eq!(config.scenarios.name(d.scenario), Some(&s("mainScenario")));
    assert_eq!(config.orders.name(d.order), Some(&s("buyETH")));
}

#[test]
fn first_deployment_names_an_unknown_order() {
    assert_eq!(
        resolve(&example_document()),
        Err(vec![ConfigError::UnknownReference {
            table: TableKind::Orders,
            field: FieldKind::DeploymentOrder,
            name: s("sellETH"),
        }])
    );
}

#[test]
fn resolving_twice_gives_equal_graphs() {
    let raw = valid_document();
    let first = resolve(&raw);
    let second = resolve(&raw);
    assert!(first.is_ok());
    assert_eq!(first, second);
    let bad = example_document();
    assert_eq!(resolve(&bad), resolve(&bad));
}

#[test]
fn an_earlier_graph_is_untouched_by_a_later_run() {
    let raw = valid_document();
    let before = raw.clone();
    let first = resolve(&raw).unwrap();
    let snapshot = first.clone();
    let second = resolve(&raw).unwrap();
    assert_eq!(first, snapshot);
    assert_eq!(second, snapshot);
    assert_eq!(raw, before);
    drop(second);
    assert_eq!(first, snapshot);
}

#[test]
fn children_inherit_bindings_runs_and_deployer() {
    let config = resolved();
    let main = config.scenarios.get_by_name("mainScenario").unwrap();
    assert_eq!(sorted(&main.bindings), pairs(&[("key1", "value1"), ("key2", "value2")]));
    assert_eq!(main.runs, 100);
    assert_eq!(main.deployer, 0);
    let sub1 = config.scenarios.get_by_name("mainScenario.subScenario1").unwrap();
    assert_eq!(
        sorted(&sub1.bindings),
        pairs(&[("key1", "value1"), ("key2", "value2"), ("key3", "value3")])
    );
    assert_eq!(sub1.runs, 100);
    assert_eq!(sub1.deployer, 0);
    let sub2 = config.scenarios.get_by_name("mainScenario.subScenario2").unwrap();
    assert_eq!(
        sorted(&sub2.bindings),
        pairs(&[("key1", "value1"), ("key2", "value2"), ("key4", "value4")])
    );
    assert_eq!(sub2.binding("key4"), Some(&s("value4")));
    assert_eq!(sub2.binding("key3"), None);
}

fn with_scenarios(scenarios: Vec<(String, ScenarioString)>) -> ConfigString {
    let mut raw = valid_document();
    raw.scenarios = scenarios;
    raw.charts.clear();
    raw.deployments.clear();
    raw
}

#[test]
fn a_child_overrides_key_by_key_at_every_depth() {
    let raw = with_scenarios(vec![(
        s("a"),
        scenario(
            &[("x", "1"), ("y", "1")],
            None,
            Some("mainDeployer"),
            vec![(
                s("b"),
                scenario(
                    &[("y", "2"), ("z", "2")],
                    None,
                    None,
                    vec![(s("c"), scenario(&[("x", "3"), ("z", "3")], None, None, vec![]))],
                ),
            )],
        ),
    )]);
    let config = resolve(&raw).unwrap();
    assert_eq!(config.scenarios.names, vec![s("a"), s("a.b"), s("a.b.c")]);
    let at = |name: &str| sorted(&config.scenarios.get_by_name(name).unwrap().bindings);
    assert_eq!(at("a"), pairs(&[("x", "1"), ("y", "1")]));
    assert_eq!(at("a.b"), pairs(&[("x", "1"), ("y", "2"), ("z", "2")]));
    assert_eq!(at("a.b.c"), pairs(&[("x", "3"), ("y", "2"), ("z", "3")]));
}

#[test]
fn a_later_binding_of_one_scenario_overrides_an_earlier_one() {
    let raw = with_scenarios(vec![(
        s("a"),
        scenario(&[("x", "1"), ("y", "1"), ("x", "2")], None, Some("mainDeployer"), vec![]),
    )]);
    let config = resolve(&raw).unwrap();
    let a = config.scenarios.get_by_name("a").unwrap();
    assert_eq!(sorted(&a.bindings), pairs(&[("x", "2"), ("y", "1")]));
}

#[test]
fn runs_come_from_the_nearest_ancestor_or_default_to_one() {
    let raw = with_scenarios(vec![
        (
            s("a"),
            scenario(
                &[],
                None,
                Some("mainDeployer"),
                vec![(
                    s("b"),
                    scenario(
                        &[],
                        Some(7),
                        None,
                        vec![(
                            s("c"),
                            scenario(
                                &[],
                                None,
                                None,
                                vec![(s("d"), scenario(&[], Some(0), None, vec![]))],
                            ),
                        )],
                    ),
                )],
            ),
        ),
        (s("e"), scenario(&[], None, Some("testDeployer"), vec![])),
    ]);
    let config = resolve(&raw).unwrap();
    assert_eq!(config.scenarios.names, vec![s("a"), s("a.b"), s("a.b.c"), s("a.b.c.d"), s("e")]);
    let runs: Vec<u64> = config.scenarios.records.iter().map(|r| r.runs).collect();
    assert_eq!(runs, vec![1, 7, 7, 0, 1]);
}

#[test]
fn the_deployer_comes_from_the_nearest_ancestor() {
    let raw = with_scenarios(vec![(
        s("a"),
        scenario(
            &[],
            None,
            Some("mainDeployer"),
            vec![
                (
                    s("b"),
                    scenario(
                        &[],
                        None,
                        Some("testDeployer"),
                        vec![(s("c"), scenario(&[], None, None, vec![]))],
                    ),
                ),
                (s("d"), scenario(&[], None, None, vec![])),
            ],
        ),
    )]);
    let config = resolve(&raw).unwrap();
    assert_eq!(config.scenarios.names, vec![s("a"), s("a.b"), s("a.b.c"), s("a.d")]);
    let deployers: Vec<usize> = config.scenarios.records.iter().map(|r| r.deployer).collect();
    assert_eq!(deployers, vec![0, 1, 1, 0]);
}

fn missing(scenario: &str) -> ConfigError {
    ConfigError::MissingDeployer { scenario: s(scenario) }
}

#[test]
fn a_root_without_deployer_is_missing_one() {
    let raw = with_scenarios(vec![(s("a"), scenario(&[("k", "v")], Some(3), None, vec![]))]);
    assert_eq!(resolve(&raw), Err(vec![missing("a")]));
}

#[test]
fn every_scenario_without_a_deployer_in_force_is_reported() {
    let raw = with_scenarios(vec![(
        s("a"),
        scenario(
            &[],
            None,
            None,
            vec![
                (s("b"), scenario(&[], None, None, vec![])),
                (
                    s("c"),
                    scenario(
                        &[],
                        None,
                        Some("mainDeployer"),
                        vec![(s("d"), scenario(&[], None, None, vec![]))],
                    ),
                ),
            ],
        ),
    )]);
    assert_eq!(resolve(&raw), Err(vec![missing("a"), missing("a.b")]));
}

fn unknown(table: TableKind, field: FieldKind, name: &str) -> ConfigError {
    ConfigError::UnknownReference { table, field, name: s(name) }
}

#[test]
fn a_deployer_that_dangles_is_reported_once_where_it_is_named() {
    let raw = with_scenarios(vec![(
        s("a"),
        scenario(
            &[],
            None,
            Some("mainDeployer"),
            vec![(
                s("b"),
                scenario(
                    &[],
                    None,
                    Some("nobody"),
                    vec![(s("c"), scenario(&[], None, None, vec![]))],
                ),
            )],
        ),
    )]);
    assert_eq!(
        resolve(&raw),
        Err(vec![unknown(TableKind::Deployers, FieldKind::ScenarioDeployer, "nobody")])
    );
    let at_the_root = with_scenarios(vec![(
        s("a"),
        scenario(
            &[],
            None,
            Some("nobody"),
            vec![
                (s("b"), scenario(&[], None, None, vec![])),
                (s("c"), scenario(&[], None, Some("nobody"), vec![])),
                (s("d"), scenario(&[], None, Some("testDeployer"), vec![])),
            ],
        ),
    )]);
    assert_eq!(
        resolve(&at_the_root),
        Err(vec![
            unknown(TableKind::Deployers, FieldKind::ScenarioDeployer, "nobody"),
            unknown(TableKind::Deployers, FieldKind::ScenarioDeployer, "nobody"),
        ])
    );
}

#[test]
fn a_name_with_the_separator_can_clash() {
    let raw = with_scenarios(vec![
        (
            s("a"),
            scenario(
                &[],
                None,
                Some("mainDeployer"),
                vec![(s("b"), scenario(&[], None, None, vec![]))],
            ),
        ),
        (s("a.b"), scenario(&[], None, Some("mainDeployer"), vec![])),
    ]);
    assert_eq!(
        resolve(&raw),
        Err(vec![ConfigError::DuplicateScenarioName { name: s("a.b") }])
    );
    let fine = with_scenarios(vec![
        (s("a"), scenario(&[], None, Some("mainDeployer"), vec![])),
        (s("a.b"), scenario(&[], None, Some("mainDeployer"), vec![])),
    ]);
    assert_eq!(resolve(&fine).unwrap().scenarios.names, vec![s("a"), s("a.b")]);
}

#[test]
fn siblings_of_one_name_clash() {
    let raw = with_scenarios(vec![
        (s("a"), scenario(&[], None, Some("mainDeployer"), vec![])),
        (s("b"), scenario(&[], None, Some("mainDeployer"), vec![])),
        (s("a"), scenario(&[], None, Some("testDeployer"), vec![])),
        (s("a"), scenario(&[], None, Some("testDeployer"), vec![])),
    ]);
    assert_eq!(
        resolve(&raw),
        Err(vec![
            ConfigError::DuplicateScenarioName { name: s("a") },
            ConfigError::DuplicateScenarioName { name: s("a") },
        ])
    );
}

fn chain(levels: usize) -> Vec<(String, ScenarioString)> {
    let mut below: Vec<(String, ScenarioString)> = vec![];
    for level in (0..levels).rev() {
        let deployer = if level == 0 { Some("mainDeployer") } else { None };
        below = vec![(format!("n{level}"), scenario(&[], None, deployer, below))];
    }
    below
}

fn chain_name(levels: usize) -> String {
    (0..levels).map(|l| format!("n{l}")).collect::<Vec<_>>().join(".")
}

#[test]
fn nesting_is_limited() {
    let raw = with_scenarios(chain(3));
    let deep = resolve_with_max_depth(&raw, 2).unwrap();
    assert_eq!(deep.scenarios.names, vec![s("n0"), s("n0.n1"), s("n0.n1.n2")]);
    assert_eq!(
        resolve_with_max_depth(&raw, 1),
        Err(vec![ConfigError::ScenarioTooDeep { scenario: s("n0.n1") }])
    );
    assert_eq!(
        resolve_with_max_depth(&raw, 0),
        Err(vec![ConfigError::ScenarioTooDeep { scenario: s("n0") }])
    );
    let flat = with_scenarios(chain(1));
    assert_eq!(resolve_with_max_depth(&flat, 0).unwrap().scenarios.names, vec![s("n0")]);
}

#[test]
fn the_default_limit_is_sixty_four_levels_below_the_top() {
    assert_eq!(DEFAULT_MAX_DEPTH, 64);
    let at_limit = with_scenarios(chain(65));
    let config = resolve(&at_limit).unwrap();
    assert_eq!(config.scenarios.names.len(), 65);
    assert_eq!(config.scenarios.names[64], chain_name(65));
    let beyond = with_scenarios(chain(66));
    assert_eq!(
        resolve(&beyond),
        Err(vec![ConfigError::ScenarioTooDeep { scenario: chain_name(65) }])
    );
    assert_eq!(resolve(&beyond), resolve_with_max_depth(&beyond, 64));
}

#[test]
fn a_repeated_key_is_reported_for_each_repetition() {
    let mut raw = valid_document();
    raw.networks.push((s("mainnet"), network("https://other.node", 9, "Other")));
    raw.networks.push((s("mainnet"), network("https://third.node", 10, "Third")));
    raw.tokens.push((s("eth"), token(0xee, "testnet", "Again", "ETH")));
    raw.charts[0].1.plots.push((s("plot1"), plot("a", "b", "line")));
    assert_eq!(
        resolve(&raw),
        Err(vec![
            ConfigError::DuplicateKey { table: TableKind::Networks, name: s("mainnet") },
            ConfigError::DuplicateKey { table: TableKind::Networks, name: s("mainnet") },
            ConfigError::DuplicateKey { table: TableKind::Tokens, name: s("eth") },
            ConfigError::DuplicateKey { table: TableKind::Plots, name: s("plot1") },
        ])
    );
}

#[test]
fn repeated_keys_in_every_table() {
    let mut raw = valid_document();
    raw.subgraphs.push(raw.subgraphs[0].clone());
    raw.orderbooks.push(raw.orderbooks[1].clone());
    raw.deployers.push(raw.deployers[0].clone());
    raw.orders.push(raw.orders[0].clone());
    raw.charts.push(raw.charts[0].clone());
    raw.deployments.push(raw.deployments[0].clone());
    let dup = |table, name: &str| ConfigError::DuplicateKey { table, name: s(name) };
    assert_eq!(
        resolve(&raw),
        Err(vec![
            dup(TableKind::Subgraphs, "mainnet"),
            dup(TableKind::Orderbooks, "testnetOrderbook"),
            dup(TableKind::Deployers, "mainDeployer"),
            dup(TableKind::Orders, "buyETH"),
            dup(TableKind::Charts, "mainChart"),
            dup(TableKind::Deployments, "second-deployment"),
        ])
    );
}

#[test]
fn a_vault_id_that_is_no_literal_is_reported() {
    let mut raw = valid_document();
    raw.orders[0].1.inputs[1].vault_id = s("0xzz");
    raw.orders[0].1.outputs[0].vault_id = s("");
    let bad = |value: &str| ConfigError::InvalidNumericLiteral {
        field: FieldKind::OrderVaultId,
        value: s(value),
    };
    assert_eq!(resolve(&raw), Err(vec![bad("0xzz"), bad("")]));
    let mut over = valid_document();
    let text = "0x10000000000000000000000000000000000000000000000000000000000000000";
    over.orders[0].1.inputs[0].vault_id = s(text);
    assert_eq!(resolve(&over), Err(vec![bad(text)]));
}

#[test]
fn every_kind_of_reference_is_checked() {
    let mut raw = valid_document();
    raw.orderbooks[0].1.network = Some(s("n1"));
    raw.orderbooks[0].1.subgraph = Some(s("s1"));
    raw.tokens[1].1.network = s("n2");
    raw.deployers[1].1.network = Some(s("n3"));
    raw.orders[0].1.network = s("n4");
    raw.orders[0].1.deployer = Some(s("d1"));
    raw.orders[0].1.orderbook = Some(s("o1"));
    raw.orders[0].1.inputs[0].token = s("t1");
    raw.orders[0].1.outputs[0].token = s("t2");
    raw.scenarios[0].1.scenarios.as_mut().unwrap()[1].1.deployer = Some(s("d2"));
    raw.charts[0].1.scenario = Some(s("mainScenario.none"));
    raw.deployments[0].1.scenario = s("subScenario1");
    raw.deployments[0].1.order = s("buyeth");
    assert_eq!(
        resolve(&raw),
        Err(vec![
            unknown(TableKind::Networks, FieldKind::OrderbookNetwork, "n1"),
            unknown(TableKind::Subgraphs, FieldKind::OrderbookSubgraph, "s1"),
            unknown(TableKind::Networks, FieldKind::TokenNetwork, "n2"),
            unknown(TableKind::Networks, FieldKind::DeployerNetwork, "n3"),
            unknown(TableKind::Networks, FieldKind::OrderNetwork, "n4"),
            unknown(TableKind::Deployers, FieldKind::OrderDeployer, "d1"),
            unknown(TableKind::Orderbooks, FieldKind::OrderOrderbook, "o1"),
            unknown(TableKind::Tokens, FieldKind::OrderToken, "t1"),
            unknown(TableKind::Tokens, FieldKind::OrderToken, "t2"),
            unknown(TableKind::Deployers, FieldKind::ScenarioDeployer, "d2"),
            unknown(TableKind::Scenarios, FieldKind::ChartScenario, "mainScenario.none"),
            unknown(TableKind::Scenarios, FieldKind::DeploymentScenario, "subScenario1"),
            unknown(TableKind::Orders, FieldKind::DeploymentOrder, "buyeth"),
        ])
    );
}

#[test]
fn an_entry_with_a_defect_can_still_be_referred_to() {
    let mut raw = valid_document();
    raw.tokens[0].1.network = s("nowhere");
    assert_eq!(
        resolve(&raw),
        Err(vec![unknown(TableKind::Networks, FieldKind::TokenNetwork, "nowhere")])
    );
}

#[test]
fn optional_references_may_be_absent() {
    let mut raw = valid_document();
    raw.orderbooks[0].1.network = None;
    raw.orderbooks[0].1.subgraph = None;
    raw.deployers[0].1.network = None;
    raw.orders[0].1.deployer = None;
    raw.orders[0].1.orderbook = None;
    raw.charts[0].1.scenario = None;
    let config = resolve(&raw).unwrap();
    assert_eq!(config.orderbooks.records[0].network, None);
    assert_eq!(config.orderbooks.records[0].subgraph, None);
    assert_eq!(config.deployers.records[0].network, None);
    assert_eq!(config.orders.records[0].deployer, None);
    assert_eq!(config.orders.records[0].orderbook, None);
    assert_eq!(config.charts.records[0].scenario, None);
}

#[test]
fn a_chart_or_deployment_may_name_a_nested_scenario() {
    let mut raw = valid_document();
    raw.charts[0].1.scenario = Some(s("mainScenario.subScenario2"));
    raw.deployments[0].1.scenario = s("mainScenario.subScenario1");
    let config = resolve(&raw).unwrap();
    assert_eq!(config.charts.records[0].scenario, Some(2));
    assert_eq!(config.deployments.records[0].scenario, 1);
}

#[test]
fn the_empty_document_resolves_to_the_empty_configuration() {
    let config = resolve(&ConfigString::default()).unwrap();
    let empty = Config {
        networks: Table { names: vec![], records: vec![] },
        subgraphs: Table { names: vec![], records: vec![] },
        orderbooks: Table { names: vec![], records: vec![] },
        tokens: Table { names: vec![], records: vec![] },
        deployers: Table { names: vec![], records: vec![] },
        orders: Table { names: vec![], records: vec![] },
        scenarios: Table { names: vec![], records: vec![] },
        charts: Table { names: vec![], records: vec![] },
        deployments: Table { names: vec![], records: vec![] },
    };
    assert_eq!(config, empty);
    assert_eq!(config.networks.len(), 0);
}

#[test]
fn a_text_that_is_no_document_stops_the_assembly() {
    assert_eq!(
        assemble(Err(s("networks: invalid type at line 2 column 5"))),
        Err(vec![ConfigError::MalformedDocument {
            message: s("networks: invalid type at line 2 column 5"),
        }])
    );
}

#[test]
fn assembling_a_document_resolves_it() {
    assert_eq!(assemble(Ok(valid_document())), Ok(resolved()));
    assert_eq!(assemble(Ok(example_document())), resolve(&example_document()));
}

#[test]
fn a_table_is_searched_by_name_and_by_handle() {
    let config = resolved();
    assert_eq!(config.networks.len(), 2);
    assert_eq!(config.networks.find("testnet"), Some(1));
    assert_eq!(config.networks.find("Testnet"), None);
    assert_eq!(config.networks.find(""), None);
    assert_eq!(config.networks.get(1).map(|n| n.chain_id), Some(2));
    assert_eq!(config.networks.get(2), None);
    assert_eq!(config.networks.name(0), Some(&s("mainnet")));
    assert_eq!(config.networks.name(2), None);
    assert_eq!(config.networks.get_by_name("mainnet").map(|n| n.chain_id), Some(1));
    assert_eq!(config.networks.get_by_name("nonet"), None);
}

#[test]
fn a_scenario_tree_is_copied_whole() {
    let raw = example_document();
    let tree = &raw.scenarios[0].1;
    let copy = tree.duplicate();
    assert_eq!(&copy, tree);
    assert_eq!(&tree.clone(), tree);
    assert_eq!(copy.scenarios.as_ref().unwrap().len(), 2);
}
