use orderbook_settings::config::{Chart, Deployer, Deployment, Orderbook, Resolved, Scenario, Token};
use orderbook_settings::config::{OrderIO, Table};
use orderbook_settings::error::{ConfigError, FieldKind, TableKind};
use orderbook_settings::literal::VaultId;
use orderbook_settings::raw::{
    ChartString, DataPointsString, DeployerString, DeploymentString, IOString, NetworkString,
    OrderbookString, PlotString, ScenarioString, TokenString,
};
use orderbook_settings::resolve::{
    copy_network, copy_plots, resolve_chart, resolve_charts, resolve_deployer, resolve_deployers,
    resolve_deployment, resolve_deployments, resolve_io, resolve_ios, resolve_networks,
    resolve_orderbook, resolve_orderbooks, resolve_subgraphs, resolve_token, resolve_tokens,
};
use orderbook_settings::scenario::resolve_scenarios;

fn s(text: &str) -> String {
    text.to_string()
}

fn names(list: &[&str]) -> Vec<String> {
    list.iter().map(|n| s(n)).collect()
}

fn unknown(table: TableKind, field: FieldKind, name: &str) -> ConfigError {
    ConfigError::UnknownReference { table, field, name: s(name) }
}

fn token(network: &str, last: u8) -> TokenString {
    let mut address = [0u8; 20];
    address[19] = last;
    TokenString { network: s(network), address, decimals: Some(6), label: None, symbol: None }
}

#[test]
fn networks_are_carried_over_whole() {
    let net = |rpc: &str, chain_id| NetworkString {
        rpc: s(rpc),
        chain_id,
        label: None,
        network_id: Some(chain_id + 1),
        currency: Some(s("ETH")),
    };
    let raw = vec![(s("a"), net("https://a", 1)), (s("b"), net("https://b", 2))];
    let mut errors = vec![];
    let out = resolve_networks(&raw, &mut errors);
    assert_eq!(errors, vec![]);
    assert_eq!(
        out,
        Table { names: names(&["a", "b"]), records: vec![net("https://a", 1), net("https://b", 2)] }
    );
    assert_eq!(copy_network(&raw[1].1), raw[1].1);
}

#[test]
fn subgraphs_are_carried_over_whole() {
    let raw = vec![(s("a"), s("https://a")), (s("a"), s("https://b"))];
    let mut errors = vec![];
    let out = resolve_subgraphs(&raw, &mut errors);
    assert_eq!(
        errors,
        vec![ConfigError::DuplicateKey { table: TableKind::Subgraphs, name: s("a") }]
    );
    assert_eq!(out, Table { names: names(&["a", "a"]), records: names(&["https://a", "https://b"]) });
}

#[test]
fn a_token_resolves_to_the_handle_of_its_network() {
    let networks = names(&["mainnet", "testnet"]);
    let mut errors = vec![];
    let t = token("testnet", 7);
    assert_eq!(
        resolve_token(&t, &networks, &mut errors),
        Some(Token {
            network: 1,
            address: t.address,
            decimals: Some(6),
            label: None,
            symbol: None,
        })
    );
    assert_eq!(resolve_token(&token("devnet", 7), &networks, &mut errors), None);
    assert_eq!(errors, vec![unknown(TableKind::Networks, FieldKind::TokenNetwork, "devnet")]);
}

#[test]
fn a_table_with_a_defect_gives_its_names_and_no_records() {
    let networks = names(&["mainnet"]);
    let raw = vec![
        (s("eth"), token("mainnet", 1)),
        (s("dai"), token("nowhere", 2)),
        (s("usdc"), token("mainnet", 3)),
    ];
    let mut errors = vec![];
    let out = resolve_tokens(&raw, &networks, &mut errors);
    assert_eq!(out, Resolved { names: names(&["eth", "dai", "usdc"]), records: None });
    assert_eq!(errors, vec![unknown(TableKind::Networks, FieldKind::TokenNetwork, "nowhere")]);
}

#[test]
fn a_table_with_a_repeated_name_still_gives_its_records() {
    let networks = names(&["mainnet"]);
    let raw = vec![(s("eth"), token("mainnet", 1)), (s("eth"), token("mainnet", 2))];
    let mut errors = vec![];
    let out = resolve_tokens(&raw, &networks, &mut errors);
    assert_eq!(out.names, names(&["eth", "eth"]));
    assert_eq!(out.records.map(|r| r.len()), Some(2));
    assert_eq!(errors, vec![ConfigError::DuplicateKey { table: TableKind::Tokens, name: s("eth") }]);
}

#[test]
fn orderbooks_and_deployers_resolve_their_optional_references() {
    let networks = names(&["mainnet", "testnet"]);
    let subgraphs = names(&["sg"]);
    let book = OrderbookString {
        address: [1; 20],
        network: Some(s("testnet")),
        subgraph: None,
        label: Some(s("book")),
    };
    let mut errors = vec![];
    let resolved = resolve_orderbook(&book, &networks, &subgraphs, &mut errors);
    let expected =
        Orderbook { address: [1; 20], network: Some(1), subgraph: None, label: Some(s("book")) };
    assert_eq!(resolved, Some(expected.clone()));
    let out = resolve_orderbooks(&vec![(s("b"), book)], &networks, &subgraphs, &mut errors);
    assert_eq!(out, Resolved { names: names(&["b"]), records: Some(vec![expected]) });

    let dep = DeployerString { address: [2; 20], network: Some(s("mainnet")), label: None };
    let expected = Deployer { address: [2; 20], network: Some(0), label: None };
    assert_eq!(resolve_deployer(&dep, &networks, &mut errors), Some(expected.clone()));
    let out = resolve_deployers(&vec![(s("d"), dep)], &networks, &mut errors);
    assert_eq!(out, Resolved { names: names(&["d"]), records: Some(vec![expected]) });
    assert_eq!(errors, vec![]);
}

#[test]
fn inputs_resolve_together_or_not_at_all() {
    let tokens = names(&["eth", "dai"]);
    let io = |token: &str, vault_id: &str| IOString { token: s(token), vault_id: s(vault_id) };
    let mut errors = vec![];
    assert_eq!(
        resolve_io(&io("dai", "0x10"), &tokens, &mut errors),
        Some(OrderIO { token: 1, vault_id: VaultId { limbs: [16, 0, 0, 0] } })
    );
    assert_eq!(
        resolve_ios(&vec![io("eth", "1"), io("dai", "2")], &tokens, &mut errors),
        Some(vec![
            OrderIO { token: 0, vault_id: VaultId { limbs: [1, 0, 0, 0] } },
            OrderIO { token: 1, vault_id: VaultId { limbs: [2, 0, 0, 0] } },
        ])
    );
    assert_eq!(resolve_ios(&vec![], &tokens, &mut errors), Some(vec![]));
    assert_eq!(errors, vec![]);
    assert_eq!(resolve_ios(&vec![io("eth", "1"), io("btc", "two")], &tokens, &mut errors), None);
    assert_eq!(
        errors,
        vec![
            unknown(TableKind::Tokens, FieldKind::OrderToken, "btc"),
            ConfigError::InvalidNumericLiteral { field: FieldKind::OrderVaultId, value: s("two") },
        ]
    );
}

#[test]
fn charts_and_deployments_resolve_against_flattened_names() {
    let scenarios = names(&["a", "a.b"]);
    let orders = names(&["buy"]);
    let plot = PlotString {
        data: DataPointsString { x: s("x"), y: s("y") },
        plot_type: s("line"),
    };
    let plots = vec![(s("p"), plot)];
    assert_eq!(copy_plots(&plots), plots);
    let chart = ChartString { scenario: Some(s("a.b")), plots: plots.clone() };
    let mut errors = vec![];
    let expected = Chart { scenario: Some(1), plots };
    assert_eq!(resolve_chart(&chart, &scenarios, &mut errors), Some(expected.clone()));
    assert_eq!(
        resolve_charts(&vec![(s("c"), chart)], &scenarios, &mut errors),
        Resolved { names: names(&["c"]), records: Some(vec![expected]) }
    );
    let dep = DeploymentString { scenario: s("a"), order: s("buy") };
    let expected = Deployment { scenario: 0, order: 0 };
    assert_eq!(resolve_deployment(&dep, &scenarios, &orders, &mut errors), Some(expected));
    assert_eq!(
        resolve_deployments(&vec![(s("d"), dep)], &scenarios, &orders, &mut errors),
        Resolved { names: names(&["d"]), records: Some(vec![expected]) }
    );
    assert_eq!(errors, vec![]);
    let bad = DeploymentString { scenario: s("b"), order: s("sell") };
    assert_eq!(resolve_deployment(&bad, &scenarios, &orders, &mut errors), None);
    assert_eq!(
        errors,
        vec![
            unknown(TableKind::Scenarios, FieldKind::DeploymentScenario, "b"),
            unknown(TableKind::Orders, FieldKind::DeploymentOrder, "sell"),
        ]
    );
}

#[test]
fn scenarios_flatten_into_a_table() {
    let leaf = ScenarioString {
        bindings: vec![(s("k"), s("2"))],
        runs: None,
        deployer: None,
        scenarios: None,
    };
    let raw = vec![(
        s("a"),
        ScenarioString {
            bindings: vec![(s("k"), s("1"))],
            runs: Some(2),
            deployer: Some(s("d")),
            scenarios: Some(vec![(s("b"), leaf)]),
        },
    )];
    let deployers = names(&["d"]);
    let mut errors = vec![];
    let out = resolve_scenarios(&raw, &deployers, 8, &mut errors);
    assert_eq!(errors, vec![]);
    assert_eq!(
        out,
        Resolved {
            names: names(&["a", "a.b"]),
            records: Some(vec![
                Scenario { bindings: vec![(s("k"), s("1"))], runs: 2, deployer: 0 },
                Scenario { bindings: vec![(s("k"), s("2"))], runs: 2, deployer: 0 },
            ]),
        }
    );
    let out = resolve_scenarios(&raw, &deployers, 0, &mut errors);
    assert_eq!(out, Resolved { names: names(&["a"]), records: None });
    assert_eq!(errors, vec![ConfigError::ScenarioTooDeep { scenario: s("a") }]);
}
