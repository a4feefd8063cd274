use orderbook_settings::bindings::{lookup, overlay};
use orderbook_settings::collect::{check_duplicates, resolve_name, resolve_opt_name, table_names};
use orderbook_settings::error::{push_error, ConfigError, FieldKind, TableKind};
use orderbook_settings::lookup::find_name;
use orderbook_settings::raw::{clone_opt, clone_pairs, ScenarioString};
use orderbook_settings::scenario::{flatten_scenarios, Effective, FlatScenario, DEFAULT_RUNS};
use orderbook_settings::transaction::{CliTransactionArgs, TransactionArgs};

fn s(text: &str) -> String {
    text.to_string()
}

fn pairs(list: &[(&str, &str)]) -> Vec<(String, String)> {
    list.iter().map(|(k, v)| (s(k), s(v))).collect()
}

#[test]
fn transaction_args_carry_every_parameter_over() {
    let cli = CliTransactionArgs {
        orderbook_address: s("0x0000000000000000000000000000000000000123"),
        derivation_path: Some(3),
        chain_id: 137,
        rpc_url: s("https://polygon.node"),
    };
    let args: TransactionArgs = cli.clone().into();
    assert_eq!(
        args,
        TransactionArgs {
            orderbook_address: s("0x0000000000000000000000000000000000000123"),
            derivation_path: Some(3),
            chain_id: 137,
            rpc_url: s("https://polygon.node"),
        }
    );
    let plain = TransactionArgs::from(CliTransactionArgs { derivation_path: None, ..cli });
    assert_eq!(plain.derivation_path, None);
    assert_eq!(plain.chain_id, 137);
}

#[test]
fn the_first_of_equal_names_is_found() {
    let names = vec![s("a"), s("b"), s("a"), s("c")];
    assert_eq!(find_name(&names, "a"), Some(0));
    assert_eq!(find_name(&names, "b"), Some(1));
    assert_eq!(find_name(&names, "c"), Some(3));
    assert_eq!(find_name(&names, "d"), None);
    assert_eq!(find_name(&names, "A"), None);
    assert_eq!(find_name(&vec![], "a"), None);
}

#[test]
fn overlay_binds_in_place_or_appends() {
    let acc = overlay(&pairs(&[("x", "1"), ("y", "2")]), &pairs(&[("x", "9")]));
    assert_eq!(acc, pairs(&[("x", "9"), ("y", "2")]));
    let acc = overlay(&acc, &pairs(&[("z", "3")]));
    assert_eq!(acc, pairs(&[("x", "9"), ("y", "2"), ("z", "3")]));
    let acc = overlay(&acc, &pairs(&[("y", "7"), ("w", "0"), ("y", "8")]));
    assert_eq!(acc, pairs(&[("x", "9"), ("y", "8"), ("z", "3"), ("w", "0")]));
}

#[test]
fn overlay_prefers_the_scenarios_own_bindings() {
    let inherited = pairs(&[("x", "1"), ("y", "1")]);
    let own = pairs(&[("y", "2"), ("z", "2")]);
    let merged = overlay(&inherited, &own);
    assert_eq!(merged, pairs(&[("x", "1"), ("y", "2"), ("z", "2")]));
    assert_eq!(overlay(&inherited, &vec![]), inherited);
    assert_eq!(overlay(&vec![], &own), own);
    assert_eq!(overlay(&pairs(&[("x", "1"), ("x", "2")]), &vec![]), pairs(&[("x", "2")]));
    assert_eq!(lookup(&merged, "y"), Some(&s("2")));
    assert_eq!(lookup(&merged, "x"), Some(&s("1")));
    assert_eq!(lookup(&merged, "q"), None);
    let repeated = pairs(&[("x", "1"), ("y", "1"), ("x", "2")]);
    assert_eq!(lookup(&repeated, "x"), Some(&s("2")));
    assert_eq!(lookup(&repeated, "y"), Some(&s("1")));
    assert_eq!(lookup(&vec![], "x"), None);
}

#[test]
fn repeated_names_are_reported_in_order() {
    let names = vec![s("a"), s("b"), s("a"), s("b"), s("a")];
    let mut errors = vec![];
    check_duplicates(&names, TableKind::Tokens, &mut errors);
    let dup = |name: &str| ConfigError::DuplicateKey { table: TableKind::Tokens, name: s(name) };
    assert_eq!(errors, vec![dup("a"), dup("b"), dup("a")]);
    let mut clashes = vec![];
    check_duplicates(&names[..3].to_vec(), TableKind::Scenarios, &mut clashes);
    assert_eq!(clashes, vec![ConfigError::DuplicateScenarioName { name: s("a") }]);
    let mut none = vec![];
    check_duplicates(&vec![s("a"), s("b")], TableKind::Orders, &mut none);
    assert_eq!(none, vec![]);
}

#[test]
fn a_reference_resolves_or_is_reported() {
    let names = vec![s("mainnet"), s("testnet")];
    let mut errors = vec![ConfigError::MissingDeployer { scenario: s("earlier") }];
    assert_eq!(
        resolve_name(
            &names,
            &s("testnet"),
            TableKind::Networks,
            FieldKind::TokenNetwork,
            &mut errors
        ),
        Some(1)
    );
    assert_eq!(errors.len(), 1);
    assert_eq!(
        resolve_name(
            &names,
            &s("devnet"),
            TableKind::Networks,
            FieldKind::TokenNetwork,
            &mut errors
        ),
        None
    );
    assert_eq!(
        errors,
        vec![
            ConfigError::MissingDeployer { scenario: s("earlier") },
            ConfigError::UnknownReference {
                table: TableKind::Networks,
                field: FieldKind::TokenNetwork,
                name: s("devnet"),
            },
        ]
    );
    let mut none = vec![];
    assert_eq!(
        resolve_opt_name(
            &names,
            &None,
            TableKind::Networks,
            FieldKind::DeployerNetwork,
            &mut none
        ),
        None
    );
    assert_eq!(
        resolve_opt_name(
            &names,
            &Some(s("mainnet")),
            TableKind::Networks,
            FieldKind::DeployerNetwork,
            &mut none
        ),
        Some(0)
    );
    assert_eq!(none, vec![]);
}

#[test]
fn small_copies() {
    assert_eq!(clone_opt(&Some(s("a"))), Some(s("a")));
    assert_eq!(clone_opt(&None), None);
    assert_eq!(clone_pairs(&pairs(&[("a", "b"), ("c", "d")])), pairs(&[("a", "b"), ("c", "d")]));
    assert_eq!(table_names(&vec![(s("x"), 1u8), (s("y"), 2u8)]), vec![s("x"), s("y")]);
    let mut errors = vec![];
    push_error(&mut errors, ConfigError::MissingDeployer { scenario: s("a") });
    assert_eq!(errors, vec![ConfigError::MissingDeployer { scenario: s("a") }]);
}

#[test]
fn what_a_top_level_scenario_inherits() {
    let root = Effective::root();
    assert_eq!(root, Effective { bindings: vec![], runs: 1, deployer: None });
    assert_eq!(DEFAULT_RUNS, 1);
    assert_eq!(root.duplicate(), root);
}

#[test]
fn what_is_in_force_at_a_scenario() {
    let inherited =
        Effective { bindings: pairs(&[("x", "1")]), runs: 4, deployer: Some(s("d0")) };
    let node = |runs: Option<u64>, deployer: Option<&str>| ScenarioString {
        bindings: pairs(&[("y", "2")]),
        runs,
        deployer: deployer.map(s),
        scenarios: None,
    };
    let both = pairs(&[("x", "1"), ("y", "2")]);
    assert_eq!(
        inherited.inherit(&node(None, None)),
        Effective { bindings: both.clone(), runs: 4, deployer: Some(s("d0")) }
    );
    assert_eq!(
        inherited.inherit(&node(Some(9), Some("d1"))),
        Effective { bindings: both.clone(), runs: 9, deployer: Some(s("d1")) }
    );
    assert_eq!(
        Effective::root().inherit(&node(None, None)),
        Effective { bindings: pairs(&[("y", "2")]), runs: 1, deployer: None }
    );
    assert_eq!(inherited.duplicate(), inherited);
}

#[test]
fn flattening_walks_parents_before_children() {
    let leaf = |deployer: Option<&str>| ScenarioString {
        bindings: vec![],
        runs: None,
        deployer: deployer.map(s),
        scenarios: None,
    };
    let tree = vec![
        (
            s("a"),
            ScenarioString {
                bindings: pairs(&[("k", "v")]),
                runs: Some(5),
                deployer: Some(s("d1")),
                scenarios: Some(vec![(s("b"), leaf(None)), (s("c"), leaf(Some("d0")))]),
            },
        ),
        (s("z"), leaf(None)),
    ];
    let out = flatten_scenarios(&tree, 1);
    let entry = |name: &str, own: Option<&str>, b: &[(&str, &str)], runs, deployer: Option<&str>| {
        FlatScenario {
            name: s(name),
            own_deployer: own.map(s),
            effective: Effective { bindings: pairs(b), runs, deployer: deployer.map(s) },
            truncated: false,
        }
    };
    assert_eq!(
        out,
        vec![
            entry("a", Some("d1"), &[("k", "v")], 5, Some("d1")),
            entry("a.b", None, &[("k", "v")], 5, Some("d1")),
            entry("a.c", Some("d0"), &[("k", "v")], 5, Some("d0")),
            entry("z", None, &[], 1, None),
        ]
    );
    let shallow = flatten_scenarios(&tree, 0);
    let names: Vec<(&str, bool)> =
        shallow.iter().map(|f| (f.name.as_str(), f.truncated)).collect();
    assert_eq!(names, vec![("a", true), ("z", false)]);
    assert_eq!(flatten_scenarios(&vec![], 3), vec![]);
}
