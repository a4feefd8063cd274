//! What is reported and why: a defect is reported exactly when the document
//! has its cause.

use crate::assemble::{document_errors, scenario_names};
use crate::collect::{
    concat_upto, duplicate_error, duplicate_errors, lemma_concat_contains, lemma_concat_source,
    ref_errors, repeated_name, repeats,
};
use crate::error::{ConfigErrorView, FieldKind, TableKind};
use crate::laws::{
    effective_at, entry_at, ios_refer_to, law_invalid_vault_id_is_reported,
    law_nesting_beyond_the_limit_is_reported, law_repeated_name_is_reported,
    law_scenario_without_deployer_is_reported, law_unknown_reference_is_reported, leads,
    lemma_stage_reported, name_at, node_at, refers_to, stage_errors, table_keys,
};
use crate::literal::is_vault_id_literal;
use crate::lookup::has_name;
use crate::raw::{keys, ConfigStringView, IOStringView, ScenarioStringView};
use crate::resolve::{
    chart_errors, chart_errors_upto, deployer_errors, deployment_errors, io_errors, ios_errors,
    order_errors, orderbook_errors, token_errors, vault_id_errors,
};
use crate::scenario::{
    child_prefix, flat_entry, flat_names, flatten, flatten_all, root_effective, scenario_errors,
    EffectiveView,
};
use vstd::prelude::*;

verus! {

/// `name` occurs twice among `names`.
pub open spec fn name_repeats(names: Seq<Seq<char>>, name: Seq<char>) -> bool {
    exists|j: int| 0 <= j < names.len() && #[trigger] names[j] == name && repeats(names, j)
}

/// One of the inputs or outputs has the vault id `value`.
pub open spec fn ios_hold(ios: Seq<IOStringView>, value: Seq<char>) -> bool {
    exists|k: int| 0 <= k < ios.len() && (#[trigger] ios[k]).vault_id == value
}

/// The document has the cause of the defect:
/// - of a repeated key, a table or the plots of a chart that hold the name twice;
/// - of a clash of scenario names, two flattened scenarios of that name;
/// - of an unknown reference, a reference under that field to that name,
///   which the table that the field refers into does not have;
/// - of a missing deployer, a scenario of that name within the limit of
///   nesting at which no deployer is in force;
/// - of an invalid numeric literal, an input or output with that vault id,
///   which is no literal of a number below 2^256;
/// - of a scenario too deep, a scenario of that name at the limit of nesting
///   that has children.
/// Nothing in a document is the cause of its being malformed.
pub open spec fn caused(raw: ConfigStringView, max_depth: nat, e: ConfigErrorView) -> bool {
    match e {
        ConfigErrorView::MalformedDocument { .. } => false,
        ConfigErrorView::DuplicateKey { table, name } => if table == TableKind::Plots {
            exists|i: int|
                0 <= i < raw.charts.len() && name_repeats(
                    keys((#[trigger] raw.charts[i]).1.plots),
                    name,
                )
        } else {
            table != TableKind::Scenarios && name_repeats(table_keys(raw, max_depth, table), name)
        },
        ConfigErrorView::DuplicateScenarioName { name } => name_repeats(
            scenario_names(raw, max_depth),
            name,
        ),
        ConfigErrorView::UnknownReference { table, field, name } => {
            &&& field.target() == Some(table)
            &&& refers_to(raw, max_depth, field, name)
            &&& !has_name(table_keys(raw, max_depth, table), name)
        },
        ConfigErrorView::MissingDeployer { scenario } => exists|path: Seq<int>|
            leads(raw.scenarios, path) && path.len() <= max_depth + 1 && #[trigger] name_at(
                Seq::empty(),
                raw.scenarios,
                path,
            ) == scenario && effective_at(
                root_effective(),
                raw.scenarios,
                path,
            ).deployer is None,
        ConfigErrorView::InvalidNumericLiteral { field, value } => {
            &&& field == FieldKind::OrderVaultId
            &&& !is_vault_id_literal(value)
            &&& exists|i: int|
                0 <= i < raw.orders.len() && (ios_hold((#[trigger] raw.orders[i]).1.inputs, value)
                    || ios_hold(raw.orders[i].1.outputs, value))
        },
        ConfigErrorView::ScenarioTooDeep { scenario } => exists|path: Seq<int>|
            leads(raw.scenarios, path) && path.len() == max_depth + 1 && #[trigger] name_at(
                Seq::empty(),
                raw.scenarios,
                path,
            ) == scenario && node_at(raw.scenarios, path).scenarios.len() > 0,
    }
}

// ---------------------------------------------------- from a defect to its cause

/// What two lists together hold, one of them holds.
proof fn lemma_add_source<T>(a: Seq<T>, b: Seq<T>, e: T)
    requires
        (a + b).contains(e),
    ensures
        a.contains(e) || b.contains(e),
{
    let whole = a + b;
    let k = choose|k: int| 0 <= k < whole.len() && whole[k] == e;
    if k < a.len() {
        assert(a[k] == e);
    } else {
        assert(b[k - a.len()] == e);
    }
}

/// What a list of one holds is that one.
proof fn lemma_single<T>(x: T, e: T)
    requires
        seq![x].contains(e),
    ensures
        e == x,
{
    let s = seq![x];
    let k = choose|k: int| 0 <= k < s.len() && s[k] == e;
    assert(s[k] == x);
}

/// A repeated name that is reported occurs twice.
proof fn lemma_duplicate_source(table: TableKind, names: Seq<Seq<char>>, e: ConfigErrorView)
    requires
        duplicate_errors(table, names).contains(e),
    ensures
        exists|name: Seq<char>| e == repeated_name(table, name) && name_repeats(names, name),
{
    let f = |i: int| duplicate_error(table, names, i);
    let j = lemma_concat_source(f, names.len(), e);
    lemma_single(repeated_name(table, names[j]), e);
    assert(name_repeats(names, names[j]));
}

/// A reference that is reported dangles.
proof fn lemma_reference_source(
    table: TableKind,
    field: FieldKind,
    names: Seq<Seq<char>>,
    reference: Option<Seq<char>>,
    e: ConfigErrorView,
)
    requires
        ref_errors(table, field, names, reference).contains(e),
    ensures
        reference is Some,
        !has_name(names, reference->0),
        e == (ConfigErrorView::UnknownReference { table, field, name: reference->0 }),
{
    if reference is Some && !has_name(names, reference->0) {
        lemma_single(ConfigErrorView::UnknownReference { table, field, name: reference->0 }, e);
    } else {
        assert(ref_errors(table, field, names, reference).len() == 0);
    }
}

/// A defect of a list of inputs or outputs is an unknown token or an invalid
/// vault id of one of them.
proof fn lemma_ios_source(ios: Seq<IOStringView>, tokens: Seq<Seq<char>>, e: ConfigErrorView)
    requires
        ios_errors(ios, tokens).contains(e),
    ensures
        (exists|name: Seq<char>|
            ios_refer_to(ios, name) && !has_name(tokens, name) && e
                == (ConfigErrorView::UnknownReference {
                table: TableKind::Tokens,
                field: FieldKind::OrderToken,
                name,
            })) || (exists|value: Seq<char>|
            ios_hold(ios, value) && !is_vault_id_literal(value) && e
                == (ConfigErrorView::InvalidNumericLiteral {
                field: FieldKind::OrderVaultId,
                value,
            })),
{
    let f = |k: int| io_errors(ios[k], tokens);
    let k = lemma_concat_source(f, ios.len(), e);
    let io = ios[k];
    let of_token = ref_errors(TableKind::Tokens, FieldKind::OrderToken, tokens, Some(io.token));
    lemma_add_source(of_token, vault_id_errors(io.vault_id), e);
    if of_token.contains(e) {
        lemma_reference_source(TableKind::Tokens, FieldKind::OrderToken, tokens, Some(io.token), e);
        assert(ios_refer_to(ios, io.token));
    } else {
        if is_vault_id_literal(io.vault_id) {
            assert(vault_id_errors(io.vault_id).len() == 0);
        }
        lemma_single(
            ConfigErrorView::InvalidNumericLiteral {
                field: FieldKind::OrderVaultId,
                value: io.vault_id,
            },
            e,
        );
        assert(ios_hold(ios, io.vault_id));
    }
}

/// What the functions of a path give for a list of siblings, they give for
/// the list with one more sibling behind.
proof fn lemma_path_with_more_behind(
    inherited: EffectiveView,
    prefix: Seq<char>,
    nodes: Seq<(Seq<char>, ScenarioStringView)>,
    path: Seq<int>,
    depth_left: nat,
)
    requires
        nodes.len() > 0,
        leads(nodes.drop_last(), path),
    ensures
        leads(nodes, path),
        entry_at(inherited, prefix, nodes, path, depth_left) == entry_at(
            inherited,
            prefix,
            nodes.drop_last(),
            path,
            depth_left,
        ),
{
    assert(nodes.drop_last()[path[0]] == nodes[path[0]]);
}

/// The flattened table holds nothing but the scenarios of the tree: every
/// entry is that of a scenario that some path within the limit of nesting
/// leads to.
pub proof fn law_flattened_table_holds_only_scenarios(
    inherited: EffectiveView,
    prefix: Seq<char>,
    nodes: Seq<(Seq<char>, ScenarioStringView)>,
    depth_left: nat,
    k: int,
) -> (path: Seq<int>)
    requires
        0 <= k < flatten(inherited, prefix, nodes, depth_left).len(),
    ensures
        leads(nodes, path),
        path.len() <= depth_left + 1,
        flatten(inherited, prefix, nodes, depth_left)[k] == entry_at(
            inherited,
            prefix,
            nodes,
            path,
            depth_left,
        ),
    decreases depth_left, nodes.len(),
{
    let (name, node) = nodes.last();
    let entry = flat_entry(inherited, prefix, name, node, depth_left);
    let front = flatten(inherited, prefix, nodes.drop_last(), depth_left);
    let below = if depth_left == 0 {
        Seq::empty()
    } else {
        flatten(
            entry.effective,
            child_prefix(entry.name),
            node.scenarios,
            (depth_left - 1) as nat,
        )
    };
    let whole = flatten(inherited, prefix, nodes, depth_left);
    assert(nodes.len() > 0);
    assert(whole == front.push(entry) + below);
    if k < front.len() {
        let path = law_flattened_table_holds_only_scenarios(
            inherited,
            prefix,
            nodes.drop_last(),
            depth_left,
            k,
        );
        lemma_path_with_more_behind(inherited, prefix, nodes, path, depth_left);
        assert(whole[k] == front[k]);
        path
    } else if k == front.len() {
        let path = seq![nodes.len() - 1];
        assert(path[0] == nodes.len() - 1);
        assert(whole[k] == entry);
        path
    } else {
        let inner = k - front.len() - 1;
        assert(whole[k] == below[inner]);
        let rest = law_flattened_table_holds_only_scenarios(
            entry.effective,
            child_prefix(entry.name),
            node.scenarios,
            (depth_left - 1) as nat,
            inner,
        );
        let path = seq![nodes.len() - 1] + rest;
        assert(path[0] == nodes.len() - 1);
        assert(path.skip(1) =~= rest);
        path
    }
}

/// What the document reports, one of its stages reports.
proof fn lemma_stage_source(raw: ConfigStringView, max_depth: nat, e: ConfigErrorView) -> (table:
    TableKind)
    requires
        document_errors(raw, max_depth).contains(e),
    ensures
        stage_errors(raw, max_depth, table).contains(e),
        table != TableKind::Plots,
{
    let s1 = stage_errors(raw, max_depth, TableKind::Networks);
    let s2 = stage_errors(raw, max_depth, TableKind::Subgraphs);
    let s3 = stage_errors(raw, max_depth, TableKind::Orderbooks);
    let s4 = stage_errors(raw, max_depth, TableKind::Tokens);
    let s5 = stage_errors(raw, max_depth, TableKind::Deployers);
    let s6 = stage_errors(raw, max_depth, TableKind::Orders);
    let s7 = stage_errors(raw, max_depth, TableKind::Scenarios);
    let s8 = stage_errors(raw, max_depth, TableKind::Charts);
    let s9 = stage_errors(raw, max_depth, TableKind::Deployments);
    assert(document_errors(raw, max_depth) == s1 + s2 + s3 + s4 + s5 + s6 + s7 + s8 + s9);
    lemma_add_source(s1 + s2 + s3 + s4 + s5 + s6 + s7 + s8, s9, e);
    if s9.contains(e) {
        TableKind::Deployments
    } else {
        lemma_add_source(s1 + s2 + s3 + s4 + s5 + s6 + s7, s8, e);
        if s8.contains(e) {
            TableKind::Charts
        } else {
            lemma_add_source(s1 + s2 + s3 + s4 + s5 + s6, s7, e);
            if s7.contains(e) {
                TableKind::Scenarios
            } else {
                lemma_add_source(s1 + s2 + s3 + s4 + s5, s6, e);
                if s6.contains(e) {
                    TableKind::Orders
                } else {
                    lemma_add_source(s1 + s2 + s3 + s4, s5, e);
                    if s5.contains(e) {
                        TableKind::Deployers
                    } else {
                        lemma_add_source(s1 + s2 + s3, s4, e);
                        if s4.contains(e) {
                            TableKind::Tokens
                        } else {
                            lemma_add_source(s1 + s2, s3, e);
                            if s3.contains(e) {
                                TableKind::Orderbooks
                            } else {
                                lemma_add_source(s1, s2, e);
                                if s2.contains(e) {
                                    TableKind::Subgraphs
                                } else {
                                    TableKind::Networks
                                }
                            }
                        }
                    }
                }
            }
        }
    }
}

/// A defect that the orderbooks stage reports has its cause.
proof fn lemma_orderbooks_caused(raw: ConfigStringView, max_depth: nat, e: ConfigErrorView)
    requires
        stage_errors(raw, max_depth, TableKind::Orderbooks).contains(e),
    ensures
        caused(raw, max_depth, e),
{
    let networks = keys(raw.networks);
    let subgraphs = keys(raw.subgraphs);
    let f = |i: int| orderbook_errors(raw.orderbooks[i].1, networks, subgraphs);
    let dups = duplicate_errors(TableKind::Orderbooks, keys(raw.orderbooks));
    lemma_add_source(dups, concat_upto(f, raw.orderbooks.len()), e);
    if dups.contains(e) {
        lemma_duplicate_source(TableKind::Orderbooks, keys(raw.orderbooks), e);
    } else {
        let i = lemma_concat_source(f, raw.orderbooks.len(), e);
        let o = raw.orderbooks[i].1;
        let of_network = ref_errors(
            TableKind::Networks,
            FieldKind::OrderbookNetwork,
            networks,
            o.network,
        );
        let of_subgraph = ref_errors(
            TableKind::Subgraphs,
            FieldKind::OrderbookSubgraph,
            subgraphs,
            o.subgraph,
        );
        lemma_add_source(of_network, of_subgraph, e);
        if of_network.contains(e) {
            lemma_reference_source(
                TableKind::Networks,
                FieldKind::OrderbookNetwork,
                networks,
                o.network,
                e,
            );
            assert(raw.orderbooks[i].1.network == Some(o.network->0));
        } else {
            lemma_reference_source(
                TableKind::Subgraphs,
                FieldKind::OrderbookSubgraph,
                subgraphs,
                o.subgraph,
                e,
            );
            assert(raw.orderbooks[i].1.subgraph == Some(o.subgraph->0));
        }
    }
}

/// A defect that the tokens stage reports has its cause.
proof fn lemma_tokens_caused(raw: ConfigStringView, max_depth: nat, e: ConfigErrorView)
    requires
        stage_errors(raw, max_depth, TableKind::Tokens).contains(e),
    ensures
        caused(raw, max_depth, e),
{
    let networks = keys(raw.networks);
    let f = |i: int| token_errors(raw.tokens[i].1, networks);
    let dups = duplicate_errors(TableKind::Tokens, keys(raw.tokens));
    lemma_add_source(dups, concat_upto(f, raw.tokens.len()), e);
    if dups.contains(e) {
        lemma_duplicate_source(TableKind::Tokens, keys(raw.tokens), e);
    } else {
        let i = lemma_concat_source(f, raw.tokens.len(), e);
        let t = raw.tokens[i].1;
        lemma_reference_source(
            TableKind::Networks,
            FieldKind::TokenNetwork,
            networks,
            Some(t.network),
            e,
        );
        assert(raw.tokens[i].1.network == t.network);
    }
}

/// A defect that the deployers stage reports has its cause.
proof fn lemma_deployers_caused(raw: ConfigStringView, max_depth: nat, e: ConfigErrorView)
    requires
        stage_errors(raw, max_depth, TableKind::Deployers).contains(e),
    ensures
        caused(raw, max_depth, e),
{
    let networks = keys(raw.networks);
    let f = |i: int| deployer_errors(raw.deployers[i].1, networks);
    let dups = duplicate_errors(TableKind::Deployers, keys(raw.deployers));
    lemma_add_source(dups, concat_upto(f, raw.deployers.len()), e);
    if dups.contains(e) {
        lemma_duplicate_source(TableKind::Deployers, keys(raw.deployers), e);
    } else {
        let i = lemma_concat_source(f, raw.deployers.len(), e);
        let d = raw.deployers[i].1;
        lemma_reference_source(
            TableKind::Networks,
            FieldKind::DeployerNetwork,
            networks,
            d.network,
            e,
        );
        assert(raw.deployers[i].1.network == Some(d.network->0));
    }
}

/// A defect that the orders stage reports has its cause.
proof fn lemma_orders_caused(raw: ConfigStringView, max_depth: nat, e: ConfigErrorView)
    requires
        stage_errors(raw, max_depth, TableKind::Orders).contains(e),
    ensures
        caused(raw, max_depth, e),
{
    let networks = keys(raw.networks);
    let orderbooks = keys(raw.orderbooks);
    let tokens = keys(raw.tokens);
    let deployers = keys(raw.deployers);
    let f = |i: int| order_errors(raw.orders[i].1, networks, deployers, orderbooks, tokens);
    let dups = duplicate_errors(TableKind::Orders, keys(raw.orders));
    lemma_add_source(dups, concat_upto(f, raw.orders.len()), e);
    if dups.contains(e) {
        lemma_duplicate_source(TableKind::Orders, keys(raw.orders), e);
    } else {
        let i = lemma_concat_source(f, raw.orders.len(), e);
        let o = raw.orders[i].1;
        let of_network = ref_errors(
            TableKind::Networks,
            FieldKind::OrderNetwork,
            networks,
            Some(o.network),
        );
        let of_deployer = ref_errors(
            TableKind::Deployers,
            FieldKind::OrderDeployer,
            deployers,
            o.deployer,
        );
        let of_orderbook = ref_errors(
            TableKind::Orderbooks,
            FieldKind::OrderOrderbook,
            orderbooks,
            o.orderbook,
        );
        let of_inputs = ios_errors(o.inputs, tokens);
        let of_outputs = ios_errors(o.outputs, tokens);
        lemma_add_source(of_network + of_deployer + of_orderbook + of_inputs, of_outputs, e);
        if of_outputs.contains(e) {
            lemma_ios_source(o.outputs, tokens, e);
            assert(raw.orders[i].1.outputs == o.outputs);
        } else {
            lemma_add_source(of_network + of_deployer + of_orderbook, of_inputs, e);
            if of_inputs.contains(e) {
                lemma_ios_source(o.inputs, tokens, e);
                assert(raw.orders[i].1.inputs == o.inputs);
            } else {
                lemma_add_source(of_network + of_deployer, of_orderbook, e);
                if of_orderbook.contains(e) {
                    lemma_reference_source(
                        TableKind::Orderbooks,
                        FieldKind::OrderOrderbook,
                        orderbooks,
                        o.orderbook,
                        e,
                    );
                    assert(raw.orders[i].1.orderbook == Some(o.orderbook->0));
                } else {
                    lemma_add_source(of_network, of_deployer, e);
                    if of_deployer.contains(e) {
                        lemma_reference_source(
                            TableKind::Deployers,
                            FieldKind::OrderDeployer,
                            deployers,
                            o.deployer,
                            e,
                        );
                        assert(raw.orders[i].1.deployer == Some(o.deployer->0));
                    } else {
                        lemma_reference_source(
                            TableKind::Networks,
                            FieldKind::OrderNetwork,
                            networks,
                            Some(o.network),
                            e,
                        );
                        assert(raw.orders[i].1.network == o.network);
                    }
                }
            }
        }
    }
}

/// A defect that the scenarios stage reports has its cause.
proof fn lemma_scenarios_caused(raw: ConfigStringView, max_depth: nat, e: ConfigErrorView)
    requires
        stage_errors(raw, max_depth, TableKind::Scenarios).contains(e),
    ensures
        caused(raw, max_depth, e),
{
    let deployers = keys(raw.deployers);
    let flat = flatten_all(raw.scenarios, max_depth);
    let f = |k: int| scenario_errors(flat[k], deployers);
    let dups = duplicate_errors(TableKind::Scenarios, flat_names(flat));
    lemma_add_source(dups, concat_upto(f, flat.len()), e);
    if dups.contains(e) {
        lemma_duplicate_source(TableKind::Scenarios, flat_names(flat), e);
    } else {
        let k = lemma_concat_source(f, flat.len(), e);
        let path = law_flattened_table_holds_only_scenarios(
            root_effective(),
            Seq::empty(),
            raw.scenarios,
            max_depth,
            k,
        );
        let entry = flat[k];
        let too_deep = if entry.truncated {
            seq![ConfigErrorView::ScenarioTooDeep { scenario: entry.name }]
        } else {
            Seq::empty()
        };
        let of_deployer = ref_errors(
            TableKind::Deployers,
            FieldKind::ScenarioDeployer,
            deployers,
            entry.own_deployer,
        );
        let missing = if entry.effective.deployer is None {
            seq![ConfigErrorView::MissingDeployer { scenario: entry.name }]
        } else {
            Seq::empty()
        };
        let name = name_at(Seq::empty(), raw.scenarios, path);
        let node = node_at(raw.scenarios, path);
        assert(entry.name == name);
        lemma_add_source(too_deep + of_deployer, missing, e);
        if missing.contains(e) {
            if entry.effective.deployer is Some {
                assert(missing.len() == 0);
            }
            lemma_single(ConfigErrorView::MissingDeployer { scenario: entry.name }, e);
        } else {
            lemma_add_source(too_deep, of_deployer, e);
            if of_deployer.contains(e) {
                lemma_reference_source(
                    TableKind::Deployers,
                    FieldKind::ScenarioDeployer,
                    deployers,
                    entry.own_deployer,
                    e,
                );
                assert(node.deployer == Some(entry.own_deployer->0));
            } else {
                if !entry.truncated {
                    assert(too_deep.len() == 0);
                }
                lemma_single(ConfigErrorView::ScenarioTooDeep { scenario: entry.name }, e);
            }
        }
    }
}

/// A defect that the charts stage reports has its cause.
proof fn lemma_charts_caused(raw: ConfigStringView, max_depth: nat, e: ConfigErrorView)
    requires
        stage_errors(raw, max_depth, TableKind::Charts).contains(e),
    ensures
        caused(raw, max_depth, e),
{
    let scenarios = scenario_names(raw, max_depth);
    let f = |i: int| chart_errors(raw.charts[i].1, scenarios);
    let dups = duplicate_errors(TableKind::Charts, keys(raw.charts));
    lemma_add_source(dups, concat_upto(f, raw.charts.len()), e);
    if dups.contains(e) {
        lemma_duplicate_source(TableKind::Charts, keys(raw.charts), e);
    } else {
        let i = lemma_concat_source(f, raw.charts.len(), e);
        let c = raw.charts[i].1;
        let of_scenario = ref_errors(
            TableKind::Scenarios,
            FieldKind::ChartScenario,
            scenarios,
            c.scenario,
        );
        let of_plots = duplicate_errors(TableKind::Plots, keys(c.plots));
        lemma_add_source(of_scenario, of_plots, e);
        if of_scenario.contains(e) {
            lemma_reference_source(
                TableKind::Scenarios,
                FieldKind::ChartScenario,
                scenarios,
                c.scenario,
                e,
            );
            assert(raw.charts[i].1.scenario == Some(c.scenario->0));
        } else {
            lemma_duplicate_source(TableKind::Plots, keys(c.plots), e);
            assert(keys(raw.charts[i].1.plots) == keys(c.plots));
        }
    }
}

/// A defect that the deployments stage reports has its cause.
proof fn lemma_deployments_caused(raw: ConfigStringView, max_depth: nat, e: ConfigErrorView)
    requires
        stage_errors(raw, max_depth, TableKind::Deployments).contains(e),
    ensures
        caused(raw, max_depth, e),
{
    let scenarios = scenario_names(raw, max_depth);
    let orders = keys(raw.orders);
    let f = |i: int| deployment_errors(raw.deployments[i].1, scenarios, orders);
    let dups = duplicate_errors(TableKind::Deployments, keys(raw.deployments));
    lemma_add_source(dups, concat_upto(f, raw.deployments.len()), e);
    if dups.contains(e) {
        lemma_duplicate_source(TableKind::Deployments, keys(raw.deployments), e);
    } else {
        let i = lemma_concat_source(f, raw.deployments.len(), e);
        let d = raw.deployments[i].1;
        let of_scenario = ref_errors(
            TableKind::Scenarios,
            FieldKind::DeploymentScenario,
            scenarios,
            Some(d.scenario),
        );
        let of_order = ref_errors(
            TableKind::Orders,
            FieldKind::DeploymentOrder,
            orders,
            Some(d.order),
        );
        lemma_add_source(of_scenario, of_order, e);
        if of_scenario.contains(e) {
            lemma_reference_source(
                TableKind::Scenarios,
                FieldKind::DeploymentScenario,
                scenarios,
                Some(d.scenario),
                e,
            );
            assert(raw.deployments[i].1.scenario == d.scenario);
        } else {
            lemma_reference_source(
                TableKind::Orders,
                FieldKind::DeploymentOrder,
                orders,
                Some(d.order),
                e,
            );
            assert(raw.deployments[i].1.order == d.order);
        }
    }
}

/// Every defect that is reported has its cause in the document.
pub proof fn law_reported_defects_are_caused(
    raw: ConfigStringView,
    max_depth: nat,
    e: ConfigErrorView,
)
    requires
        document_errors(raw, max_depth).contains(e),
    ensures
        caused(raw, max_depth, e),
{
    let table = lemma_stage_source(raw, max_depth, e);
    match table {
        TableKind::Networks => {
            lemma_duplicate_source(TableKind::Networks, keys(raw.networks), e);
        },
        TableKind::Subgraphs => {
            lemma_duplicate_source(TableKind::Subgraphs, keys(raw.subgraphs), e);
        },
        TableKind::Orderbooks => {
            lemma_orderbooks_caused(raw, max_depth, e);
        },
        TableKind::Tokens => {
            lemma_tokens_caused(raw, max_depth, e);
        },
        TableKind::Deployers => {
            lemma_deployers_caused(raw, max_depth, e);
        },
        TableKind::Orders => {
            lemma_orders_caused(raw, max_depth, e);
        },
        TableKind::Scenarios => {
            lemma_scenarios_caused(raw, max_depth, e);
        },
        TableKind::Charts => {
            lemma_charts_caused(raw, max_depth, e);
        },
        TableKind::Plots => {},
        TableKind::Deployments => {
            lemma_deployments_caused(raw, max_depth, e);
        },
    }
}

/// Every defect whose cause the document has is reported.
pub proof fn law_caused_defects_are_reported(
    raw: ConfigStringView,
    max_depth: nat,
    e: ConfigErrorView,
)
    requires
        caused(raw, max_depth, e),
    ensures
        document_errors(raw, max_depth).contains(e),
{
    match e {
        ConfigErrorView::MalformedDocument { .. } => {},
        ConfigErrorView::DuplicateKey { table, name } => {
            if table == TableKind::Plots {
                let scenarios = scenario_names(raw, max_depth);
                let i = choose|i: int|
                    0 <= i < raw.charts.len() && name_repeats(
                        keys((#[trigger] raw.charts[i]).1.plots),
                        name,
                    );
                let names = keys(raw.charts[i].1.plots);
                let j = choose|j: int|
                    0 <= j < names.len() && #[trigger] names[j] == name && repeats(names, j);
                let g = |k: int| duplicate_error(TableKind::Plots, names, k);
                assert(g(j)[0] == e);
                lemma_concat_contains(g, names.len(), j, e);
                let of_scenario = ref_errors(
                    TableKind::Scenarios,
                    FieldKind::ChartScenario,
                    scenarios,
                    raw.charts[i].1.scenario,
                );
                let of_plots = duplicate_errors(TableKind::Plots, names);
                assert((of_scenario + of_plots)[of_scenario.len() + (choose|k: int|
                    0 <= k < of_plots.len() && of_plots[k] == e)] == e);
                let f = |i: int| chart_errors(raw.charts[i].1, scenarios);
                lemma_concat_contains(f, raw.charts.len(), i, e);
                let dups = duplicate_errors(TableKind::Charts, keys(raw.charts));
                let entries = chart_errors_upto(raw.charts, scenarios, raw.charts.len());
                assert((dups + entries)[dups.len() + (choose|k: int|
                    0 <= k < entries.len() && entries[k] == e)] == e);
                lemma_stage_reported(raw, max_depth, TableKind::Charts, e);
            } else {
                let names = table_keys(raw, max_depth, table);
                let j = choose|j: int|
                    0 <= j < names.len() && #[trigger] names[j] == name && repeats(names, j);
                let i = choose|i: int| 0 <= i < j && #[trigger] names[i] == names[j];
                law_repeated_name_is_reported(raw, max_depth, table, i, j);
            }
        },
        ConfigErrorView::DuplicateScenarioName { name } => {
            let names = scenario_names(raw, max_depth);
            let j = choose|j: int|
                0 <= j < names.len() && #[trigger] names[j] == name && repeats(names, j);
            let i = choose|i: int| 0 <= i < j && #[trigger] names[i] == names[j];
            law_repeated_name_is_reported(raw, max_depth, TableKind::Scenarios, i, j);
        },
        ConfigErrorView::UnknownReference { table, field, name } => {
            law_unknown_reference_is_reported(raw, max_depth, field, name);
        },
        ConfigErrorView::MissingDeployer { scenario } => {
            let path = choose|path: Seq<int>|
                leads(raw.scenarios, path) && path.len() <= max_depth + 1 && #[trigger] name_at(
                    Seq::empty(),
                    raw.scenarios,
                    path,
                ) == scenario && effective_at(
                    root_effective(),
                    raw.scenarios,
                    path,
                ).deployer is None;
            law_scenario_without_deployer_is_reported(raw, max_depth, path);
        },
        ConfigErrorView::InvalidNumericLiteral { field, value } => {
            let i = choose|i: int|
                0 <= i < raw.orders.len() && (ios_hold((#[trigger] raw.orders[i]).1.inputs, value)
                    || ios_hold(raw.orders[i].1.outputs, value));
            let input = ios_hold(raw.orders[i].1.inputs, value);
            let ios = if input {
                raw.orders[i].1.inputs
            } else {
                raw.orders[i].1.outputs
            };
            let k = choose|k: int| 0 <= k < ios.len() && (#[trigger] ios[k]).vault_id == value;
            law_invalid_vault_id_is_reported(raw, max_depth, i, input, k);
        },
        ConfigErrorView::ScenarioTooDeep { scenario } => {
            let path = choose|path: Seq<int>|
                leads(raw.scenarios, path) && path.len() == max_depth + 1 && #[trigger] name_at(
                    Seq::empty(),
                    raw.scenarios,
                    path,
                ) == scenario && node_at(raw.scenarios, path).scenarios.len() > 0;
            law_nesting_beyond_the_limit_is_reported(raw, max_depth, path);
        },
    }
}

/// The defects reported are exactly those whose cause the document has.
pub proof fn law_defects_are_exactly_the_caused(
    raw: ConfigStringView,
    max_depth: nat,
    e: ConfigErrorView,
)
    ensures
        document_errors(raw, max_depth).contains(e) <==> caused(raw, max_depth, e),
{
    if document_errors(raw, max_depth).contains(e) {
        law_reported_defects_are_caused(raw, max_depth, e);
    }
    if caused(raw, max_depth, e) {
        law_caused_defects_are_reported(raw, max_depth, e);
    }
}

} // verus!
