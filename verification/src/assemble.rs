//! The config assembler: runs the resolvers in the order of their
//! dependencies and hands out either the whole resolved configuration or
//! every defect found, never a part of a configuration.

use crate::collect::{duplicate_errors, lemma_duplicates_none};
use crate::config::{Config, ConfigView, Table};
use crate::error::{errors_view, ConfigError, ConfigErrorView, TableKind};
use crate::lookup::names_view;
use crate::raw::{keys, ConfigString, ConfigStringView};
use crate::resolve::{
    charts_errors, deployers_errors, deployments_errors, orderbooks_errors, orders_errors,
    resolve_charts, resolve_deployers, resolve_deployments, resolve_networks, resolve_orderbooks,
    resolve_orders, resolve_subgraphs, resolve_tokens, resolved_chart, resolved_deployer,
    resolved_deployment, resolved_order, resolved_orderbook, resolved_token, tokens_errors,
};
use crate::scenario::{
    flat_names, flatten_all, resolve_scenarios, resolved_scenario, scenarios_errors,
    DEFAULT_MAX_DEPTH,
};
use vstd::prelude::*;

verus! {

/// The composite names of the flattened scenarios of a document.
pub open spec fn scenario_names(raw: ConfigStringView, max_depth: nat) -> Seq<Seq<char>> {
    flat_names(flatten_all(raw.scenarios, max_depth))
}

/// Every defect of a document, table by table in the order of resolution:
/// networks, subgraphs, orderbooks, tokens, deployers, orders, scenarios,
/// charts, deployments.
pub open spec fn document_errors(raw: ConfigStringView, max_depth: nat) -> Seq<ConfigErrorView> {
    let networks = keys(raw.networks);
    let subgraphs = keys(raw.subgraphs);
    let orderbooks = keys(raw.orderbooks);
    let tokens = keys(raw.tokens);
    let deployers = keys(raw.deployers);
    let orders = keys(raw.orders);
    let scenarios = scenario_names(raw, max_depth);
    duplicate_errors(TableKind::Networks, networks) + duplicate_errors(
        TableKind::Subgraphs,
        subgraphs,
    ) + orderbooks_errors(raw.orderbooks, networks, subgraphs) + tokens_errors(
        raw.tokens,
        networks,
    ) + deployers_errors(raw.deployers, networks) + orders_errors(
        raw.orders,
        networks,
        deployers,
        orderbooks,
        tokens,
    ) + scenarios_errors(raw.scenarios, max_depth, deployers) + charts_errors(
        raw.charts,
        scenarios,
    ) + deployments_errors(raw.deployments, scenarios, orders)
}

/// A document is valid when it has no defect.
pub open spec fn valid(raw: ConfigStringView, max_depth: nat) -> bool {
    document_errors(raw, max_depth).len() == 0
}

/// The configuration that a valid document resolves to: every table entry by
/// entry in the order written, the scenarios flattened, and every reference
/// replaced by the handle of the entry it names.
pub open spec fn resolved_config(raw: ConfigStringView, max_depth: nat) -> ConfigView {
    let networks = keys(raw.networks);
    let subgraphs = keys(raw.subgraphs);
    let orderbooks = keys(raw.orderbooks);
    let tokens = keys(raw.tokens);
    let deployers = keys(raw.deployers);
    let orders = keys(raw.orders);
    let flat = flatten_all(raw.scenarios, max_depth);
    let scenarios = flat_names(flat);
    ConfigView {
        networks: raw.networks,
        subgraphs: raw.subgraphs,
        orderbooks: Seq::new(
            raw.orderbooks.len(),
            |i: int|
                (
                    raw.orderbooks[i].0,
                    resolved_orderbook(raw.orderbooks[i].1, networks, subgraphs),
                ),
        ),
        tokens: Seq::new(
            raw.tokens.len(),
            |i: int| (raw.tokens[i].0, resolved_token(raw.tokens[i].1, networks)),
        ),
        deployers: Seq::new(
            raw.deployers.len(),
            |i: int| (raw.deployers[i].0, resolved_deployer(raw.deployers[i].1, networks)),
        ),
        orders: Seq::new(
            raw.orders.len(),
            |i: int|
                (
                    raw.orders[i].0,
                    resolved_order(raw.orders[i].1, networks, deployers, orderbooks, tokens),
                ),
        ),
        scenarios: Seq::new(flat.len(), |i: int| (flat[i].name, resolved_scenario(flat[i], deployers))),
        charts: Seq::new(
            raw.charts.len(),
            |i: int| (raw.charts[i].0, resolved_chart(raw.charts[i].1, scenarios)),
        ),
        deployments: Seq::new(
            raw.deployments.len(),
            |i: int|
                (
                    raw.deployments[i].0,
                    resolved_deployment(raw.deployments[i].1, scenarios, orders),
                ),
        ),
    }
}

/// What resolving a document returns: for a valid document its resolved
/// configuration, well formed; for any other, every defect in order.
pub open spec fn resolution(
    raw: ConfigStringView,
    max_depth: nat,
    r: Result<Config, Vec<ConfigError>>,
) -> bool {
    match r {
        Ok(config) => {
            &&& valid(raw, max_depth)
            &&& config.wf()
            &&& config@ == resolved_config(raw, max_depth)
        },
        Err(errors) => {
            &&& !valid(raw, max_depth)
            &&& errors_view(errors@) == document_errors(raw, max_depth)
        },
    }
}

/// Resolves a document, with scenarios nested at most `max_depth` levels
/// below a top-level scenario.
pub fn resolve_with_max_depth(raw: &ConfigString, max_depth: usize) -> (r: Result<
    Config,
    Vec<ConfigError>,
>)
    ensures
        resolution(raw@, max_depth as nat, r),
{
    let ghost rv = raw@;
    let ghost d = max_depth as nat;
    let mut errors: Vec<ConfigError> = Vec::new();
    assert(errors_view(errors@) =~= Seq::empty());
    let networks = resolve_networks(&raw.networks, &mut errors);
    let ghost e1 = errors_view(errors@);
    let subgraphs = resolve_subgraphs(&raw.subgraphs, &mut errors);
    let ghost e2 = errors_view(errors@);
    let orderbooks = resolve_orderbooks(
        &raw.orderbooks,
        &networks.names,
        &subgraphs.names,
        &mut errors,
    );
    let ghost e3 = errors_view(errors@);
    let tokens = resolve_tokens(&raw.tokens, &networks.names, &mut errors);
    let ghost e4 = errors_view(errors@);
    let deployers = resolve_deployers(&raw.deployers, &networks.names, &mut errors);
    let ghost e5 = errors_view(errors@);
    let orders = resolve_orders(
        &raw.orders,
        &networks.names,
        &deployers.names,
        &orderbooks.names,
        &tokens.names,
        &mut errors,
    );
    let ghost e6 = errors_view(errors@);
    let scenarios = resolve_scenarios(&raw.scenarios, &deployers.names, max_depth, &mut errors);
    let ghost e7 = errors_view(errors@);
    let charts = resolve_charts(&raw.charts, &scenarios.names, &mut errors);
    let ghost e8 = errors_view(errors@);
    let deployments = resolve_deployments(
        &raw.deployments,
        &scenarios.names,
        &orders.names,
        &mut errors,
    );
    proof {
        assert(names_view(scenarios.names@) == scenario_names(rv, d));
        assert(errors_view(errors@) =~= document_errors(rv, d));
        assert(errors_view(errors@).len() == errors@.len());
    }
    if errors.len() > 0 {
        return Err(errors);
    }
    proof {
        assert(e1.len() == 0 && e2.len() == 0 && e3.len() == 0 && e4.len() == 0 && e5.len() == 0
            && e6.len() == 0 && e7.len() == 0 && e8.len() == 0);
    }
    match (
        orderbooks.records,
        tokens.records,
        deployers.records,
        orders.records,
        scenarios.records,
        charts.records,
        deployments.records,
    ) {
        (
            Some(orderbook_records),
            Some(token_records),
            Some(deployer_records),
            Some(order_records),
            Some(scenario_records),
            Some(chart_records),
            Some(deployment_records),
        ) => {
            let config = Config {
                networks,
                subgraphs,
                orderbooks: Table { names: orderbooks.names, records: orderbook_records },
                tokens: Table { names: tokens.names, records: token_records },
                deployers: Table { names: deployers.names, records: deployer_records },
                orders: Table { names: orders.names, records: order_records },
                scenarios: Table { names: scenarios.names, records: scenario_records },
                charts: Table { names: charts.names, records: chart_records },
                deployments: Table { names: deployments.names, records: deployment_records },
            };
            proof {
                assert(e1.len() == 0 && e2.len() == 0 && e3.len() == 0 && e4.len() == 0 && e5.len() == 0
                    && e6.len() == 0 && e7.len() == 0 && e8.len() == 0);
                lemma_duplicates_none(TableKind::Networks, keys(rv.networks));
                lemma_duplicates_none(TableKind::Subgraphs, keys(rv.subgraphs));
                lemma_duplicates_none(TableKind::Orderbooks, keys(rv.orderbooks));
                lemma_duplicates_none(TableKind::Tokens, keys(rv.tokens));
                lemma_duplicates_none(TableKind::Deployers, keys(rv.deployers));
                lemma_duplicates_none(TableKind::Orders, keys(rv.orders));
                lemma_duplicates_none(TableKind::Scenarios, scenario_names(rv, d));
                lemma_duplicates_none(TableKind::Charts, keys(rv.charts));
                lemma_duplicates_none(TableKind::Deployments, keys(rv.deployments));
                let want = resolved_config(rv, d);
                assert(config@.networks =~= want.networks) by {
                    let records = crate::resolve::records_view(config.networks.records@);
                    assert(records.len() == rv.networks.len());
                    assert forall|i: int| 0 <= i < rv.networks.len() implies config@.networks[i]
                        == rv.networks[i] by {
                        assert(names_view(config.networks.names@)[i] == rv.networks[i].0);
                        assert(records[i] == rv.networks[i].1);
                    }
                }
                assert(config@.subgraphs =~= want.subgraphs) by {
                    let records = crate::resolve::records_view(config.subgraphs.records@);
                    assert(records.len() == rv.subgraphs.len());
                    assert forall|i: int| 0 <= i < rv.subgraphs.len() implies config@.subgraphs[i]
                        == rv.subgraphs[i] by {
                        assert(names_view(config.subgraphs.names@)[i] == rv.subgraphs[i].0);
                        assert(records[i] == rv.subgraphs[i].1);
                    }
                }
                assert(config@.orderbooks =~= want.orderbooks) by {
                    assert(config@.orderbooks.len() == want.orderbooks.len());
                    assert forall|i: int| 0 <= i < rv.orderbooks.len() implies config@.orderbooks[i] == want.orderbooks[i] by {
                        assert(names_view(config.orderbooks.names@)[i] == rv.orderbooks[i].0);
                        assert(rv.orderbooks[i].1 == raw.orderbooks@[i].1@);
                        let x = config.orderbooks.records@[i];
                        assert(config@.orderbooks[i].1 == x@);
                    }
                }
                assert(config@.tokens =~= want.tokens) by {
                    assert(config@.tokens.len() == want.tokens.len());
                    assert forall|i: int| 0 <= i < rv.tokens.len() implies config@.tokens[i] == want.tokens[i] by {
                        assert(names_view(config.tokens.names@)[i] == rv.tokens[i].0);
                        assert(rv.tokens[i].1 == raw.tokens@[i].1@);
                        let x = config.tokens.records@[i];
                        assert(config@.tokens[i].1 == x@);
                    }
                }
                assert(config@.deployers =~= want.deployers) by {
                    assert(config@.deployers.len() == want.deployers.len());
                    assert forall|i: int| 0 <= i < rv.deployers.len() implies config@.deployers[i] == want.deployers[i] by {
                        assert(names_view(config.deployers.names@)[i] == rv.deployers[i].0);
                        assert(rv.deployers[i].1 == raw.deployers@[i].1@);
                        let x = config.deployers.records@[i];
                        assert(config@.deployers[i].1 == x@);
                    }
                }
                assert(config@.orders =~= want.orders) by {
                    assert(config@.orders.len() == want.orders.len());
                    assert forall|i: int| 0 <= i < rv.orders.len() implies config@.orders[i] == want.orders[i] by {
                        assert(names_view(config.orders.names@)[i] == rv.orders[i].0);
                        assert(rv.orders[i].1 == raw.orders@[i].1@);
                        let x = config.orders.records@[i];
                        assert(config@.orders[i].1 == x@);
                    }
                }
                assert(config@.scenarios =~= want.scenarios) by {
                    let flat = flatten_all(rv.scenarios, d);
                    assert(names_view(config.scenarios.names@).len() == flat.len());
                    assert forall|i: int| 0 <= i < flat.len() implies config@.scenarios[i]
                        == want.scenarios[i] by {
                        assert(names_view(config.scenarios.names@)[i] == flat_names(flat)[i]);
                        let x = config.scenarios.records@[i];
                        assert(config@.scenarios[i].1 == x@);
                    }
                }
                assert(config@.charts =~= want.charts) by {
                    assert(config@.charts.len() == want.charts.len());
                    assert forall|i: int| 0 <= i < rv.charts.len() implies config@.charts[i] == want.charts[i] by {
                        assert(names_view(config.charts.names@)[i] == rv.charts[i].0);
                        assert(rv.charts[i].1 == raw.charts@[i].1@);
                        let x = config.charts.records@[i];
                        assert(config@.charts[i].1 == x@);
                    }
                }
                assert(config@.deployments =~= want.deployments) by {
                    assert(config@.deployments.len() == want.deployments.len());
                    assert forall|i: int| 0 <= i < rv.deployments.len() implies config@.deployments[i] == want.deployments[i] by {
                        assert(names_view(config.deployments.names@)[i] == rv.deployments[i].0);
                        assert(rv.deployments[i].1 == raw.deployments@[i].1@);
                        let x = config.deployments.records@[i];
                        assert(config@.deployments[i].1 == x@);
                    }
                }
                assert(config.networks.wf()) by {
                    assert(names_view(config.networks.names@).len() == config.networks.names@.len());
                    assert(crate::resolve::records_view(config.networks.records@).len()
                        == config.networks.records@.len());
                    assert(keys(rv.networks).len() == rv.networks.len());
                }
                assert(config.subgraphs.wf()) by {
                    assert(names_view(config.subgraphs.names@).len() == config.subgraphs.names@.len());
                    assert(crate::resolve::records_view(config.subgraphs.records@).len()
                        == config.subgraphs.records@.len());
                    assert(keys(rv.subgraphs).len() == rv.subgraphs.len());
                }
                assert(config.orderbooks.wf());
                assert(config.tokens.wf());
                assert(config.deployers.wf());
                assert(config.orders.wf());
                assert(config.scenarios.wf());
                assert(config.charts.wf());
                assert(config.deployments.wf());
                assert(config@.handles_in_range()) by {
                    let cv = config@;
                    assert forall|i: int| 0 <= i < cv.orderbooks.len() implies crate::config::orderbook_in_range((#[trigger] cv.orderbooks[i]).1, cv.networks.len(), cv.subgraphs.len()) by {
                        let x = config.orderbooks.records@[i];
                        assert(cv.orderbooks[i].1 == x@);
                    }
                    assert forall|i: int| 0 <= i < cv.tokens.len() implies crate::config::in_range((#[trigger] cv.tokens[i]).1.network, cv.networks.len()) by {
                        let x = config.tokens.records@[i];
                        assert(cv.tokens[i].1 == x@);
                    }
                    assert forall|i: int| 0 <= i < cv.deployers.len() implies crate::config::opt_in_range((#[trigger] cv.deployers[i]).1.network, cv.networks.len()) by {
                        let x = config.deployers.records@[i];
                        assert(cv.deployers[i].1 == x@);
                    }
                    assert forall|i: int| 0 <= i < cv.orders.len() implies crate::config::order_in_range((#[trigger] cv.orders[i]).1, cv.networks.len(), cv.deployers.len(), cv.orderbooks.len(), cv.tokens.len()) by {
                        let x = config.orders.records@[i];
                        assert(cv.orders[i].1 == x@);
                    }
                    assert forall|i: int| 0 <= i < cv.scenarios.len() implies crate::config::in_range((#[trigger] cv.scenarios[i]).1.deployer, cv.deployers.len()) by {
                        let x = config.scenarios.records@[i];
                        assert(cv.scenarios[i].1 == x@);
                    }
                    assert forall|i: int| 0 <= i < cv.charts.len() implies crate::config::opt_in_range((#[trigger] cv.charts[i]).1.scenario, cv.scenarios.len()) by {
                        let x = config.charts.records@[i];
                        assert(cv.charts[i].1 == x@);
                    }
                    assert forall|i: int| 0 <= i < cv.deployments.len() implies crate::config::deployment_in_range((#[trigger] cv.deployments[i]).1, cv.scenarios.len(), cv.orders.len()) by {
                        let x = config.deployments.records@[i];
                        assert(cv.deployments[i].1 == x@);
                    }
                }
                assert(config.wf());
            }
            Ok(config)
        },
        _ => Err(errors),
    }
}

/// Resolves a document, with scenarios nested at most [`DEFAULT_MAX_DEPTH`]
/// levels below a top-level scenario.
pub fn resolve(raw: &ConfigString) -> (r: Result<Config, Vec<ConfigError>>)
    ensures
        resolution(raw@, DEFAULT_MAX_DEPTH as nat, r),
{
    resolve_with_max_depth(raw, DEFAULT_MAX_DEPTH)
}

/// What assembling returns, given what reading the text gave: for a text
/// that is no settings document that one defect, and no other stage is run;
/// for a document, what resolving it returns.
pub open spec fn assembly(
    parsed: Result<ConfigString, String>,
    r: Result<Config, Vec<ConfigError>>,
) -> bool {
    match parsed {
        Ok(raw) => resolution(raw@, DEFAULT_MAX_DEPTH as nat, r),
        Err(message) => r matches Err(errors) && errors_view(errors@) == seq![
            ConfigErrorView::MalformedDocument { message: message@ },
        ],
    }
}

/// Assembles the configuration from what reading the text gave: the document,
/// or the message that says why the text is none.
pub fn assemble(parsed: Result<ConfigString, String>) -> (r: Result<Config, Vec<ConfigError>>)
    ensures
        assembly(parsed, r),
{
    match parsed {
        Ok(raw) => resolve(&raw),
        Err(message) => {
            let mut errors: Vec<ConfigError> = Vec::new();
            errors.push(ConfigError::MalformedDocument { message });
            assert(errors_view(errors@) =~= seq![
                ConfigErrorView::MalformedDocument { message: message@ },
            ]);
            Err(errors)
        },
    }
}

} // verus!
