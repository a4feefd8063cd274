//! Which documents are valid, said without the list of defects: a document
//! has no defect exactly when every table has distinct names, every
//! reference names an entry, every vault id is a literal of a number below
//! 2^256, and every flattened scenario lies within the limit of nesting and
//! has a deployer.

use crate::assemble::valid;
use crate::collect::{dangles, lemma_concat_empty, lemma_duplicates_none};
use crate::error::TableKind;
use crate::literal::is_vault_id_literal;
use crate::lookup::{distinct, has_name};
use crate::raw::{
    keys, ChartStringView, ConfigStringView, DeployerStringView, DeploymentStringView, IOStringView,
    OrderStringView, OrderbookStringView, TokenStringView,
};
use crate::resolve::{
    chart_errors, chart_errors_upto, charts_errors, deployer_errors, deployer_errors_upto,
    deployers_errors, deployment_errors, deployment_errors_upto, deployments_errors, io_errors,
    ios_errors, order_errors, order_errors_upto, orderbook_errors, orderbook_errors_upto,
    orderbooks_errors, orders_errors, token_errors, token_errors_upto, tokens_errors,
};
use crate::scenario::{
    flat_errors, flat_names, flatten_all, scenario_errors, scenario_errors_upto, FlatScenarioView,
};
use vstd::prelude::*;

verus! {

/// Both references of an orderbook, where present, name an entry.
pub open spec fn orderbook_sound(
    o: OrderbookStringView,
    networks: Seq<Seq<char>>,
    subgraphs: Seq<Seq<char>>,
) -> bool {
    !dangles(networks, o.network) && !dangles(subgraphs, o.subgraph)
}

/// The token of an input or output names an entry, and its vault id is a
/// literal of a number below 2^256.
pub open spec fn io_sound(io: IOStringView, tokens: Seq<Seq<char>>) -> bool {
    has_name(tokens, io.token) && is_vault_id_literal(io.vault_id)
}

/// Every input or output of a list is sound.
pub open spec fn ios_sound(ios: Seq<IOStringView>, tokens: Seq<Seq<char>>) -> bool {
    forall|k: int| 0 <= k < ios.len() ==> io_sound(#[trigger] ios[k], tokens)
}

/// Every reference of an order names an entry, and its inputs and outputs
/// are sound.
pub open spec fn order_sound(
    o: OrderStringView,
    networks: Seq<Seq<char>>,
    deployers: Seq<Seq<char>>,
    orderbooks: Seq<Seq<char>>,
    tokens: Seq<Seq<char>>,
) -> bool {
    &&& has_name(networks, o.network)
    &&& !dangles(deployers, o.deployer)
    &&& !dangles(orderbooks, o.orderbook)
    &&& ios_sound(o.inputs, tokens)
    &&& ios_sound(o.outputs, tokens)
}

/// A flattened scenario lies within the limit of nesting with all its
/// children, the deployer it names is an entry, and it or an ancestor names
/// a deployer.
pub open spec fn scenario_sound(f: FlatScenarioView, deployers: Seq<Seq<char>>) -> bool {
    &&& !f.truncated
    &&& !dangles(deployers, f.own_deployer)
    &&& f.effective.deployer is Some
}

/// The scenario of a chart, where present, names a flattened scenario, and
/// its plots have distinct names.
pub open spec fn chart_sound(c: ChartStringView, scenarios: Seq<Seq<char>>) -> bool {
    !dangles(scenarios, c.scenario) && distinct(keys(c.plots))
}

/// The scenario and the order of a deployment each name an entry.
pub open spec fn deployment_sound(
    d: DeploymentStringView,
    scenarios: Seq<Seq<char>>,
    orders: Seq<Seq<char>>,
) -> bool {
    has_name(scenarios, d.scenario) && has_name(orders, d.order)
}

/// The document is sound: every table has distinct names and every entry is
/// sound.
pub open spec fn sound(raw: ConfigStringView, max_depth: nat) -> bool {
    let networks = keys(raw.networks);
    let subgraphs = keys(raw.subgraphs);
    let orderbooks = keys(raw.orderbooks);
    let tokens = keys(raw.tokens);
    let deployers = keys(raw.deployers);
    let orders = keys(raw.orders);
    let flat = flatten_all(raw.scenarios, max_depth);
    let scenarios = flat_names(flat);
    &&& distinct(networks)
    &&& distinct(subgraphs)
    &&& distinct(orderbooks)
    &&& distinct(tokens)
    &&& distinct(deployers)
    &&& distinct(orders)
    &&& distinct(scenarios)
    &&& distinct(keys(raw.charts))
    &&& distinct(keys(raw.deployments))
    &&& forall|i: int|
        0 <= i < raw.orderbooks.len() ==> orderbook_sound(
            (#[trigger] raw.orderbooks[i]).1,
            networks,
            subgraphs,
        )
    &&& forall|i: int|
        0 <= i < raw.tokens.len() ==> has_name(networks, (#[trigger] raw.tokens[i]).1.network)
    &&& forall|i: int|
        0 <= i < raw.deployers.len() ==> !dangles(
            networks,
            (#[trigger] raw.deployers[i]).1.network,
        )
    &&& forall|i: int|
        0 <= i < raw.orders.len() ==> order_sound(
            (#[trigger] raw.orders[i]).1,
            networks,
            deployers,
            orderbooks,
            tokens,
        )
    &&& forall|k: int| 0 <= k < flat.len() ==> scenario_sound(#[trigger] flat[k], deployers)
    &&& forall|i: int|
        0 <= i < raw.charts.len() ==> chart_sound((#[trigger] raw.charts[i]).1, scenarios)
    &&& forall|i: int|
        0 <= i < raw.deployments.len() ==> deployment_sound(
            (#[trigger] raw.deployments[i]).1,
            scenarios,
            orders,
        )
}

/// A list of inputs or outputs has no defect exactly when it is sound.
pub proof fn lemma_ios_sound(ios: Seq<IOStringView>, tokens: Seq<Seq<char>>)
    ensures
        ios_errors(ios, tokens).len() == 0 <==> ios_sound(ios, tokens),
{
    let f = |k: int| io_errors(ios[k], tokens);
    lemma_concat_empty(f, ios.len());
    if ios_sound(ios, tokens) {
        assert forall|k: int| 0 <= k < ios.len() implies (#[trigger] f(k)).len() == 0 by {
            assert(io_sound(ios[k], tokens));
        }
    }
    if ios_errors(ios, tokens).len() == 0 {
        assert forall|k: int| 0 <= k < ios.len() implies io_sound(#[trigger] ios[k], tokens) by {
            assert(f(k).len() == 0);
        }
    }
}

/// The orderbooks table has no defect exactly when its names are distinct
/// and every orderbook is sound.
pub proof fn lemma_orderbooks_sound(
    raw: Seq<(Seq<char>, OrderbookStringView)>,
    networks: Seq<Seq<char>>,
    subgraphs: Seq<Seq<char>>,
)
    ensures
        orderbooks_errors(raw, networks, subgraphs).len() == 0 <==> distinct(keys(raw))
            && forall|i: int|
            0 <= i < raw.len() ==> orderbook_sound((#[trigger] raw[i]).1, networks, subgraphs),
{
    let f = |i: int| orderbook_errors(raw[i].1, networks, subgraphs);
    lemma_concat_empty(f, raw.len());
    lemma_duplicates_none(TableKind::Orderbooks, keys(raw));
    if orderbook_errors_upto(raw, networks, subgraphs, raw.len()).len() == 0 {
        assert forall|i: int| 0 <= i < raw.len() implies orderbook_sound(
            (#[trigger] raw[i]).1,
            networks,
            subgraphs,
        ) by {
            assert(f(i).len() == 0);
        }
    }
    if forall|i: int|
        0 <= i < raw.len() ==> orderbook_sound((#[trigger] raw[i]).1, networks, subgraphs) {
        assert forall|i: int| 0 <= i < raw.len() implies (#[trigger] f(i)).len() == 0 by {
            assert(orderbook_sound(raw[i].1, networks, subgraphs));
        }
    }
}

/// The tokens table has no defect exactly when its names are distinct and
/// every token's network names an entry.
pub proof fn lemma_tokens_sound(raw: Seq<(Seq<char>, TokenStringView)>, networks: Seq<Seq<char>>)
    ensures
        tokens_errors(raw, networks).len() == 0 <==> distinct(keys(raw)) && forall|i: int|
            0 <= i < raw.len() ==> has_name(networks, (#[trigger] raw[i]).1.network),
{
    let f = |i: int| token_errors(raw[i].1, networks);
    lemma_concat_empty(f, raw.len());
    lemma_duplicates_none(TableKind::Tokens, keys(raw));
    if token_errors_upto(raw, networks, raw.len()).len() == 0 {
        assert forall|i: int| 0 <= i < raw.len() implies has_name(
            networks,
            (#[trigger] raw[i]).1.network,
        ) by {
            assert(f(i).len() == 0);
        }
    }
    if forall|i: int| 0 <= i < raw.len() ==> has_name(networks, (#[trigger] raw[i]).1.network) {
        assert forall|i: int| 0 <= i < raw.len() implies (#[trigger] f(i)).len() == 0 by {
            assert(has_name(networks, raw[i].1.network));
        }
    }
}

/// The deployers table has no defect exactly when its names are distinct
/// and every deployer's network, where present, names an entry.
pub proof fn lemma_deployers_sound(
    raw: Seq<(Seq<char>, DeployerStringView)>,
    networks: Seq<Seq<char>>,
)
    ensures
        deployers_errors(raw, networks).len() == 0 <==> distinct(keys(raw)) && forall|i: int|
            0 <= i < raw.len() ==> !dangles(networks, (#[trigger] raw[i]).1.network),
{
    let f = |i: int| deployer_errors(raw[i].1, networks);
    lemma_concat_empty(f, raw.len());
    lemma_duplicates_none(TableKind::Deployers, keys(raw));
    if deployer_errors_upto(raw, networks, raw.len()).len() == 0 {
        assert forall|i: int| 0 <= i < raw.len() implies !dangles(
            networks,
            (#[trigger] raw[i]).1.network,
        ) by {
            assert(f(i).len() == 0);
        }
    }
    if forall|i: int| 0 <= i < raw.len() ==> !dangles(networks, (#[trigger] raw[i]).1.network) {
        assert forall|i: int| 0 <= i < raw.len() implies (#[trigger] f(i)).len() == 0 by {
            assert(!dangles(networks, raw[i].1.network));
        }
    }
}

/// The orders table has no defect exactly when its names are distinct and
/// every order is sound.
pub proof fn lemma_orders_sound(
    raw: Seq<(Seq<char>, OrderStringView)>,
    networks: Seq<Seq<char>>,
    deployers: Seq<Seq<char>>,
    orderbooks: Seq<Seq<char>>,
    tokens: Seq<Seq<char>>,
)
    ensures
        orders_errors(raw, networks, deployers, orderbooks, tokens).len() == 0 <==> distinct(
            keys(raw),
        ) && forall|i: int|
            0 <= i < raw.len() ==> order_sound(
                (#[trigger] raw[i]).1,
                networks,
                deployers,
                orderbooks,
                tokens,
            ),
{
    let f = |i: int| order_errors(raw[i].1, networks, deployers, orderbooks, tokens);
    lemma_concat_empty(f, raw.len());
    lemma_duplicates_none(TableKind::Orders, keys(raw));
    assert forall|i: int| 0 <= i < raw.len() implies ((#[trigger] f(i)).len() == 0 <==> order_sound(
        raw[i].1,
        networks,
        deployers,
        orderbooks,
        tokens,
    )) by {
        lemma_ios_sound(raw[i].1.inputs, tokens);
        lemma_ios_sound(raw[i].1.outputs, tokens);
    }
    if order_errors_upto(raw, networks, deployers, orderbooks, tokens, raw.len()).len() == 0 {
        assert forall|i: int| 0 <= i < raw.len() implies order_sound(
            (#[trigger] raw[i]).1,
            networks,
            deployers,
            orderbooks,
            tokens,
        ) by {
            assert(f(i).len() == 0);
        }
    }
    if forall|i: int|
        0 <= i < raw.len() ==> order_sound(
            (#[trigger] raw[i]).1,
            networks,
            deployers,
            orderbooks,
            tokens,
        ) {
        assert forall|i: int| 0 <= i < raw.len() implies (#[trigger] f(i)).len() == 0 by {
            assert(order_sound(raw[i].1, networks, deployers, orderbooks, tokens));
        }
    }
}

/// A flattened table has no defect exactly when its composite names are
/// distinct and every scenario in it is sound.
pub proof fn lemma_scenarios_sound(flat: Seq<FlatScenarioView>, deployers: Seq<Seq<char>>)
    ensures
        flat_errors(flat, deployers).len() == 0 <==> distinct(flat_names(flat)) && forall|k: int|
            0 <= k < flat.len() ==> scenario_sound(#[trigger] flat[k], deployers),
{
    let f = |k: int| scenario_errors(flat[k], deployers);
    lemma_concat_empty(f, flat.len());
    lemma_duplicates_none(TableKind::Scenarios, flat_names(flat));
    if scenario_errors_upto(flat, deployers, flat.len()).len() == 0 {
        assert forall|k: int| 0 <= k < flat.len() implies scenario_sound(
            #[trigger] flat[k],
            deployers,
        ) by {
            assert(f(k).len() == 0);
        }
    }
    if forall|k: int| 0 <= k < flat.len() ==> scenario_sound(#[trigger] flat[k], deployers) {
        assert forall|k: int| 0 <= k < flat.len() implies (#[trigger] f(k)).len() == 0 by {
            assert(scenario_sound(flat[k], deployers));
        }
    }
}

/// The charts table has no defect exactly when its names are distinct and
/// every chart is sound.
pub proof fn lemma_charts_sound(raw: Seq<(Seq<char>, ChartStringView)>, scenarios: Seq<Seq<char>>)
    ensures
        charts_errors(raw, scenarios).len() == 0 <==> distinct(keys(raw)) && forall|i: int|
            0 <= i < raw.len() ==> chart_sound((#[trigger] raw[i]).1, scenarios),
{
    let f = |i: int| chart_errors(raw[i].1, scenarios);
    lemma_concat_empty(f, raw.len());
    lemma_duplicates_none(TableKind::Charts, keys(raw));
    assert forall|i: int| 0 <= i < raw.len() implies ((#[trigger] f(i)).len() == 0 <==> chart_sound(
        raw[i].1,
        scenarios,
    )) by {
        lemma_duplicates_none(TableKind::Plots, keys(raw[i].1.plots));
    }
    if chart_errors_upto(raw, scenarios, raw.len()).len() == 0 {
        assert forall|i: int| 0 <= i < raw.len() implies chart_sound(
            (#[trigger] raw[i]).1,
            scenarios,
        ) by {
            assert(f(i).len() == 0);
        }
    }
    if forall|i: int| 0 <= i < raw.len() ==> chart_sound((#[trigger] raw[i]).1, scenarios) {
        assert forall|i: int| 0 <= i < raw.len() implies (#[trigger] f(i)).len() == 0 by {
            assert(chart_sound(raw[i].1, scenarios));
        }
    }
}

/// The deployments table has no defect exactly when its names are distinct
/// and every deployment is sound.
pub proof fn lemma_deployments_sound(
    raw: Seq<(Seq<char>, DeploymentStringView)>,
    scenarios: Seq<Seq<char>>,
    orders: Seq<Seq<char>>,
)
    ensures
        deployments_errors(raw, scenarios, orders).len() == 0 <==> distinct(keys(raw))
            && forall|i: int|
            0 <= i < raw.len() ==> deployment_sound((#[trigger] raw[i]).1, scenarios, orders),
{
    let f = |i: int| deployment_errors(raw[i].1, scenarios, orders);
    lemma_concat_empty(f, raw.len());
    lemma_duplicates_none(TableKind::Deployments, keys(raw));
    if deployment_errors_upto(raw, scenarios, orders, raw.len()).len() == 0 {
        assert forall|i: int| 0 <= i < raw.len() implies deployment_sound(
            (#[trigger] raw[i]).1,
            scenarios,
            orders,
        ) by {
            assert(f(i).len() == 0);
        }
    }
    if forall|i: int|
        0 <= i < raw.len() ==> deployment_sound((#[trigger] raw[i]).1, scenarios, orders) {
        assert forall|i: int| 0 <= i < raw.len() implies (#[trigger] f(i)).len() == 0 by {
            assert(deployment_sound(raw[i].1, scenarios, orders));
        }
    }
}

/// A document is valid exactly when it is sound. So resolving returns a
/// configuration for the sound documents, and defects for all others.
pub proof fn law_valid_exactly_when_sound(raw: ConfigStringView, max_depth: nat)
    ensures
        valid(raw, max_depth) <==> sound(raw, max_depth),
{
    let networks = keys(raw.networks);
    let subgraphs = keys(raw.subgraphs);
    let orderbooks = keys(raw.orderbooks);
    let tokens = keys(raw.tokens);
    let deployers = keys(raw.deployers);
    let orders = keys(raw.orders);
    let flat = flatten_all(raw.scenarios, max_depth);
    let scenarios = flat_names(flat);
    lemma_duplicates_none(TableKind::Networks, networks);
    lemma_duplicates_none(TableKind::Subgraphs, subgraphs);
    lemma_orderbooks_sound(raw.orderbooks, networks, subgraphs);
    lemma_tokens_sound(raw.tokens, networks);
    lemma_deployers_sound(raw.deployers, networks);
    lemma_orders_sound(raw.orders, networks, deployers, orderbooks, tokens);
    lemma_scenarios_sound(flat, deployers);
    lemma_charts_sound(raw.charts, scenarios);
    lemma_deployments_sound(raw.deployments, scenarios, orders);
}

} // verus!
