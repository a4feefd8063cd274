//! What holds of every document: laws that relate the resolvers to one
//! another and to the tree of scenarios.

use crate::assemble::{document_errors, resolution, scenario_names, valid};
use crate::bindings::pairs_map;
use crate::collect::{duplicate_errors, lemma_concat_contains, ref_errors};
use crate::config::Config;
use crate::error::{errors_view, ConfigError, ConfigErrorView, FieldKind, TableKind};
use crate::lookup::has_name;
use crate::raw::{keys, ConfigStringView, IOStringView, ScenarioStringView};
use crate::resolve::{
    chart_errors, charts_errors, deployer_errors, deployers_errors, deployment_errors,
    deployments_errors, io_errors, ios_errors, order_errors, orderbook_errors, orderbooks_errors,
    orders_errors, token_errors, tokens_errors,
};
use crate::scenario::{
    child_prefix, effective, flat_names, flatten, flatten_all, root_effective, scenario_errors,
    scenario_errors_upto, scenarios_errors, EffectiveView, FlatScenarioView,
};
use vstd::prelude::*;

verus! {

/// Resolving is determined by the document: two results for one document
/// agree, in the configuration where it is valid and in the defects where it
/// is not.
pub proof fn law_resolution_is_deterministic(
    raw: ConfigStringView,
    max_depth: nat,
    first: Result<Config, Vec<ConfigError>>,
    second: Result<Config, Vec<ConfigError>>,
)
    requires
        resolution(raw, max_depth, first),
        resolution(raw, max_depth, second),
    ensures
        first is Ok <==> second is Ok,
        first is Ok ==> first->Ok_0@ == second->Ok_0@,
        first is Err ==> errors_view(first->Err_0@) == errors_view(second->Err_0@),
{
}

/// Resolving succeeds on the valid documents and on no other, and a
/// configuration it returns is well formed: every handle in it is in range.
pub proof fn law_all_or_nothing(
    raw: ConfigStringView,
    max_depth: nat,
    r: Result<Config, Vec<ConfigError>>,
)
    requires
        resolution(raw, max_depth, r),
    ensures
        r is Ok <==> valid(raw, max_depth),
        r matches Ok(config) ==> config.wf() && config@.handles_in_range(),
        r matches Err(errors) ==> errors@.len() > 0,
{
    if r is Err {
        assert(errors_view(r->Err_0@).len() == r->Err_0@.len());
    }
}

// ------------------------------------------------------- the scenario tree

/// `path` leads from a list of sibling scenarios to one of them or to one
/// nested below: its first step picks a sibling, each further step a child.
pub open spec fn leads(nodes: Seq<(Seq<char>, ScenarioStringView)>, path: Seq<int>) -> bool
    decreases path.len(),
{
    &&& path.len() > 0
    &&& 0 <= path[0] < nodes.len()
    &&& path.len() > 1 ==> leads(nodes[path[0]].1.scenarios, path.skip(1))
}

/// The scenario that `path` leads to.
pub open spec fn node_at(
    nodes: Seq<(Seq<char>, ScenarioStringView)>,
    path: Seq<int>,
) -> ScenarioStringView
    decreases path.len(),
{
    if path.len() <= 1 {
        nodes[path[0]].1
    } else {
        node_at(nodes[path[0]].1.scenarios, path.skip(1))
    }
}

/// The composite name of the scenario that `path` leads to: the names on the
/// way joined by the separator, behind `prefix`.
pub open spec fn name_at(
    prefix: Seq<char>,
    nodes: Seq<(Seq<char>, ScenarioStringView)>,
    path: Seq<int>,
) -> Seq<char>
    decreases path.len(),
{
    if path.len() <= 1 {
        prefix + nodes[path[0]].0
    } else {
        name_at(
            child_prefix(prefix + nodes[path[0]].0),
            nodes[path[0]].1.scenarios,
            path.skip(1),
        )
    }
}

/// What is in force at the scenario that `path` leads to, given what the
/// siblings at its start inherit.
pub open spec fn effective_at(
    inherited: EffectiveView,
    nodes: Seq<(Seq<char>, ScenarioStringView)>,
    path: Seq<int>,
) -> EffectiveView
    decreases path.len(),
{
    let here = effective(inherited, nodes[path[0]].1);
    if path.len() <= 1 {
        here
    } else {
        effective_at(here, nodes[path[0]].1.scenarios, path.skip(1))
    }
}

/// A child lies below its parent: where a path with one more step leads
/// somewhere, the path without it leads to the parent, and the scenario
/// reached is the parent's child. What is in force at the child is what is in
/// force at the parent, taken as inherited by the child.
pub proof fn lemma_step_to_child(
    inherited: EffectiveView,
    nodes: Seq<(Seq<char>, ScenarioStringView)>,
    path: Seq<int>,
    child: int,
)
    requires
        path.len() > 0,
        leads(nodes, path.push(child)),
    ensures
        leads(nodes, path),
        0 <= child < node_at(nodes, path).scenarios.len(),
        node_at(nodes, path.push(child)) == node_at(nodes, path).scenarios[child].1,
        effective_at(inherited, nodes, path.push(child)) == effective(
            effective_at(inherited, nodes, path),
            node_at(nodes, path.push(child)),
        ),
    decreases path.len(),
{
    let longer = path.push(child);
    let here = effective(inherited, nodes[path[0]].1);
    let below = nodes[path[0]].1.scenarios;
    assert(longer[0] == path[0]);
    if path.len() == 1 {
        assert(longer.skip(1) =~= seq![child]);
        assert(leads(below, seq![child]));
        assert(seq![child][0] == child);
        assert(node_at(below, seq![child]) == below[child].1);
        assert(effective_at(here, below, seq![child]) == effective(
            here,
            below[child].1,
        ));
    } else {
        assert(longer.skip(1) =~= path.skip(1).push(child));
        lemma_step_to_child(here, below, path.skip(1), child);
    }
}

/// The bindings in force at a child are those in force at its parent,
/// overridden key by key by the child's own. This holds at every depth: of
/// the step from any scenario to any of its children.
pub proof fn law_child_bindings_overlay_parent(
    inherited: EffectiveView,
    nodes: Seq<(Seq<char>, ScenarioStringView)>,
    path: Seq<int>,
    child: int,
)
    requires
        path.len() > 0,
        leads(nodes, path.push(child)),
    ensures
        effective_at(inherited, nodes, path.push(child)).bindings == effective_at(
            inherited,
            nodes,
            path,
        ).bindings.union_prefer_right(pairs_map(node_at(nodes, path.push(child)).bindings)),
{
    lemma_step_to_child(inherited, nodes, path, child);
}

/// So a key that the child does not bind keeps the value in force at the
/// parent, and a key that it binds takes the child's value.
pub proof fn law_child_bindings_by_key(
    inherited: EffectiveView,
    nodes: Seq<(Seq<char>, ScenarioStringView)>,
    path: Seq<int>,
    child: int,
    key: Seq<char>,
)
    requires
        path.len() > 0,
        leads(nodes, path.push(child)),
    ensures
        ({
            let own = pairs_map(node_at(nodes, path.push(child)).bindings);
            let above = effective_at(inherited, nodes, path).bindings;
            let here = effective_at(inherited, nodes, path.push(child)).bindings;
            &&& own.contains_key(key) ==> here.contains_key(key) && here[key] == own[key]
            &&& !own.contains_key(key) && above.contains_key(key) ==> here.contains_key(key)
                && here[key] == above[key]
            &&& !own.contains_key(key) && !above.contains_key(key) ==> !here.contains_key(key)
        }),
{
    lemma_step_to_child(inherited, nodes, path, child);
}

/// A child that names no deployer has the deployer in force at its parent,
/// and so that of the nearest ancestor that names one.
pub proof fn law_child_without_deployer_inherits(
    inherited: EffectiveView,
    nodes: Seq<(Seq<char>, ScenarioStringView)>,
    path: Seq<int>,
    child: int,
)
    requires
        path.len() > 0,
        leads(nodes, path.push(child)),
        node_at(nodes, path.push(child)).deployer is None,
    ensures
        effective_at(inherited, nodes, path.push(child)).deployer == effective_at(
            inherited,
            nodes,
            path,
        ).deployer,
{
    lemma_step_to_child(inherited, nodes, path, child);
}

/// A child that names a deployer or sets a run count has its own.
pub proof fn law_child_overrides_deployer_and_runs(
    inherited: EffectiveView,
    nodes: Seq<(Seq<char>, ScenarioStringView)>,
    path: Seq<int>,
    child: int,
)
    requires
        path.len() > 0,
        leads(nodes, path.push(child)),
    ensures
        ({
            let node = node_at(nodes, path.push(child));
            let here = effective_at(inherited, nodes, path.push(child));
            &&& node.deployer is Some ==> here.deployer == node.deployer
            &&& node.runs is Some ==> here.runs == node.runs->0
        }),
{
    lemma_step_to_child(inherited, nodes, path, child);
}

/// A child that sets no run count has the run count in force at its parent.
pub proof fn law_child_without_runs_inherits(
    inherited: EffectiveView,
    nodes: Seq<(Seq<char>, ScenarioStringView)>,
    path: Seq<int>,
    child: int,
)
    requires
        path.len() > 0,
        leads(nodes, path.push(child)),
        node_at(nodes, path.push(child)).runs is None,
    ensures
        effective_at(inherited, nodes, path.push(child)).runs == effective_at(
            inherited,
            nodes,
            path,
        ).runs,
{
    lemma_step_to_child(inherited, nodes, path, child);
}

/// The entry of the flattened table for the scenario that `path` leads to.
pub open spec fn entry_at(
    inherited: EffectiveView,
    prefix: Seq<char>,
    nodes: Seq<(Seq<char>, ScenarioStringView)>,
    path: Seq<int>,
    depth_left: nat,
) -> FlatScenarioView {
    FlatScenarioView {
        name: name_at(prefix, nodes, path),
        own_deployer: node_at(nodes, path).deployer,
        effective: effective_at(inherited, nodes, path),
        truncated: path.len() == depth_left + 1 && node_at(nodes, path).scenarios.len() > 0,
    }
}

/// What the functions of a path give does not depend on the siblings behind
/// the one that the path starts at.
proof fn lemma_path_in_front(
    inherited: EffectiveView,
    prefix: Seq<char>,
    nodes: Seq<(Seq<char>, ScenarioStringView)>,
    path: Seq<int>,
    depth_left: nat,
)
    requires
        leads(nodes, path),
        path[0] < nodes.len() - 1,
    ensures
        leads(nodes.drop_last(), path),
        entry_at(inherited, prefix, nodes.drop_last(), path, depth_left) == entry_at(
            inherited,
            prefix,
            nodes,
            path,
            depth_left,
        ),
{
    assert(nodes.drop_last()[path[0]] == nodes[path[0]]);
}

/// The flattened table holds every scenario of the tree that lies within the
/// limit of nesting, under its composite name and with what is in force at it.
pub proof fn law_flattened_table_holds_every_scenario(
    inherited: EffectiveView,
    prefix: Seq<char>,
    nodes: Seq<(Seq<char>, ScenarioStringView)>,
    path: Seq<int>,
    depth_left: nat,
)
    requires
        leads(nodes, path),
        path.len() <= depth_left + 1,
    ensures
        flatten(inherited, prefix, nodes, depth_left).contains(
            entry_at(inherited, prefix, nodes, path, depth_left),
        ),
    decreases depth_left, nodes.len(),
{
    let whole = flatten(inherited, prefix, nodes, depth_left);
    let wanted = entry_at(inherited, prefix, nodes, path, depth_left);
    let (name, node) = nodes.last();
    let entry = crate::scenario::flat_entry(inherited, prefix, name, node, depth_left);
    let front = flatten(inherited, prefix, nodes.drop_last(), depth_left);
    let below = if depth_left == 0 {
        Seq::empty()
    } else {
        flatten(
            entry.effective,
            child_prefix(entry.name),
            node.scenarios,
            (depth_left - 1) as nat,
        )
    };
    assert(whole == front.push(entry) + below);
    if path[0] < nodes.len() - 1 {
        lemma_path_in_front(inherited, prefix, nodes, path, depth_left);
        law_flattened_table_holds_every_scenario(
            inherited,
            prefix,
            nodes.drop_last(),
            path,
            depth_left,
        );
        let k = choose|k: int| 0 <= k < front.len() && front[k] == wanted;
        assert(whole[k] == wanted);
    } else if path.len() == 1 {
        assert(wanted == entry);
        assert(whole[front.len() as int] == entry);
    } else {
        law_flattened_table_holds_every_scenario(
            entry.effective,
            child_prefix(entry.name),
            node.scenarios,
            path.skip(1),
            (depth_left - 1) as nat,
        );
        let inner = entry_at(
            entry.effective,
            child_prefix(entry.name),
            node.scenarios,
            path.skip(1),
            (depth_left - 1) as nat,
        );
        assert(inner == wanted);
        let k = choose|k: int| 0 <= k < below.len() && below[k] == wanted;
        assert(whole[front.len() + 1 + k] == wanted);
    }
}

// ------------------------------------------------------------ what is reported

/// What either part holds, the two together hold.
proof fn lemma_add_contains<T>(a: Seq<T>, b: Seq<T>, e: T)
    ensures
        a.contains(e) ==> (a + b).contains(e),
        b.contains(e) ==> (a + b).contains(e),
{
    if a.contains(e) {
        let k = choose|k: int| 0 <= k < a.len() && a[k] == e;
        assert((a + b)[k] == e);
    }
    if b.contains(e) {
        let k = choose|k: int| 0 <= k < b.len() && b[k] == e;
        assert((a + b)[a.len() + k] == e);
    }
}

/// The defect that a dangling reference under `field` is.
pub open spec fn unknown_reference(field: FieldKind, name: Seq<char>) -> ConfigErrorView {
    ConfigErrorView::UnknownReference { table: field.target()->0, field, name }
}

/// A reference that dangles is reported where it stands.
proof fn lemma_dangling_reported(field: FieldKind, names: Seq<Seq<char>>, name: Seq<char>)
    requires
        !has_name(names, name),
    ensures
        ref_errors(field.target()->0, field, names, Some(name)).contains(
            unknown_reference(field, name),
        ),
{
    assert(ref_errors(field.target()->0, field, names, Some(name))[0] == unknown_reference(
        field,
        name,
    ));
}

/// The defects of a document, stage by stage.
pub open spec fn stage_errors(raw: ConfigStringView, max_depth: nat, table: TableKind) -> Seq<
    ConfigErrorView,
> {
    let networks = keys(raw.networks);
    let subgraphs = keys(raw.subgraphs);
    let orderbooks = keys(raw.orderbooks);
    let tokens = keys(raw.tokens);
    let deployers = keys(raw.deployers);
    let orders = keys(raw.orders);
    let scenarios = scenario_names(raw, max_depth);
    match table {
        TableKind::Networks => duplicate_errors(TableKind::Networks, networks),
        TableKind::Subgraphs => duplicate_errors(TableKind::Subgraphs, subgraphs),
        TableKind::Orderbooks => orderbooks_errors(raw.orderbooks, networks, subgraphs),
        TableKind::Tokens => tokens_errors(raw.tokens, networks),
        TableKind::Deployers => deployers_errors(raw.deployers, networks),
        TableKind::Orders => orders_errors(raw.orders, networks, deployers, orderbooks, tokens),
        TableKind::Scenarios => scenarios_errors(raw.scenarios, max_depth, deployers),
        TableKind::Charts | TableKind::Plots => charts_errors(raw.charts, scenarios),
        TableKind::Deployments => deployments_errors(raw.deployments, scenarios, orders),
    }
}

/// What a stage reports, the document reports.
pub proof fn lemma_stage_reported(
    raw: ConfigStringView,
    max_depth: nat,
    table: TableKind,
    e: ConfigErrorView,
)
    requires
        stage_errors(raw, max_depth, table).contains(e),
    ensures
        document_errors(raw, max_depth).contains(e),
        !valid(raw, max_depth),
{
    let s1 = stage_errors(raw, max_depth, TableKind::Networks);
    let s2 = stage_errors(raw, max_depth, TableKind::Subgraphs);
    let s3 = stage_errors(raw, max_depth, TableKind::Orderbooks);
    let s4 = stage_errors(raw, max_depth, TableKind::Tokens);
    let s5 = stage_errors(raw, max_depth, TableKind::Deployers);
    let s6 = stage_errors(raw, max_depth, TableKind::Orders);
    let s7 = stage_errors(raw, max_depth, TableKind::Scenarios);
    let s8 = stage_errors(raw, max_depth, TableKind::Charts);
    let s9 = stage_errors(raw, max_depth, TableKind::Deployments);
    assert(document_errors(raw, max_depth) == s1 + s2 + s3 + s4 + s5 + s6 + s7 + s8 + s9);
    lemma_add_contains(s1, s2, e);
    lemma_add_contains(s1 + s2, s3, e);
    lemma_add_contains(s1 + s2 + s3, s4, e);
    lemma_add_contains(s1 + s2 + s3 + s4, s5, e);
    lemma_add_contains(s1 + s2 + s3 + s4 + s5, s6, e);
    lemma_add_contains(s1 + s2 + s3 + s4 + s5 + s6, s7, e);
    lemma_add_contains(s1 + s2 + s3 + s4 + s5 + s6 + s7, s8, e);
    lemma_add_contains(s1 + s2 + s3 + s4 + s5 + s6 + s7 + s8, s9, e);
}

/// What an entry of the flattened table is reported for, the document
/// reports.
pub proof fn lemma_scenario_reported(
    raw: ConfigStringView,
    max_depth: nat,
    entry: FlatScenarioView,
    e: ConfigErrorView,
)
    requires
        flatten_all(raw.scenarios, max_depth).contains(entry),
        scenario_errors(entry, keys(raw.deployers)).contains(e),
    ensures
        stage_errors(raw, max_depth, TableKind::Scenarios).contains(e),
        document_errors(raw, max_depth).contains(e),
        !valid(raw, max_depth),
{
    let deployers = keys(raw.deployers);
    let flat = flatten_all(raw.scenarios, max_depth);
    let k = choose|k: int| 0 <= k < flat.len() && flat[k] == entry;
    let f = |i: int| scenario_errors(flat[i], deployers);
    lemma_concat_contains(f, flat.len(), k, e);
    lemma_add_contains(
        duplicate_errors(TableKind::Scenarios, flat_names(flat)),
        scenario_errors_upto(flat, deployers, flat.len()),
        e,
    );
    lemma_stage_reported(raw, max_depth, TableKind::Scenarios, e);
}

/// A scenario at which no deployer is in force is reported as missing its
/// deployer: neither the scenario nor any of its ancestors names one.
pub proof fn law_scenario_without_deployer_is_reported(
    raw: ConfigStringView,
    max_depth: nat,
    path: Seq<int>,
)
    requires
        leads(raw.scenarios, path),
        path.len() <= max_depth + 1,
        effective_at(root_effective(), raw.scenarios, path).deployer is None,
    ensures
        document_errors(raw, max_depth).contains(
            ConfigErrorView::MissingDeployer {
                scenario: name_at(Seq::empty(), raw.scenarios, path),
            },
        ),
        !valid(raw, max_depth),
{
    let deployers = keys(raw.deployers);
    let entry = entry_at(root_effective(), Seq::empty(), raw.scenarios, path, max_depth);
    law_flattened_table_holds_every_scenario(
        root_effective(),
        Seq::empty(),
        raw.scenarios,
        path,
        max_depth,
    );
    let e = ConfigErrorView::MissingDeployer { scenario: entry.name };
    let errors = scenario_errors(entry, deployers);
    assert(errors[errors.len() - 1] == e);
    lemma_scenario_reported(raw, max_depth, entry, e);
}

/// A top-level scenario that names no deployer is reported as missing its
/// deployer, under its own name.
pub proof fn law_root_without_deployer_is_reported(
    raw: ConfigStringView,
    max_depth: nat,
    i: int,
)
    requires
        0 <= i < raw.scenarios.len(),
        raw.scenarios[i].1.deployer is None,
    ensures
        document_errors(raw, max_depth).contains(
            ConfigErrorView::MissingDeployer { scenario: raw.scenarios[i].0 },
        ),
        !valid(raw, max_depth),
{
    let path = seq![i];
    assert(path[0] == i);
    assert(leads(raw.scenarios, path));
    assert(name_at(Seq::empty(), raw.scenarios, path) =~= raw.scenarios[i].0);
    law_scenario_without_deployer_is_reported(raw, max_depth, path);
}

/// The names of a table of the document, in the order written; for the
/// scenarios the composite names of the flattened table.
pub open spec fn table_keys(raw: ConfigStringView, max_depth: nat, table: TableKind) -> Seq<
    Seq<char>,
> {
    match table {
        TableKind::Networks => keys(raw.networks),
        TableKind::Subgraphs => keys(raw.subgraphs),
        TableKind::Orderbooks => keys(raw.orderbooks),
        TableKind::Tokens => keys(raw.tokens),
        TableKind::Deployers => keys(raw.deployers),
        TableKind::Orders => keys(raw.orders),
        TableKind::Scenarios => scenario_names(raw, max_depth),
        TableKind::Charts => keys(raw.charts),
        TableKind::Plots => Seq::empty(),
        TableKind::Deployments => keys(raw.deployments),
    }
}

/// One of the inputs or outputs refers to the token `name`.
pub open spec fn ios_refer_to(ios: Seq<IOStringView>, name: Seq<char>) -> bool {
    exists|k: int| 0 <= k < ios.len() && (#[trigger] ios[k]).token == name
}

/// The document holds, under `field`, a reference to `name`. Of the scenarios
/// those count that lie within the limit of nesting.
pub open spec fn refers_to(
    raw: ConfigStringView,
    max_depth: nat,
    field: FieldKind,
    name: Seq<char>,
) -> bool {
    match field {
        FieldKind::OrderbookNetwork => exists|i: int|
            0 <= i < raw.orderbooks.len() && (#[trigger] raw.orderbooks[i]).1.network == Some(name),
        FieldKind::OrderbookSubgraph => exists|i: int|
            0 <= i < raw.orderbooks.len() && (#[trigger] raw.orderbooks[i]).1.subgraph == Some(
                name,
            ),
        FieldKind::TokenNetwork => exists|i: int|
            0 <= i < raw.tokens.len() && (#[trigger] raw.tokens[i]).1.network == name,
        FieldKind::DeployerNetwork => exists|i: int|
            0 <= i < raw.deployers.len() && (#[trigger] raw.deployers[i]).1.network == Some(name),
        FieldKind::OrderNetwork => exists|i: int|
            0 <= i < raw.orders.len() && (#[trigger] raw.orders[i]).1.network == name,
        FieldKind::OrderDeployer => exists|i: int|
            0 <= i < raw.orders.len() && (#[trigger] raw.orders[i]).1.deployer == Some(name),
        FieldKind::OrderOrderbook => exists|i: int|
            0 <= i < raw.orders.len() && (#[trigger] raw.orders[i]).1.orderbook == Some(name),
        FieldKind::OrderToken => exists|i: int|
            0 <= i < raw.orders.len() && (ios_refer_to((#[trigger] raw.orders[i]).1.inputs, name)
                || ios_refer_to(raw.orders[i].1.outputs, name)),
        FieldKind::OrderVaultId => false,
        FieldKind::ScenarioDeployer => exists|path: Seq<int>|
            leads(raw.scenarios, path) && path.len() <= max_depth + 1 && (#[trigger] node_at(
                raw.scenarios,
                path,
            )).deployer == Some(name),
        FieldKind::ChartScenario => exists|i: int|
            0 <= i < raw.charts.len() && (#[trigger] raw.charts[i]).1.scenario == Some(name),
        FieldKind::DeploymentScenario => exists|i: int|
            0 <= i < raw.deployments.len() && (#[trigger] raw.deployments[i]).1.scenario == name,
        FieldKind::DeploymentOrder => exists|i: int|
            0 <= i < raw.deployments.len() && (#[trigger] raw.deployments[i]).1.order == name,
    }
}

/// An input or output that refers to an unknown token is reported.
proof fn lemma_ios_reported(ios: Seq<IOStringView>, tokens: Seq<Seq<char>>, name: Seq<char>)
    requires
        ios_refer_to(ios, name),
        !has_name(tokens, name),
    ensures
        ios_errors(ios, tokens).contains(unknown_reference(FieldKind::OrderToken, name)),
{
    let e = unknown_reference(FieldKind::OrderToken, name);
    let k = choose|k: int| 0 <= k < ios.len() && (#[trigger] ios[k]).token == name;
    lemma_dangling_reported(FieldKind::OrderToken, tokens, name);
    lemma_add_contains(
        ref_errors(TableKind::Tokens, FieldKind::OrderToken, tokens, Some(name)),
        crate::resolve::vault_id_errors(ios[k].vault_id),
        e,
    );
    let f = |k: int| io_errors(ios[k], tokens);
    lemma_concat_contains(f, ios.len(), k, e);
}

/// A reference to a name that its target table does not have is reported as
/// an unknown reference, with the table looked into, the field the reference
/// stands under and the name it gives; and the document is not valid, so
/// resolving it returns the defects and no configuration.
pub proof fn law_unknown_reference_is_reported(
    raw: ConfigStringView,
    max_depth: nat,
    field: FieldKind,
    name: Seq<char>,
)
    requires
        refers_to(raw, max_depth, field, name),
        !has_name(table_keys(raw, max_depth, field.target()->0), name),
    ensures
        document_errors(raw, max_depth).contains(unknown_reference(field, name)),
        !valid(raw, max_depth),
{
    let e = unknown_reference(field, name);
    let networks = keys(raw.networks);
    let subgraphs = keys(raw.subgraphs);
    let orderbooks = keys(raw.orderbooks);
    let tokens = keys(raw.tokens);
    let deployers = keys(raw.deployers);
    let orders = keys(raw.orders);
    let scenarios = scenario_names(raw, max_depth);
    let names = table_keys(raw, max_depth, field.target()->0);
    lemma_dangling_reported(field, names, name);
    let here = ref_errors(field.target()->0, field, names, Some(name));
    match field {
        FieldKind::OrderbookNetwork | FieldKind::OrderbookSubgraph => {
            let i = if field == FieldKind::OrderbookNetwork {
                choose|i: int|
                    0 <= i < raw.orderbooks.len() && (#[trigger] raw.orderbooks[i]).1.network
                        == Some(name)
            } else {
                choose|i: int|
                    0 <= i < raw.orderbooks.len() && (#[trigger] raw.orderbooks[i]).1.subgraph
                        == Some(name)
            };
            let o = raw.orderbooks[i].1;
            lemma_add_contains(
                ref_errors(TableKind::Networks, FieldKind::OrderbookNetwork, networks, o.network),
                ref_errors(
                    TableKind::Subgraphs,
                    FieldKind::OrderbookSubgraph,
                    subgraphs,
                    o.subgraph,
                ),
                e,
            );
            let f = |i: int| orderbook_errors(raw.orderbooks[i].1, networks, subgraphs);
            lemma_concat_contains(f, raw.orderbooks.len(), i, e);
            lemma_add_contains(
                duplicate_errors(TableKind::Orderbooks, orderbooks),
                crate::resolve::orderbook_errors_upto(
                    raw.orderbooks,
                    networks,
                    subgraphs,
                    raw.orderbooks.len(),
                ),
                e,
            );
        },
        FieldKind::TokenNetwork => {
            let i = choose|i: int|
                0 <= i < raw.tokens.len() && (#[trigger] raw.tokens[i]).1.network == name;
            let f = |i: int| token_errors(raw.tokens[i].1, networks);
            lemma_concat_contains(f, raw.tokens.len(), i, e);
            lemma_add_contains(
                duplicate_errors(TableKind::Tokens, tokens),
                crate::resolve::token_errors_upto(raw.tokens, networks, raw.tokens.len()),
                e,
            );
        },
        FieldKind::DeployerNetwork => {
            let i = choose|i: int|
                0 <= i < raw.deployers.len() && (#[trigger] raw.deployers[i]).1.network == Some(
                    name,
                );
            let f = |i: int| deployer_errors(raw.deployers[i].1, networks);
            lemma_concat_contains(f, raw.deployers.len(), i, e);
            lemma_add_contains(
                duplicate_errors(TableKind::Deployers, deployers),
                crate::resolve::deployer_errors_upto(raw.deployers, networks, raw.deployers.len()),
                e,
            );
        },
        FieldKind::OrderNetwork
        | FieldKind::OrderDeployer
        | FieldKind::OrderOrderbook
        | FieldKind::OrderToken => {
            let i = match field {
                FieldKind::OrderNetwork => choose|i: int|
                    0 <= i < raw.orders.len() && (#[trigger] raw.orders[i]).1.network == name,
                FieldKind::OrderDeployer => choose|i: int|
                    0 <= i < raw.orders.len() && (#[trigger] raw.orders[i]).1.deployer == Some(
                        name,
                    ),
                FieldKind::OrderOrderbook => choose|i: int|
                    0 <= i < raw.orders.len() && (#[trigger] raw.orders[i]).1.orderbook == Some(
                        name,
                    ),
                _ => choose|i: int|
                    0 <= i < raw.orders.len() && (ios_refer_to(
                        (#[trigger] raw.orders[i]).1.inputs,
                        name,
                    ) || ios_refer_to(raw.orders[i].1.outputs, name)),
            };
            let o = raw.orders[i].1;
            let of_network = ref_errors(
                TableKind::Networks,
                FieldKind::OrderNetwork,
                networks,
                Some(o.network),
            );
            let of_deployer = ref_errors(TableKind::Deployers, FieldKind::OrderDeployer, deployers, o.deployer);
            let of_orderbook = ref_errors(
                TableKind::Orderbooks,
                FieldKind::OrderOrderbook,
                orderbooks,
                o.orderbook,
            );
            let of_inputs = ios_errors(o.inputs, tokens);
            let of_outputs = ios_errors(o.outputs, tokens);
            if field == FieldKind::OrderToken {
                if ios_refer_to(o.inputs, name) {
                    lemma_ios_reported(o.inputs, tokens, name);
                } else {
                    lemma_ios_reported(o.outputs, tokens, name);
                }
            }
            lemma_add_contains(of_network, of_deployer, e);
            lemma_add_contains(of_network + of_deployer, of_orderbook, e);
            lemma_add_contains(of_network + of_deployer + of_orderbook, of_inputs, e);
            lemma_add_contains(of_network + of_deployer + of_orderbook + of_inputs, of_outputs, e);
            assert(order_errors(o, networks, deployers, orderbooks, tokens).contains(e));
            let f = |i: int| order_errors(raw.orders[i].1, networks, deployers, orderbooks, tokens);
            lemma_concat_contains(f, raw.orders.len(), i, e);
            lemma_add_contains(
                duplicate_errors(TableKind::Orders, orders),
                crate::resolve::order_errors_upto(
                    raw.orders,
                    networks,
                    deployers,
                    orderbooks,
                    tokens,
                    raw.orders.len(),
                ),
                e,
            );
        },
        FieldKind::ScenarioDeployer => {
            let path = choose|path: Seq<int>|
                leads(raw.scenarios, path) && path.len() <= max_depth + 1 && (#[trigger] node_at(
                    raw.scenarios,
                    path,
                )).deployer == Some(name);
            let entry = entry_at(
                root_effective(),
                Seq::empty(),
                raw.scenarios,
                path,
                max_depth,
            );
            law_flattened_table_holds_every_scenario(
                root_effective(),
                Seq::empty(),
                raw.scenarios,
                path,
                max_depth,
            );
            let before = if entry.truncated {
                seq![ConfigErrorView::ScenarioTooDeep { scenario: entry.name }]
            } else {
                Seq::empty()
            };
            let after = if entry.effective.deployer is None {
                seq![ConfigErrorView::MissingDeployer { scenario: entry.name }]
            } else {
                Seq::empty()
            };
            lemma_add_contains(before, here, e);
            lemma_add_contains(before + here, after, e);
            lemma_scenario_reported(raw, max_depth, entry, e);
        },
        FieldKind::ChartScenario => {
            let i = choose|i: int|
                0 <= i < raw.charts.len() && (#[trigger] raw.charts[i]).1.scenario == Some(name);
            let c = raw.charts[i].1;
            lemma_add_contains(here, duplicate_errors(TableKind::Plots, keys(c.plots)), e);
            let f = |i: int| chart_errors(raw.charts[i].1, scenarios);
            lemma_concat_contains(f, raw.charts.len(), i, e);
            lemma_add_contains(
                duplicate_errors(TableKind::Charts, keys(raw.charts)),
                crate::resolve::chart_errors_upto(raw.charts, scenarios, raw.charts.len()),
                e,
            );
        },
        FieldKind::DeploymentScenario | FieldKind::DeploymentOrder => {
            let i = if field == FieldKind::DeploymentScenario {
                choose|i: int|
                    0 <= i < raw.deployments.len() && (#[trigger] raw.deployments[i]).1.scenario
                        == name
            } else {
                choose|i: int|
                    0 <= i < raw.deployments.len() && (#[trigger] raw.deployments[i]).1.order
                        == name
            };
            let d = raw.deployments[i].1;
            let of_scenario = ref_errors(
                TableKind::Scenarios,
                FieldKind::DeploymentScenario,
                scenarios,
                Some(d.scenario),
            );
            let of_order = ref_errors(
                TableKind::Orders,
                FieldKind::DeploymentOrder,
                orders,
                Some(d.order),
            );
            lemma_add_contains(of_scenario, of_order, e);
            let f = |i: int| deployment_errors(raw.deployments[i].1, scenarios, orders);
            lemma_concat_contains(f, raw.deployments.len(), i, e);
            lemma_add_contains(
                duplicate_errors(TableKind::Deployments, keys(raw.deployments)),
                crate::resolve::deployment_errors_upto(
                    raw.deployments,
                    scenarios,
                    orders,
                    raw.deployments.len(),
                ),
                e,
            );
        },
        FieldKind::OrderVaultId => {},
    }
    lemma_stage_reported(raw, max_depth, field.holder(), e);
}

/// A name that a table holds twice is reported: as a clash of composite
/// names among the flattened scenarios, as a repeated key in any other table.
pub proof fn law_repeated_name_is_reported(
    raw: ConfigStringView,
    max_depth: nat,
    table: TableKind,
    i: int,
    j: int,
)
    requires
        0 <= i < j < table_keys(raw, max_depth, table).len(),
        table_keys(raw, max_depth, table)[i] == table_keys(raw, max_depth, table)[j],
    ensures
        document_errors(raw, max_depth).contains(
            crate::collect::repeated_name(table, table_keys(raw, max_depth, table)[j]),
        ),
        !valid(raw, max_depth),
{
    let names = table_keys(raw, max_depth, table);
    let e = crate::collect::repeated_name(table, names[j]);
    let f = |k: int| crate::collect::duplicate_error(table, names, k);
    assert(crate::collect::repeats(names, j));
    assert(f(j)[0] == e);
    lemma_concat_contains(f, names.len(), j, e);
    let dups = duplicate_errors(table, names);
    assert(dups.contains(e));
    let networks = keys(raw.networks);
    let subgraphs = keys(raw.subgraphs);
    let orderbooks = keys(raw.orderbooks);
    let tokens = keys(raw.tokens);
    let deployers = keys(raw.deployers);
    let orders = keys(raw.orders);
    let scenarios = scenario_names(raw, max_depth);
    match table {
        TableKind::Orderbooks => {
            lemma_add_contains(
                dups,
                crate::resolve::orderbook_errors_upto(
                    raw.orderbooks,
                    networks,
                    subgraphs,
                    raw.orderbooks.len(),
                ),
                e,
            );
        },
        TableKind::Tokens => {
            lemma_add_contains(
                dups,
                crate::resolve::token_errors_upto(raw.tokens, networks, raw.tokens.len()),
                e,
            );
        },
        TableKind::Deployers => {
            lemma_add_contains(
                dups,
                crate::resolve::deployer_errors_upto(raw.deployers, networks, raw.deployers.len()),
                e,
            );
        },
        TableKind::Orders => {
            lemma_add_contains(
                dups,
                crate::resolve::order_errors_upto(
                    raw.orders,
                    networks,
                    deployers,
                    orderbooks,
                    tokens,
                    raw.orders.len(),
                ),
                e,
            );
        },
        TableKind::Scenarios => {
            let flat = flatten_all(raw.scenarios, max_depth);
            lemma_add_contains(dups, scenario_errors_upto(flat, deployers, flat.len()), e);
        },
        TableKind::Charts => {
            lemma_add_contains(
                dups,
                crate::resolve::chart_errors_upto(raw.charts, scenarios, raw.charts.len()),
                e,
            );
        },
        TableKind::Deployments => {
            lemma_add_contains(
                dups,
                crate::resolve::deployment_errors_upto(
                    raw.deployments,
                    scenarios,
                    orders,
                    raw.deployments.len(),
                ),
                e,
            );
        },
        _ => {},
    }
    lemma_stage_reported(raw, max_depth, table, e);
}

/// A vault id that is no decimal or `0x` hexadecimal literal of a number
/// below 2^256 is reported as an invalid numeric literal, with its text.
pub proof fn law_invalid_vault_id_is_reported(
    raw: ConfigStringView,
    max_depth: nat,
    i: int,
    input: bool,
    k: int,
)
    requires
        0 <= i < raw.orders.len(),
        0 <= k < (if input {
            raw.orders[i].1.inputs
        } else {
            raw.orders[i].1.outputs
        }).len(),
        !crate::literal::is_vault_id_literal(
            (if input {
                raw.orders[i].1.inputs
            } else {
                raw.orders[i].1.outputs
            })[k].vault_id,
        ),
    ensures
        document_errors(raw, max_depth).contains(
            ConfigErrorView::InvalidNumericLiteral {
                field: FieldKind::OrderVaultId,
                value: (if input {
                    raw.orders[i].1.inputs
                } else {
                    raw.orders[i].1.outputs
                })[k].vault_id,
            },
        ),
        !valid(raw, max_depth),
{
    let networks = keys(raw.networks);
    let orderbooks = keys(raw.orderbooks);
    let tokens = keys(raw.tokens);
    let deployers = keys(raw.deployers);
    let orders = keys(raw.orders);
    let o = raw.orders[i].1;
    let ios = if input {
        o.inputs
    } else {
        o.outputs
    };
    let e = ConfigErrorView::InvalidNumericLiteral {
        field: FieldKind::OrderVaultId,
        value: ios[k].vault_id,
    };
    let bad = crate::resolve::vault_id_errors(ios[k].vault_id);
    assert(bad[0] == e);
    lemma_add_contains(
        ref_errors(TableKind::Tokens, FieldKind::OrderToken, tokens, Some(ios[k].token)),
        bad,
        e,
    );
    let g = |k: int| io_errors(ios[k], tokens);
    lemma_concat_contains(g, ios.len(), k, e);
    let of_network = ref_errors(TableKind::Networks, FieldKind::OrderNetwork, networks, Some(o.network));
    let of_deployer = ref_errors(TableKind::Deployers, FieldKind::OrderDeployer, deployers, o.deployer);
    let of_orderbook = ref_errors(TableKind::Orderbooks, FieldKind::OrderOrderbook, orderbooks, o.orderbook);
    let of_inputs = ios_errors(o.inputs, tokens);
    let of_outputs = ios_errors(o.outputs, tokens);
    lemma_add_contains(of_network + of_deployer + of_orderbook, of_inputs, e);
    lemma_add_contains(of_network + of_deployer + of_orderbook + of_inputs, of_outputs, e);
    assert(order_errors(o, networks, deployers, orderbooks, tokens).contains(e));
    let f = |i: int| order_errors(raw.orders[i].1, networks, deployers, orderbooks, tokens);
    lemma_concat_contains(f, raw.orders.len(), i, e);
    lemma_add_contains(
        duplicate_errors(TableKind::Orders, orders),
        crate::resolve::order_errors_upto(
            raw.orders,
            networks,
            deployers,
            orderbooks,
            tokens,
            raw.orders.len(),
        ),
        e,
    );
    lemma_stage_reported(raw, max_depth, TableKind::Orders, e);
}

/// A scenario that lies at the limit of nesting and has children is reported
/// as too deep, under its composite name.
pub proof fn law_nesting_beyond_the_limit_is_reported(
    raw: ConfigStringView,
    max_depth: nat,
    path: Seq<int>,
)
    requires
        leads(raw.scenarios, path),
        path.len() == max_depth + 1,
        node_at(raw.scenarios, path).scenarios.len() > 0,
    ensures
        document_errors(raw, max_depth).contains(
            ConfigErrorView::ScenarioTooDeep {
                scenario: name_at(Seq::empty(), raw.scenarios, path),
            },
        ),
        !valid(raw, max_depth),
{
    let deployers = keys(raw.deployers);
    let entry = entry_at(root_effective(), Seq::empty(), raw.scenarios, path, max_depth);
    law_flattened_table_holds_every_scenario(
        root_effective(),
        Seq::empty(),
        raw.scenarios,
        path,
        max_depth,
    );
    let e = ConfigErrorView::ScenarioTooDeep { scenario: entry.name };
    let errors = scenario_errors(entry, deployers);
    assert(errors[0] == e);
    lemma_scenario_reported(raw, max_depth, entry, e);
}

} // verus!
