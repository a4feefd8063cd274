//! The scenario inheritance resolver: the tree of scenarios is flattened into
//! a table, each scenario under its composite name and with all that it
//! inherits.
//!
//! A scenario takes its bindings, its run count and its deployer from its
//! parent, and overrides what it sets itself. The tree is walked depth first,
//! the parent before its children and the children in the order written.
//! Below a limit of nesting the walk stops and reports the scenario whose
//! children it left out.

use crate::bindings::{keys_distinct, overlay, pairs_map, Bindings};
use crate::collect::{
    check_duplicates, concat_upto, dangles, duplicate_errors, lemma_concat_empty, ref_errors,
    resolve_opt_name,
};
use crate::config::{in_range, Resolved, Scenario, ScenarioView};
use crate::error::{errors_view, push_error, ConfigError, ConfigErrorView, FieldKind, TableKind};
use crate::lookup::{find_name, index_of, names_view};
use crate::raw::{
    clone_opt, clone_pairs, lemma_scenarios_view, opt_str, pairs_view, scenarios_view,
    ScenarioString, ScenarioStringView,
};
use vstd::prelude::*;

verus! {

/// The run count of a scenario that neither sets one nor inherits one.
pub const DEFAULT_RUNS: u64 = 1;

/// How many levels of scenarios may be nested below a top-level scenario,
/// unless the caller says otherwise.
pub const DEFAULT_MAX_DEPTH: usize = 64;

/// What is in force at a scenario: its bindings, its run count, and the name
/// of its deployer, if it or an ancestor names one.
#[derive(Clone, Debug, PartialEq, Eq)]
pub struct Effective {
    /// The bindings in force, each key once.
    pub bindings: Vec<(String, String)>,
    pub runs: u64,
    pub deployer: Option<String>,
}

pub struct EffectiveView {
    pub bindings: Bindings,
    pub runs: u64,
    pub deployer: Option<Seq<char>>,
}

impl View for Effective {
    type V = EffectiveView;

    open spec fn view(&self) -> EffectiveView {
        EffectiveView {
            bindings: pairs_map(pairs_view(self.bindings@)),
            runs: self.runs,
            deployer: opt_str(self.deployer),
        }
    }
}

impl Effective {
    /// What a top-level scenario inherits: no binding, the default run count,
    /// no deployer.
    pub fn root() -> (r: Effective)
        ensures
            r@ == root_effective(),
            keys_distinct(pairs_view(r.bindings@)),
    {
        let r = Effective { bindings: Vec::new(), runs: DEFAULT_RUNS, deployer: None };
        assert(pairs_view(r.bindings@) =~= Seq::empty());
        assert(r@.bindings =~= root_effective().bindings);
        r
    }

    /// Copies the record.
    pub fn duplicate(&self) -> (r: Effective)
        ensures
            r@ == self@,
            r.bindings@ == self.bindings@,
    {
        Effective {
            bindings: clone_pairs(&self.bindings),
            runs: self.runs,
            deployer: clone_opt(&self.deployer),
        }
    }

    /// What is in force at `node`, given what it inherits.
    pub fn inherit(&self, node: &ScenarioString) -> (r: Effective)
        ensures
            r@ == effective(self@, node@),
            keys_distinct(pairs_view(r.bindings@)),
    {
        let bindings = overlay(&self.bindings, &node.bindings);
        let runs = match node.runs {
            Some(r) => r,
            None => self.runs,
        };
        let deployer = match &node.deployer {
            Some(name) => Some(name.clone()),
            None => clone_opt(&self.deployer),
        };
        Effective { bindings, runs, deployer }
    }
}

/// What a top-level scenario inherits.
pub open spec fn root_effective() -> EffectiveView {
    EffectiveView { bindings: Map::empty(), runs: DEFAULT_RUNS, deployer: None }
}

/// What is in force at a scenario, given what it inherits:
/// - its bindings are the inherited ones, overridden key by key by its own;
/// - its run count is its own, else the inherited one;
/// - its deployer is its own, else the inherited one.
pub open spec fn effective(inherited: EffectiveView, node: ScenarioStringView) -> EffectiveView {
    EffectiveView {
        bindings: inherited.bindings.union_prefer_right(pairs_map(node.bindings)),
        runs: match node.runs {
            Some(runs) => runs,
            None => inherited.runs,
        },
        deployer: match node.deployer {
            Some(name) => Some(name),
            None => inherited.deployer,
        },
    }
}

/// A scenario of the flattened table, before its deployer is looked up.
#[derive(Clone, Debug, PartialEq, Eq)]
pub struct FlatScenario {
    /// The composite name.
    pub name: String,
    /// The deployer that the scenario itself names.
    pub own_deployer: Option<String>,
    pub effective: Effective,
    /// The scenario has children, and they lie below the limit of nesting.
    pub truncated: bool,
}

pub struct FlatScenarioView {
    pub name: Seq<char>,
    pub own_deployer: Option<Seq<char>>,
    pub effective: EffectiveView,
    pub truncated: bool,
}

impl View for FlatScenario {
    type V = FlatScenarioView;

    open spec fn view(&self) -> FlatScenarioView {
        FlatScenarioView {
            name: self.name@,
            own_deployer: opt_str(self.own_deployer),
            effective: self.effective@,
            truncated: self.truncated,
        }
    }
}

/// The values of a flattened table, in order.
pub open spec fn flat_view(flat: Seq<FlatScenario>) -> Seq<FlatScenarioView> {
    flat.map_values(|f: FlatScenario| f@)
}

/// The composite names of a flattened table, in order.
pub open spec fn flat_names(flat: Seq<FlatScenarioView>) -> Seq<Seq<char>> {
    flat.map_values(|f: FlatScenarioView| f.name)
}

/// What the names of the children of a scenario begin with: the scenario's
/// composite name and the separator.
pub open spec fn child_prefix(name: Seq<char>) -> Seq<char> {
    name + seq!['.']
}

/// The entry of the flattened table for one scenario.
pub open spec fn flat_entry(
    inherited: EffectiveView,
    prefix: Seq<char>,
    name: Seq<char>,
    node: ScenarioStringView,
    depth_left: nat,
) -> FlatScenarioView {
    FlatScenarioView {
        name: prefix + name,
        own_deployer: node.deployer,
        effective: effective(inherited, node),
        truncated: depth_left == 0 && node.scenarios.len() > 0,
    }
}

/// The flattened table of a list of sibling scenarios: for each in order its
/// own entry, then the flattened table of its children, which inherit what is
/// in force at it. With no level left the children are left out.
pub open spec fn flatten(
    inherited: EffectiveView,
    prefix: Seq<char>,
    nodes: Seq<(Seq<char>, ScenarioStringView)>,
    depth_left: nat,
) -> Seq<FlatScenarioView>
    decreases depth_left, nodes.len(),
{
    if nodes.len() == 0 {
        Seq::empty()
    } else {
        let (name, node) = nodes.last();
        let entry = flat_entry(inherited, prefix, name, node, depth_left);
        let below = if depth_left == 0 {
            Seq::empty()
        } else {
            flatten(
                entry.effective,
                child_prefix(entry.name),
                node.scenarios,
                (depth_left - 1) as nat,
            )
        };
        flatten(inherited, prefix, nodes.drop_last(), depth_left).push(entry) + below
    }
}

/// The flattened table of a document's scenarios.
pub open spec fn flatten_all(
    scenarios: Seq<(Seq<char>, ScenarioStringView)>,
    max_depth: nat,
) -> Seq<FlatScenarioView> {
    flatten(root_effective(), Seq::empty(), scenarios, max_depth)
}

/// Every entry holds each key of its bindings once.
pub open spec fn flat_wf(flat: Seq<FlatScenario>) -> bool {
    forall|j: int|
        0 <= j < flat.len() ==> keys_distinct(pairs_view((#[trigger] flat[j]).effective.bindings@))
}

/// Appends to `out` the flattened table of a list of sibling scenarios.
fn flatten_into(
    inherited: &Effective,
    prefix: &String,
    nodes: &Vec<(String, ScenarioString)>,
    depth_left: usize,
    out: &mut Vec<FlatScenario>,
)
    requires
        flat_wf(old(out)@),
    ensures
        flat_view(final(out)@) == flat_view(old(out)@) + flatten(
            inherited@,
            prefix@,
            scenarios_view(nodes@),
            depth_left as nat,
        ),
        flat_wf(final(out)@),
    decreases depth_left,
{
    let ghost before = flat_view(out@);
    let ghost sv = scenarios_view(nodes@);
    let ghost d = depth_left as nat;
    proof {
        lemma_scenarios_view(nodes@);
        assert(sv.take(0) =~= Seq::empty());
        assert(before + flatten(inherited@, prefix@, sv.take(0), d) =~= before);
    }
    let mut i: usize = 0;
    while i < nodes.len()
        invariant
            i <= nodes.len(),
            sv == scenarios_view(nodes@),
            sv.len() == nodes@.len(),
            forall|j: int| 0 <= j < nodes@.len() ==> #[trigger] sv[j] == (nodes@[j].0@, nodes@[j].1@),
            d == depth_left as nat,
            flat_wf(out@),
            flat_view(out@) == before + flatten(inherited@, prefix@, sv.take(i as int), d),
        decreases nodes.len() - i,
    {
        let ghost so_far = flat_view(out@);
        let node = &nodes[i].1;
        let mut name = prefix.clone();
        name.append(nodes[i].0.as_str());
        let eff = inherited.inherit(node);
        let has_children = match &node.scenarios {
            Some(v) => v.len() > 0,
            None => false,
        };
        let ghost entry = flat_entry(inherited@, prefix@, nodes@[i as int].0@, node@, d);
        proof {
            if node.scenarios is Some {
                lemma_scenarios_view(node.scenarios->0@);
            }
            assert(has_children == (node@.scenarios.len() > 0));
        }
        out.push(
            FlatScenario {
                name: name.clone(),
                own_deployer: clone_opt(&node.deployer),
                effective: eff.duplicate(),
                truncated: depth_left == 0 && has_children,
            },
        );
        assert(flat_view(out@) =~= so_far.push(entry));
        if depth_left > 0 {
            match &node.scenarios {
                Some(v) => {
                    name.append(".");
                    proof {
                        reveal_strlit(".");
                        assert("."@ =~= seq!['.']);
                        assert(name@ == child_prefix(entry.name));
                    }
                    flatten_into(&eff, &name, v, depth_left - 1, out);
                },
                None => {
                    assert(flat_view(out@) =~= so_far.push(entry) + flatten(
                        entry.effective,
                        child_prefix(entry.name),
                        node@.scenarios,
                        (d - 1) as nat,
                    ));
                },
            }
        }
        proof {
            let next = sv.take(i + 1);
            assert(next.drop_last() =~= sv.take(i as int));
            assert(next.last() == sv[i as int]);
            let below = if d == 0 {
                Seq::empty()
            } else {
                flatten(entry.effective, child_prefix(entry.name), node@.scenarios, (d - 1) as nat)
            };
            assert(flat_view(out@) =~= so_far.push(entry) + below);
            assert(flatten(inherited@, prefix@, next, d) == flatten(
                inherited@,
                prefix@,
                sv.take(i as int),
                d,
            ).push(entry) + below);
            assert(flat_view(out@) =~= before + flatten(inherited@, prefix@, next, d));
        }
        i += 1;
    }
    assert(sv.take(i as int) =~= sv);
}

/// Flattens a document's scenarios: every scenario within `max_depth` levels
/// below a top-level one, the parent before its children and the children in
/// the order written, each with what is in force at it.
pub fn flatten_scenarios(scenarios: &Vec<(String, ScenarioString)>, max_depth: usize) -> (flat:
    Vec<FlatScenario>)
    ensures
        flat_view(flat@) == flatten_all(scenarios_view(scenarios@), max_depth as nat),
        flat_wf(flat@),
{
    let root = Effective::root();
    let prefix = String::new();
    let mut flat: Vec<FlatScenario> = Vec::new();
    assert(flat_view(flat@) =~= Seq::empty());
    flatten_into(&root, &prefix, scenarios, max_depth, &mut flat);
    assert(flat_view(flat@) =~= flatten_all(scenarios_view(scenarios@), max_depth as nat));
    flat
}

/// The deployer in force at a scenario is the one inherited by the list it
/// was flattened from, or else one that the scenario itself or an entry
/// before it in the table names.
pub proof fn lemma_deployer_in_force_is_named(
    inherited: EffectiveView,
    prefix: Seq<char>,
    nodes: Seq<(Seq<char>, ScenarioStringView)>,
    depth_left: nat,
    k: int,
) -> (j: int)
    requires
        0 <= k < flatten(inherited, prefix, nodes, depth_left).len(),
        flatten(inherited, prefix, nodes, depth_left)[k].effective.deployer != inherited.deployer,
    ensures
        0 <= j <= k,
        flatten(inherited, prefix, nodes, depth_left)[j].own_deployer is Some,
        flatten(inherited, prefix, nodes, depth_left)[j].own_deployer == flatten(
            inherited,
            prefix,
            nodes,
            depth_left,
        )[k].effective.deployer,
    decreases depth_left, nodes.len(),
{
    let (name, node) = nodes.last();
    let entry = flat_entry(inherited, prefix, name, node, depth_left);
    let front = flatten(inherited, prefix, nodes.drop_last(), depth_left);
    let below = if depth_left == 0 {
        Seq::empty()
    } else {
        flatten(entry.effective, child_prefix(entry.name), node.scenarios, (depth_left - 1) as nat)
    };
    let whole = flatten(inherited, prefix, nodes, depth_left);
    assert(nodes.len() > 0);
    assert(whole == front.push(entry) + below);
    if k < front.len() {
        assert(whole[k] == front[k]);
        let j = lemma_deployer_in_force_is_named(
            inherited,
            prefix,
            nodes.drop_last(),
            depth_left,
            k,
        );
        assert(whole[j] == front[j]);
        j
    } else if k == front.len() {
        assert(whole[k] == entry);
        k
    } else {
        let inner = k - front.len() - 1;
        assert(whole[k] == below[inner]);
        assert(whole[front.len() as int] == entry);
        if below[inner].effective.deployer == entry.effective.deployer {
            front.len() as int
        } else {
            let j = lemma_deployer_in_force_is_named(
                entry.effective,
                child_prefix(entry.name),
                node.scenarios,
                (depth_left - 1) as nat,
                inner,
            );
            assert(whole[front.len() + 1 + j] == below[j]);
            front.len() + 1 + j
        }
    }
}

/// The defects of one flattened scenario: that its children were left out,
/// that the deployer it names dangles, that neither it nor an ancestor names
/// a deployer.
pub open spec fn scenario_errors(f: FlatScenarioView, deployers: Seq<Seq<char>>) -> Seq<
    ConfigErrorView,
> {
    (if f.truncated {
        seq![ConfigErrorView::ScenarioTooDeep { scenario: f.name }]
    } else {
        Seq::empty()
    }) + ref_errors(TableKind::Deployers, FieldKind::ScenarioDeployer, deployers, f.own_deployer) + (if f.effective.deployer is None {
        seq![ConfigErrorView::MissingDeployer { scenario: f.name }]
    } else {
        Seq::empty()
    })
}

/// The defects of the first `n` flattened scenarios, in order.
pub open spec fn scenario_errors_upto(
    flat: Seq<FlatScenarioView>,
    deployers: Seq<Seq<char>>,
    n: nat,
) -> Seq<ConfigErrorView> {
    concat_upto(|i: int| scenario_errors(flat[i], deployers), n)
}

/// The defects of a flattened table: the composite names that clash, then
/// the defects of each scenario in order.
pub open spec fn flat_errors(flat: Seq<FlatScenarioView>, deployers: Seq<Seq<char>>) -> Seq<
    ConfigErrorView,
> {
    duplicate_errors(TableKind::Scenarios, flat_names(flat)) + scenario_errors_upto(
        flat,
        deployers,
        flat.len(),
    )
}

/// The defects of a document's scenarios.
pub open spec fn scenarios_errors(
    scenarios: Seq<(Seq<char>, ScenarioStringView)>,
    max_depth: nat,
    deployers: Seq<Seq<char>>,
) -> Seq<ConfigErrorView> {
    flat_errors(flatten_all(scenarios, max_depth), deployers)
}

/// The scenario that a flattened entry resolves to: what is in force at it,
/// with the handle of its deployer.
pub open spec fn resolved_scenario(f: FlatScenarioView, deployers: Seq<Seq<char>>) -> ScenarioView {
    ScenarioView {
        bindings: f.effective.bindings,
        runs: f.effective.runs,
        deployer: index_of(deployers, f.effective.deployer->0)->0,
    }
}

/// Where no scenario of a document has a defect, the deployer in force at
/// each is an entry of the deployers table: it is named by a scenario, and
/// no scenario names a deployer that dangles.
pub proof fn lemma_deployer_in_force_resolves(
    scenarios: Seq<(Seq<char>, ScenarioStringView)>,
    max_depth: nat,
    deployers: Seq<Seq<char>>,
    k: int,
)
    requires
        0 <= k < flatten_all(scenarios, max_depth).len(),
        dangles(deployers, flatten_all(scenarios, max_depth)[k].effective.deployer),
    ensures
        exists|j: int|
            0 <= j <= k && (#[trigger] scenario_errors(
                flatten_all(scenarios, max_depth)[j],
                deployers,
            )).len() > 0,
{
    let flat = flatten_all(scenarios, max_depth);
    let j = lemma_deployer_in_force_is_named(root_effective(), Seq::empty(), scenarios, max_depth, k);
    assert(dangles(deployers, flat[j].own_deployer));
    assert(scenario_errors(flat[j], deployers).len() > 0);
}

/// Reports the defects of one flattened scenario, and resolves it if it has
/// none and the deployer in force is an entry of the deployers table.
fn resolve_scenario(f: &FlatScenario, deployers: &Vec<String>, errors: &mut Vec<ConfigError>) -> (r:
    Option<Scenario>)
    requires
        keys_distinct(pairs_view(f.effective.bindings@)),
    ensures
        errors_view(final(errors)@) == errors_view(old(errors)@) + scenario_errors(
            f@,
            names_view(deployers@),
        ),
        r is Some <==> scenario_errors(f@, names_view(deployers@)).len() == 0 && !dangles(
            names_view(deployers@),
            f@.effective.deployer,
        ),
        r matches Some(x) ==> {
            &&& x@ == resolved_scenario(f@, names_view(deployers@))
            &&& in_range(x@.deployer, deployers@.len() as nat)
            &&& keys_distinct(pairs_view(x.bindings@))
        },
{
    let ghost before = errors_view(errors@);
    let n0: usize = errors.len();
    if f.truncated {
        push_error(errors, ConfigError::ScenarioTooDeep { scenario: f.name.clone() });
    }
    let _ = resolve_opt_name(
        deployers,
        &f.own_deployer,
        TableKind::Deployers,
        FieldKind::ScenarioDeployer,
        errors,
    );
    if f.effective.deployer.is_none() {
        push_error(errors, ConfigError::MissingDeployer { scenario: f.name.clone() });
    }
    assert(errors_view(errors@) =~= before + scenario_errors(f@, names_view(deployers@)));
    assert(errors_view(errors@).len() == errors@.len());
    assert(before.len() == n0);
    let found = match &f.effective.deployer {
        Some(name) => find_name(deployers, name.as_str()),
        None => None,
    };
    match found {
        Some(deployer) => {
            if errors.len() == n0 {
                Some(
                    Scenario {
                        bindings: clone_pairs(&f.effective.bindings),
                        runs: f.effective.runs,
                        deployer,
                    },
                )
            } else {
                None
            }
        },
        None => None,
    }
}

/// Flattens a document's scenarios and resolves each against the names of
/// the deployers.
pub fn resolve_scenarios(
    raw: &Vec<(String, ScenarioString)>,
    deployers: &Vec<String>,
    max_depth: usize,
    errors: &mut Vec<ConfigError>,
) -> (out: Resolved<Scenario>)
    ensures
        errors_view(final(errors)@) == errors_view(old(errors)@) + scenarios_errors(
            scenarios_view(raw@),
            max_depth as nat,
            names_view(deployers@),
        ),
        ({
            let flat = flatten_all(scenarios_view(raw@), max_depth as nat);
            &&& names_view(out.names@) == flat_names(flat)
            &&& out.records is Some <==> scenario_errors_upto(
                flat,
                names_view(deployers@),
                flat.len(),
            ).len() == 0
            &&& out.records matches Some(records) ==> {
                &&& records@.len() == flat.len()
                &&& forall|j: int|
                    0 <= j < flat.len() ==> (#[trigger] records@[j])@ == resolved_scenario(
                        flat[j],
                        names_view(deployers@),
                    )
                &&& forall|j: int|
                    0 <= j < flat.len() ==> in_range(
                        (#[trigger] records@[j])@.deployer,
                        deployers@.len() as nat,
                    ) && keys_distinct(pairs_view(records@[j].bindings@))
            }
        }),
{
    let ghost before = errors_view(errors@);
    let ghost sv = scenarios_view(raw@);
    let ghost dv = names_view(deployers@);
    let ghost fv = flatten_all(sv, max_depth as nat);
    let flat = flatten_scenarios(raw, max_depth);
    let mut names: Vec<String> = Vec::new();
    let mut k: usize = 0;
    while k < flat.len()
        invariant
            k <= flat.len(),
            names@.len() == k,
            forall|j: int| 0 <= j < k ==> (#[trigger] names@[j])@ == flat@[j].name@,
        decreases flat.len() - k,
    {
        names.push(flat[k].name.clone());
        k += 1;
    }
    assert(names_view(names@) =~= flat_names(fv));
    check_duplicates(&names, TableKind::Scenarios, errors);
    let ghost base = errors_view(errors@);
    let mut records: Vec<Scenario> = Vec::new();
    let mut i: usize = 0;
    assert(base + scenario_errors_upto(fv, dv, 0) =~= base);
    while i < flat.len()
        invariant
            i <= flat.len(),
            fv == flat_view(flat@),
            fv == flatten_all(sv, max_depth as nat),
            dv == names_view(deployers@),
            flat_wf(flat@),
            errors_view(errors@) == base + scenario_errors_upto(fv, dv, i as nat),
            records@.len() <= i,
            scenario_errors_upto(fv, dv, i as nat).len() == 0 <==> records@.len() == i,
            records@.len() == i ==> forall|j: int|
                0 <= j < i ==> (#[trigger] records@[j])@ == resolved_scenario(fv[j], dv),
            forall|j: int|
                0 <= j < records@.len() ==> in_range(
                    (#[trigger] records@[j])@.deployer,
                    deployers@.len() as nat,
                ) && keys_distinct(pairs_view(records@[j].bindings@)),
        decreases flat.len() - i,
    {
        let r = resolve_scenario(&flat[i], deployers, errors);
        proof {
            assert(fv[i as int] == flat@[i as int]@);
            assert(errors_view(errors@) =~= base + scenario_errors_upto(fv, dv, (i + 1) as nat));
            if r is None && scenario_errors(fv[i as int], dv).len() == 0 {
                // the deployer in force dangles, so a scenario before this one names it
                assert(dangles(dv, fv[i as int].effective.deployer));
                lemma_deployer_in_force_resolves(sv, max_depth as nat, dv, i as int);
                let j = choose|j: int|
                    0 <= j <= i && (#[trigger] scenario_errors(
                        flatten_all(sv, max_depth as nat)[j],
                        dv,
                    )).len() > 0;
                let f = |j: int| scenario_errors(fv[j], dv);
                assert(f(j).len() > 0);
                lemma_concat_empty(f, i as nat);
                assert(scenario_errors_upto(fv, dv, i as nat).len() > 0);
            }
        }
        match r {
            Some(x) => {
                records.push(x);
            },
            None => {},
        }
        i += 1;
    }
    assert(errors_view(errors@) =~= before + flat_errors(fv, dv));
    let records = if records.len() == flat.len() {
        Some(records)
    } else {
        None
    };
    Resolved { names, records }
}

} // verus!
