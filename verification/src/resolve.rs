//! The reference resolver: table by table, every name that an entry refers
//! to is looked up in the table it points into and replaced by a handle.
//!
//! Each table is resolved against the names of the tables it depends on:
//! networks and subgraphs first, then orderbooks, tokens and deployers, then
//! orders. A table's defects are its repeated names, then those of each
//! entry in order. Nothing stops at the first defect.

use crate::collect::{
    check_duplicates, concat_upto, duplicate_errors, raw_keys, ref_errors, resolve_name,
    resolve_opt_name, resolve_ref, table_names,
};
use crate::config::{
    deployment_in_range, in_range, ios_in_range, opt_in_range, order_in_range, order_ios_view,
    orderbook_in_range, Chart, ChartView, Deployer, DeployerView, Deployment, DeploymentView, Order,
    OrderIO, OrderIOView, OrderView, Orderbook, OrderbookView, Resolved, Table, Token, TokenView,
};
use crate::error::{errors_view, push_error, ConfigError, ConfigErrorView, FieldKind, TableKind};
use crate::literal::{is_vault_id_literal, literal_value, parse_vault_id};
use crate::lookup::{index_of, names_view};
use crate::raw::{
    clone_opt, ios_view, keys, pairs_view, plots_view, table_view, ChartString, ChartStringView,
    DataPointsString, DeployerString, DeployerStringView, DeploymentString, DeploymentStringView,
    IOString, IOStringView, NetworkString, NetworkView, OrderString, OrderStringView,
    OrderbookString, OrderbookStringView, PlotString, TokenString, TokenStringView,
};
use vstd::prelude::*;

verus! {

/// The values of a list of records, in order.
pub open spec fn records_view<T: View>(records: Seq<T>) -> Seq<T::V> {
    records.map_values(|r: T| r@)
}

/// Copies a network.
pub fn copy_network(n: &NetworkString) -> (r: NetworkString)
    ensures
        r == *n,
{
    NetworkString {
        rpc: n.rpc.clone(),
        chain_id: n.chain_id,
        label: clone_opt(&n.label),
        network_id: n.network_id,
        currency: clone_opt(&n.currency),
    }
}

/// Resolves the networks table. A network refers to nothing, so the only
/// defects are repeated names, and every record is carried over as it is.
pub fn resolve_networks(raw: &Vec<(String, NetworkString)>, errors: &mut Vec<ConfigError>) -> (out:
    Table<NetworkString>)
    ensures
        errors_view(final(errors)@) == errors_view(old(errors)@) + duplicate_errors(
            TableKind::Networks,
            keys(table_view(raw@)),
        ),
        names_view(out.names@) == keys(table_view(raw@)),
        records_view(out.records@) == table_view(raw@).map_values(
            |e: (Seq<char>, NetworkView)| e.1,
        ),
{
    let names = table_names(raw);
    assert(raw_keys(raw@) =~= keys(table_view(raw@)));
    check_duplicates(&names, TableKind::Networks, errors);
    let mut records: Vec<NetworkString> = Vec::new();
    let mut i: usize = 0;
    while i < raw.len()
        invariant
            i <= raw.len(),
            records@.len() == i,
            forall|j: int| 0 <= j < i ==> #[trigger] records@[j] == raw@[j].1,
        decreases raw.len() - i,
    {
        records.push(copy_network(&raw[i].1));
        i += 1;
    }
    assert(records_view(records@) =~= table_view(raw@).map_values(
        |e: (Seq<char>, NetworkView)| e.1,
    ));
    Table { names, records }
}

/// Resolves the subgraphs table. A subgraph refers to nothing, so the only
/// defects are repeated names, and every endpoint is carried over as it is.
pub fn resolve_subgraphs(raw: &Vec<(String, String)>, errors: &mut Vec<ConfigError>) -> (out: Table<
    String,
>)
    ensures
        errors_view(final(errors)@) == errors_view(old(errors)@) + duplicate_errors(
            TableKind::Subgraphs,
            keys(pairs_view(raw@)),
        ),
        names_view(out.names@) == keys(pairs_view(raw@)),
        records_view(out.records@) == pairs_view(raw@).map_values(
            |e: (Seq<char>, Seq<char>)| e.1,
        ),
{
    let names = table_names(raw);
    assert(raw_keys(raw@) =~= keys(pairs_view(raw@)));
    check_duplicates(&names, TableKind::Subgraphs, errors);
    let mut records: Vec<String> = Vec::new();
    let mut i: usize = 0;
    while i < raw.len()
        invariant
            i <= raw.len(),
            records@.len() == i,
            forall|j: int| 0 <= j < i ==> #[trigger] records@[j] == raw@[j].1,
        decreases raw.len() - i,
    {
        records.push(raw[i].1.clone());
        i += 1;
    }
    assert(records_view(records@) =~= pairs_view(raw@).map_values(
        |e: (Seq<char>, Seq<char>)| e.1,
    ));
    Table { names, records }
}

// ---------------------------------------------------------------- orderbooks

/// The defects of one orderbook: its network, then its subgraph.
pub open spec fn orderbook_errors(
    o: OrderbookStringView,
    networks: Seq<Seq<char>>,
    subgraphs: Seq<Seq<char>>,
) -> Seq<ConfigErrorView> {
    ref_errors(TableKind::Networks, FieldKind::OrderbookNetwork, networks, o.network) + ref_errors(
        TableKind::Subgraphs,
        FieldKind::OrderbookSubgraph,
        subgraphs,
        o.subgraph,
    )
}

/// One orderbook with its references resolved.
pub open spec fn resolved_orderbook(
    o: OrderbookStringView,
    networks: Seq<Seq<char>>,
    subgraphs: Seq<Seq<char>>,
) -> OrderbookView {
    OrderbookView {
        address: o.address,
        network: resolve_ref(networks, o.network),
        subgraph: resolve_ref(subgraphs, o.subgraph),
        label: o.label,
    }
}

/// The defects of the first `n` orderbooks, in order.
pub open spec fn orderbook_errors_upto(
    raw: Seq<(Seq<char>, OrderbookStringView)>,
    networks: Seq<Seq<char>>,
    subgraphs: Seq<Seq<char>>,
    n: nat,
) -> Seq<ConfigErrorView> {
    concat_upto(|i: int| orderbook_errors(raw[i].1, networks, subgraphs), n)
}

/// The defects of the orderbooks table.
pub open spec fn orderbooks_errors(
    raw: Seq<(Seq<char>, OrderbookStringView)>,
    networks: Seq<Seq<char>>,
    subgraphs: Seq<Seq<char>>,
) -> Seq<ConfigErrorView> {
    duplicate_errors(TableKind::Orderbooks, keys(raw)) + orderbook_errors_upto(
        raw,
        networks,
        subgraphs,
        raw.len(),
    )
}

/// Resolves one orderbook.
pub fn resolve_orderbook(
    o: &OrderbookString,
    networks: &Vec<String>,
    subgraphs: &Vec<String>,
    errors: &mut Vec<ConfigError>,
) -> (r: Option<Orderbook>)
    ensures
        errors_view(final(errors)@) == errors_view(old(errors)@) + orderbook_errors(
            o@,
            names_view(networks@),
            names_view(subgraphs@),
        ),
        r is Some <==> orderbook_errors(o@, names_view(networks@), names_view(subgraphs@)).len()
            == 0,
        r matches Some(x) ==> x@ == resolved_orderbook(
            o@,
            names_view(networks@),
            names_view(subgraphs@),
        ) && orderbook_in_range(x@, networks@.len(), subgraphs@.len()),
{
    let ghost before = errors_view(errors@);
    let n0: usize = errors.len();
    let network = resolve_opt_name(
        networks,
        &o.network,
        TableKind::Networks,
        FieldKind::OrderbookNetwork,
        errors,
    );
    let subgraph = resolve_opt_name(
        subgraphs,
        &o.subgraph,
        TableKind::Subgraphs,
        FieldKind::OrderbookSubgraph,
        errors,
    );
    assert(errors_view(errors@) =~= before + orderbook_errors(
        o@,
        names_view(networks@),
        names_view(subgraphs@),
    ));
    assert(errors_view(errors@).len() == errors@.len());
    assert(before.len() == n0);
    if errors.len() == n0 {
        Some(Orderbook { address: o.address, network, subgraph, label: clone_opt(&o.label) })
    } else {
        None
    }
}

/// Resolves the orderbooks table against the names of the networks and of
/// the subgraphs.
pub fn resolve_orderbooks(
    raw: &Vec<(String, OrderbookString)>,
    networks: &Vec<String>,
    subgraphs: &Vec<String>,
    errors: &mut Vec<ConfigError>,
) -> (out: Resolved<Orderbook>)
    ensures
        errors_view(final(errors)@) == errors_view(old(errors)@) + orderbooks_errors(
            table_view(raw@),
            names_view(networks@), names_view(subgraphs@),
        ),
        names_view(out.names@) == keys(table_view(raw@)),
        out.records is Some <==> orderbook_errors_upto(
            table_view(raw@),
            names_view(networks@), names_view(subgraphs@),
            raw@.len(),
        ).len() == 0,
        out.records matches Some(records) ==> {
            &&& records@.len() == raw@.len()
            &&& forall|j: int|
                0 <= j < raw@.len() ==> (#[trigger] records@[j])@ == resolved_orderbook(
                    raw@[j].1@,
                    names_view(networks@), names_view(subgraphs@),
                )
            &&& forall|j: int| 0 <= j < raw@.len() ==> orderbook_in_range((#[trigger] records@[j])@, networks@.len(), subgraphs@.len())
        },
{
    let ghost before = errors_view(errors@);
    let ghost rv = table_view(raw@);
    let ghost nv = names_view(networks@);
    let ghost sv = names_view(subgraphs@);
    let names = table_names(raw);
    assert(raw_keys(raw@) =~= keys(rv));
    check_duplicates(&names, TableKind::Orderbooks, errors);
    let ghost base = errors_view(errors@);
    let mut records: Vec<Orderbook> = Vec::new();
    let mut i: usize = 0;
    assert(base + orderbook_errors_upto(rv, nv, sv, 0) =~= base);
    while i < raw.len()
        invariant
            i <= raw.len(),
            rv == table_view(raw@),
            nv == names_view(networks@),
            sv == names_view(subgraphs@),
            errors_view(errors@) == base + orderbook_errors_upto(rv, nv, sv, i as nat),
            records@.len() <= i,
            orderbook_errors_upto(rv, nv, sv, i as nat).len() == 0 <==> records@.len() == i,
            records@.len() == i ==> forall|j: int|
                0 <= j < i ==> (#[trigger] records@[j])@ == resolved_orderbook(raw@[j].1@, nv, sv),
            forall|j: int| 0 <= j < records@.len() ==> orderbook_in_range((#[trigger] records@[j])@, networks@.len(), subgraphs@.len()),
        decreases raw.len() - i,
    {
        let r = resolve_orderbook(&raw[i].1, networks, subgraphs, errors);
        proof {
            assert(rv[i as int].1 == raw@[i as int].1@);
            assert(errors_view(errors@) =~= base + orderbook_errors_upto(rv, nv, sv, (i + 1) as nat));
        }
        match r {
            Some(x) => {
                records.push(x);
            },
            None => {},
        }
        i += 1;
    }
    assert(errors_view(errors@) =~= before + orderbooks_errors(rv, nv, sv));
    let records = if records.len() == raw.len() {
        Some(records)
    } else {
        None
    };
    Resolved { names, records }
}

// -------------------------------------------------------------------- tokens

/// The defect of one token, if its network dangles.
pub open spec fn token_errors(t: TokenStringView, networks: Seq<Seq<char>>) -> Seq<
    ConfigErrorView,
> {
    ref_errors(TableKind::Networks, FieldKind::TokenNetwork, networks, Some(t.network))
}

/// One token with its network resolved.
pub open spec fn resolved_token(t: TokenStringView, networks: Seq<Seq<char>>) -> TokenView {
    TokenView {
        network: index_of(networks, t.network)->0,
        address: t.address,
        decimals: t.decimals,
        label: t.label,
        symbol: t.symbol,
    }
}

/// The defects of the first `n` tokens, in order.
pub open spec fn token_errors_upto(
    raw: Seq<(Seq<char>, TokenStringView)>,
    networks: Seq<Seq<char>>,
    n: nat,
) -> Seq<ConfigErrorView> {
    concat_upto(|i: int| token_errors(raw[i].1, networks), n)
}

/// The defects of the tokens table.
pub open spec fn tokens_errors(
    raw: Seq<(Seq<char>, TokenStringView)>,
    networks: Seq<Seq<char>>,
) -> Seq<ConfigErrorView> {
    duplicate_errors(TableKind::Tokens, keys(raw)) + token_errors_upto(raw, networks, raw.len())
}

/// Resolves one token.
pub fn resolve_token(t: &TokenString, networks: &Vec<String>, errors: &mut Vec<ConfigError>) -> (r:
    Option<Token>)
    ensures
        errors_view(final(errors)@) == errors_view(old(errors)@) + token_errors(
            t@,
            names_view(networks@),
        ),
        r is Some <==> token_errors(t@, names_view(networks@)).len() == 0,
        r matches Some(x) ==> x@ == resolved_token(t@, names_view(networks@)) && in_range(
            x@.network,
            networks@.len(),
        ),
{
    match resolve_name(networks, &t.network, TableKind::Networks, FieldKind::TokenNetwork, errors) {
        Some(network) => Some(
            Token {
                network,
                address: t.address,
                decimals: t.decimals,
                label: clone_opt(&t.label),
                symbol: clone_opt(&t.symbol),
            },
        ),
        None => None,
    }
}

/// Resolves the tokens table against the names of the networks.
pub fn resolve_tokens(
    raw: &Vec<(String, TokenString)>,
    networks: &Vec<String>,
    errors: &mut Vec<ConfigError>,
) -> (out: Resolved<Token>)
    ensures
        errors_view(final(errors)@) == errors_view(old(errors)@) + tokens_errors(
            table_view(raw@),
            names_view(networks@),
        ),
        names_view(out.names@) == keys(table_view(raw@)),
        out.records is Some <==> token_errors_upto(
            table_view(raw@),
            names_view(networks@),
            raw@.len(),
        ).len() == 0,
        out.records matches Some(records) ==> {
            &&& records@.len() == raw@.len()
            &&& forall|j: int|
                0 <= j < raw@.len() ==> (#[trigger] records@[j])@ == resolved_token(
                    raw@[j].1@,
                    names_view(networks@),
                )
            &&& forall|j: int| 0 <= j < raw@.len() ==> in_range((#[trigger] records@[j])@.network, networks@.len())
        },
{
    let ghost before = errors_view(errors@);
    let ghost rv = table_view(raw@);
    let ghost nv = names_view(networks@);
    let names = table_names(raw);
    assert(raw_keys(raw@) =~= keys(rv));
    check_duplicates(&names, TableKind::Tokens, errors);
    let ghost base = errors_view(errors@);
    let mut records: Vec<Token> = Vec::new();
    let mut i: usize = 0;
    assert(base + token_errors_upto(rv, nv, 0) =~= base);
    while i < raw.len()
        invariant
            i <= raw.len(),
            rv == table_view(raw@),
            nv == names_view(networks@),
            errors_view(errors@) == base + token_errors_upto(rv, nv, i as nat),
            records@.len() <= i,
            token_errors_upto(rv, nv, i as nat).len() == 0 <==> records@.len() == i,
            records@.len() == i ==> forall|j: int|
                0 <= j < i ==> (#[trigger] records@[j])@ == resolved_token(raw@[j].1@, nv),
            forall|j: int| 0 <= j < records@.len() ==> in_range((#[trigger] records@[j])@.network, networks@.len()),
        decreases raw.len() - i,
    {
        let r = resolve_token(&raw[i].1, networks, errors);
        proof {
            assert(rv[i as int].1 == raw@[i as int].1@);
            assert(errors_view(errors@) =~= base + token_errors_upto(rv, nv, (i + 1) as nat));
        }
        match r {
            Some(x) => {
                records.push(x);
            },
            None => {},
        }
        i += 1;
    }
    assert(errors_view(errors@) =~= before + tokens_errors(rv, nv));
    let records = if records.len() == raw.len() {
        Some(records)
    } else {
        None
    };
    Resolved { names, records }
}

// ----------------------------------------------------------------- deployers

/// The defect of one deployer, if its network dangles.
pub open spec fn deployer_errors(d: DeployerStringView, networks: Seq<Seq<char>>) -> Seq<
    ConfigErrorView,
> {
    ref_errors(TableKind::Networks, FieldKind::DeployerNetwork, networks, d.network)
}

/// One deployer with its network resolved.
pub open spec fn resolved_deployer(d: DeployerStringView, networks: Seq<Seq<char>>) -> DeployerView {
    DeployerView { address: d.address, network: resolve_ref(networks, d.network), label: d.label }
}

/// The defects of the first `n` deployers, in order.
pub open spec fn deployer_errors_upto(
    raw: Seq<(Seq<char>, DeployerStringView)>,
    networks: Seq<Seq<char>>,
    n: nat,
) -> Seq<ConfigErrorView> {
    concat_upto(|i: int| deployer_errors(raw[i].1, networks), n)
}

/// The defects of the deployers table.
pub open spec fn deployers_errors(
    raw: Seq<(Seq<char>, DeployerStringView)>,
    networks: Seq<Seq<char>>,
) -> Seq<ConfigErrorView> {
    duplicate_errors(TableKind::Deployers, keys(raw)) + deployer_errors_upto(
        raw,
        networks,
        raw.len(),
    )
}

/// Resolves one deployer.
pub fn resolve_deployer(
    d: &DeployerString,
    networks: &Vec<String>,
    errors: &mut Vec<ConfigError>,
) -> (r: Option<Deployer>)
    ensures
        errors_view(final(errors)@) == errors_view(old(errors)@) + deployer_errors(
            d@,
            names_view(networks@),
        ),
        r is Some <==> deployer_errors(d@, names_view(networks@)).len() == 0,
        r matches Some(x) ==> x@ == resolved_deployer(d@, names_view(networks@)) && opt_in_range(
            x@.network,
            networks@.len(),
        ),
{
    let n0: usize = errors.len();
    let ghost before = errors_view(errors@);
    let network = resolve_opt_name(
        networks,
        &d.network,
        TableKind::Networks,
        FieldKind::DeployerNetwork,
        errors,
    );
    assert(errors_view(errors@).len() == errors@.len());
    assert(before.len() == n0);
    if errors.len() == n0 {
        Some(Deployer { address: d.address, network, label: clone_opt(&d.label) })
    } else {
        None
    }
}

/// Resolves the deployers table against the names of the networks.
pub fn resolve_deployers(
    raw: &Vec<(String, DeployerString)>,
    networks: &Vec<String>,
    errors: &mut Vec<ConfigError>,
) -> (out: Resolved<Deployer>)
    ensures
        errors_view(final(errors)@) == errors_view(old(errors)@) + deployers_errors(
            table_view(raw@),
            names_view(networks@),
        ),
        names_view(out.names@) == keys(table_view(raw@)),
        out.records is Some <==> deployer_errors_upto(
            table_view(raw@),
            names_view(networks@),
            raw@.len(),
        ).len() == 0,
        out.records matches Some(records) ==> {
            &&& records@.len() == raw@.len()
            &&& forall|j: int|
                0 <= j < raw@.len() ==> (#[trigger] records@[j])@ == resolved_deployer(
                    raw@[j].1@,
                    names_view(networks@),
                )
            &&& forall|j: int| 0 <= j < raw@.len() ==> opt_in_range((#[trigger] records@[j])@.network, networks@.len())
        },
{
    let ghost before = errors_view(errors@);
    let ghost rv = table_view(raw@);
    let ghost nv = names_view(networks@);
    let names = table_names(raw);
    assert(raw_keys(raw@) =~= keys(rv));
    check_duplicates(&names, TableKind::Deployers, errors);
    let ghost base = errors_view(errors@);
    let mut records: Vec<Deployer> = Vec::new();
    let mut i: usize = 0;
    assert(base + deployer_errors_upto(rv, nv, 0) =~= base);
    while i < raw.len()
        invariant
            i <= raw.len(),
            rv == table_view(raw@),
            nv == names_view(networks@),
            errors_view(errors@) == base + deployer_errors_upto(rv, nv, i as nat),
            records@.len() <= i,
            deployer_errors_upto(rv, nv, i as nat).len() == 0 <==> records@.len() == i,
            records@.len() == i ==> forall|j: int|
                0 <= j < i ==> (#[trigger] records@[j])@ == resolved_deployer(raw@[j].1@, nv),
            forall|j: int| 0 <= j < records@.len() ==> opt_in_range((#[trigger] records@[j])@.network, networks@.len()),
        decreases raw.len() - i,
    {
        let r = resolve_deployer(&raw[i].1, networks, errors);
        proof {
            assert(rv[i as int].1 == raw@[i as int].1@);
            assert(errors_view(errors@) =~= base + deployer_errors_upto(rv, nv, (i + 1) as nat));
        }
        match r {
            Some(x) => {
                records.push(x);
            },
            None => {},
        }
        i += 1;
    }
    assert(errors_view(errors@) =~= before + deployers_errors(rv, nv));
    let records = if records.len() == raw.len() {
        Some(records)
    } else {
        None
    };
    Resolved { names, records }
}

// -------------------------------------------------------------------- orders

/// The defect of a vault id, if it is no literal of a number below 2^256.
pub open spec fn vault_id_errors(literal: Seq<char>) -> Seq<ConfigErrorView> {
    if is_vault_id_literal(literal) {
        Seq::empty()
    } else {
        seq![ConfigErrorView::InvalidNumericLiteral { field: FieldKind::OrderVaultId, value: literal }]
    }
}

/// The defects of one input or output: its token, then its vault id.
pub open spec fn io_errors(io: IOStringView, tokens: Seq<Seq<char>>) -> Seq<ConfigErrorView> {
    ref_errors(TableKind::Tokens, FieldKind::OrderToken, tokens, Some(io.token)) + vault_id_errors(
        io.vault_id,
    )
}

/// One input or output with its token resolved and its vault id read.
pub open spec fn resolved_io(io: IOStringView, tokens: Seq<Seq<char>>) -> OrderIOView {
    OrderIOView { token: index_of(tokens, io.token)->0, vault_id: literal_value(io.vault_id) }
}

/// The defects of the first `n` of a list of inputs or outputs, in order.
pub open spec fn ios_errors_upto(ios: Seq<IOStringView>, tokens: Seq<Seq<char>>, n: nat) -> Seq<
    ConfigErrorView,
> {
    concat_upto(|k: int| io_errors(ios[k], tokens), n)
}

/// The defects of a list of inputs or outputs.
pub open spec fn ios_errors(ios: Seq<IOStringView>, tokens: Seq<Seq<char>>) -> Seq<
    ConfigErrorView,
> {
    ios_errors_upto(ios, tokens, ios.len())
}

/// A list of inputs or outputs, each resolved.
pub open spec fn resolved_ios(ios: Seq<IOStringView>, tokens: Seq<Seq<char>>) -> Seq<OrderIOView> {
    ios.map_values(|io: IOStringView| resolved_io(io, tokens))
}

/// Resolves one input or output.
pub fn resolve_io(io: &IOString, tokens: &Vec<String>, errors: &mut Vec<ConfigError>) -> (r: Option<
    OrderIO,
>)
    ensures
        errors_view(final(errors)@) == errors_view(old(errors)@) + io_errors(
            io@,
            names_view(tokens@),
        ),
        r is Some <==> io_errors(io@, names_view(tokens@)).len() == 0,
        r matches Some(x) ==> x@ == resolved_io(io@, names_view(tokens@)) && in_range(
            x@.token,
            tokens@.len(),
        ),
{
    let ghost before = errors_view(errors@);
    let token = resolve_name(tokens, &io.token, TableKind::Tokens, FieldKind::OrderToken, errors);
    let ghost middle = errors_view(errors@);
    let vault_id = parse_vault_id(io.vault_id.as_str());
    if vault_id.is_none() {
        push_error(
            errors,
            ConfigError::InvalidNumericLiteral {
                field: FieldKind::OrderVaultId,
                value: io.vault_id.clone(),
            },
        );
    }
    assert(errors_view(errors@) =~= middle + vault_id_errors(io@.vault_id));
    assert(errors_view(errors@) =~= before + io_errors(io@, names_view(tokens@)));
    match (token, vault_id) {
        (Some(token), Some(vault_id)) => Some(OrderIO { token, vault_id }),
        _ => None,
    }
}

/// Resolves a list of inputs or outputs against the names of the tokens. The
/// list is handed out if none of them has a defect.
pub fn resolve_ios(ios: &Vec<IOString>, tokens: &Vec<String>, errors: &mut Vec<ConfigError>) -> (out:
    Option<Vec<OrderIO>>)
    ensures
        errors_view(final(errors)@) == errors_view(old(errors)@) + ios_errors(
            ios_view(ios@),
            names_view(tokens@),
        ),
        out is Some <==> ios_errors(ios_view(ios@), names_view(tokens@)).len() == 0,
        out matches Some(list) ==> order_ios_view(list@) == resolved_ios(
            ios_view(ios@),
            names_view(tokens@),
        ) && ios_in_range(order_ios_view(list@), tokens@.len()),
{
    let ghost base = errors_view(errors@);
    let ghost iv = ios_view(ios@);
    let ghost tv = names_view(tokens@);
    let mut out: Vec<OrderIO> = Vec::new();
    let mut i: usize = 0;
    assert(base + ios_errors_upto(iv, tv, 0) =~= base);
    while i < ios.len()
        invariant
            i <= ios.len(),
            iv == ios_view(ios@),
            tv == names_view(tokens@),
            errors_view(errors@) == base + ios_errors_upto(iv, tv, i as nat),
            out@.len() <= i,
            ios_errors_upto(iv, tv, i as nat).len() == 0 <==> out@.len() == i,
            out@.len() == i ==> forall|j: int|
                0 <= j < i ==> (#[trigger] out@[j])@ == resolved_io(ios@[j]@, tv),
            forall|j: int| 0 <= j < out@.len() ==> in_range((#[trigger] out@[j])@.token, tokens@.len()),
        decreases ios.len() - i,
    {
        let r = resolve_io(&ios[i], tokens, errors);
        proof {
            assert(iv[i as int] == ios@[i as int]@);
            assert(errors_view(errors@) =~= base + ios_errors_upto(iv, tv, (i + 1) as nat));
        }
        match r {
            Some(x) => {
                out.push(x);
            },
            None => {},
        }
        i += 1;
    }
    if out.len() == ios.len() {
        assert(order_ios_view(out@) =~= resolved_ios(iv, tv));
        Some(out)
    } else {
        None
    }
}

/// The defects of one order: its network, its deployer, its orderbook, then
/// those of its inputs and of its outputs.
pub open spec fn order_errors(
    o: OrderStringView,
    networks: Seq<Seq<char>>,
    deployers: Seq<Seq<char>>,
    orderbooks: Seq<Seq<char>>,
    tokens: Seq<Seq<char>>,
) -> Seq<ConfigErrorView> {
    ref_errors(TableKind::Networks, FieldKind::OrderNetwork, networks, Some(o.network)) + ref_errors(
        TableKind::Deployers,
        FieldKind::OrderDeployer,
        deployers,
        o.deployer,
    ) + ref_errors(TableKind::Orderbooks, FieldKind::OrderOrderbook, orderbooks, o.orderbook) + ios_errors(
        o.inputs,
        tokens,
    ) + ios_errors(o.outputs, tokens)
}

/// One order with its references resolved.
pub open spec fn resolved_order(
    o: OrderStringView,
    networks: Seq<Seq<char>>,
    deployers: Seq<Seq<char>>,
    orderbooks: Seq<Seq<char>>,
    tokens: Seq<Seq<char>>,
) -> OrderView {
    OrderView {
        inputs: resolved_ios(o.inputs, tokens),
        outputs: resolved_ios(o.outputs, tokens),
        network: index_of(networks, o.network)->0,
        deployer: resolve_ref(deployers, o.deployer),
        orderbook: resolve_ref(orderbooks, o.orderbook),
    }
}

/// The defects of the first `n` orders, in order.
pub open spec fn order_errors_upto(
    raw: Seq<(Seq<char>, OrderStringView)>,
    networks: Seq<Seq<char>>,
    deployers: Seq<Seq<char>>,
    orderbooks: Seq<Seq<char>>,
    tokens: Seq<Seq<char>>,
    n: nat,
) -> Seq<ConfigErrorView> {
    concat_upto(|i: int| order_errors(raw[i].1, networks, deployers, orderbooks, tokens), n)
}

/// The defects of the orders table.
pub open spec fn orders_errors(
    raw: Seq<(Seq<char>, OrderStringView)>,
    networks: Seq<Seq<char>>,
    deployers: Seq<Seq<char>>,
    orderbooks: Seq<Seq<char>>,
    tokens: Seq<Seq<char>>,
) -> Seq<ConfigErrorView> {
    duplicate_errors(TableKind::Orders, keys(raw)) + order_errors_upto(
        raw,
        networks,
        deployers,
        orderbooks,
        tokens,
        raw.len(),
    )
}

/// Resolves one order.
pub fn resolve_order(
    o: &OrderString,
    networks: &Vec<String>,
    deployers: &Vec<String>,
    orderbooks: &Vec<String>,
    tokens: &Vec<String>,
    errors: &mut Vec<ConfigError>,
) -> (r: Option<Order>)
    ensures
        errors_view(final(errors)@) == errors_view(old(errors)@) + order_errors(
            o@,
            names_view(networks@),
            names_view(deployers@),
            names_view(orderbooks@),
            names_view(tokens@),
        ),
        r is Some <==> order_errors(
            o@,
            names_view(networks@),
            names_view(deployers@),
            names_view(orderbooks@),
            names_view(tokens@),
        ).len() == 0,
        r matches Some(x) ==> x@ == resolved_order(
            o@,
            names_view(networks@),
            names_view(deployers@),
            names_view(orderbooks@),
            names_view(tokens@),
        ) && order_in_range(
            x@,
            networks@.len(),
            deployers@.len(),
            orderbooks@.len(),
            tokens@.len(),
        ),
{
    let ghost before = errors_view(errors@);
    let n0: usize = errors.len();
    let network = resolve_name(
        networks,
        &o.network,
        TableKind::Networks,
        FieldKind::OrderNetwork,
        errors,
    );
    let deployer = resolve_opt_name(
        deployers,
        &o.deployer,
        TableKind::Deployers,
        FieldKind::OrderDeployer,
        errors,
    );
    let orderbook = resolve_opt_name(
        orderbooks,
        &o.orderbook,
        TableKind::Orderbooks,
        FieldKind::OrderOrderbook,
        errors,
    );
    let inputs = resolve_ios(&o.inputs, tokens, errors);
    let outputs = resolve_ios(&o.outputs, tokens, errors);
    assert(errors_view(errors@) =~= before + order_errors(
        o@,
        names_view(networks@),
        names_view(deployers@),
        names_view(orderbooks@),
        names_view(tokens@),
    ));
    assert(errors_view(errors@).len() == errors@.len());
    assert(before.len() == n0);
    match (network, inputs, outputs) {
        (Some(network), Some(inputs), Some(outputs)) => {
            if errors.len() == n0 {
                Some(Order { inputs, outputs, network, deployer, orderbook })
            } else {
                None
            }
        },
        _ => None,
    }
}

/// Resolves the orders table against the names of the networks, deployers,
/// orderbooks and tokens.
pub fn resolve_orders(
    raw: &Vec<(String, OrderString)>,
    networks: &Vec<String>,
    deployers: &Vec<String>,
    orderbooks: &Vec<String>,
    tokens: &Vec<String>,
    errors: &mut Vec<ConfigError>,
) -> (out: Resolved<Order>)
    ensures
        errors_view(final(errors)@) == errors_view(old(errors)@) + orders_errors(
            table_view(raw@),
            names_view(networks@), names_view(deployers@), names_view(orderbooks@), names_view(tokens@),
        ),
        names_view(out.names@) == keys(table_view(raw@)),
        out.records is Some <==> order_errors_upto(
            table_view(raw@),
            names_view(networks@), names_view(deployers@), names_view(orderbooks@), names_view(tokens@),
            raw@.len(),
        ).len() == 0,
        out.records matches Some(records) ==> {
            &&& records@.len() == raw@.len()
            &&& forall|j: int|
                0 <= j < raw@.len() ==> (#[trigger] records@[j])@ == resolved_order(
                    raw@[j].1@,
                    names_view(networks@), names_view(deployers@), names_view(orderbooks@), names_view(tokens@),
                )
            &&& forall|j: int| 0 <= j < raw@.len() ==> order_in_range(
                (#[trigger] records@[j])@,
                networks@.len(),
                deployers@.len(),
                orderbooks@.len(),
                tokens@.len(),
            )
        },
{
    let ghost before = errors_view(errors@);
    let ghost rv = table_view(raw@);
    let ghost nv = names_view(networks@);
    let ghost dv = names_view(deployers@);
    let ghost ov = names_view(orderbooks@);
    let ghost tv = names_view(tokens@);
    let names = table_names(raw);
    assert(raw_keys(raw@) =~= keys(rv));
    check_duplicates(&names, TableKind::Orders, errors);
    let ghost base = errors_view(errors@);
    let mut records: Vec<Order> = Vec::new();
    let mut i: usize = 0;
    assert(base + order_errors_upto(rv, nv, dv, ov, tv, 0) =~= base);
    while i < raw.len()
        invariant
            i <= raw.len(),
            rv == table_view(raw@),
            nv == names_view(networks@),
            dv == names_view(deployers@),
            ov == names_view(orderbooks@),
            tv == names_view(tokens@),
            errors_view(errors@) == base + order_errors_upto(rv, nv, dv, ov, tv, i as nat),
            records@.len() <= i,
            order_errors_upto(rv, nv, dv, ov, tv, i as nat).len() == 0 <==> records@.len() == i,
            records@.len() == i ==> forall|j: int|
                0 <= j < i ==> (#[trigger] records@[j])@ == resolved_order(raw@[j].1@, nv, dv, ov, tv),
            forall|j: int| 0 <= j < records@.len() ==> order_in_range(
                (#[trigger] records@[j])@,
                networks@.len(),
                deployers@.len(),
                orderbooks@.len(),
                tokens@.len(),
            ),
        decreases raw.len() - i,
    {
        let r = resolve_order(&raw[i].1, networks, deployers, orderbooks, tokens, errors);
        proof {
            assert(rv[i as int].1 == raw@[i as int].1@);
            assert(errors_view(errors@) =~= base + order_errors_upto(rv, nv, dv, ov, tv, (i + 1) as nat));
        }
        match r {
            Some(x) => {
                records.push(x);
            },
            None => {},
        }
        i += 1;
    }
    assert(errors_view(errors@) =~= before + orders_errors(rv, nv, dv, ov, tv));
    let records = if records.len() == raw.len() {
        Some(records)
    } else {
        None
    };
    Resolved { names, records }
}

// -------------------------------------------------------------------- charts

/// The defects of one chart: its scenario, then the repeated names among its
/// plots.
pub open spec fn chart_errors(c: ChartStringView, scenarios: Seq<Seq<char>>) -> Seq<
    ConfigErrorView,
> {
    ref_errors(TableKind::Scenarios, FieldKind::ChartScenario, scenarios, c.scenario) + duplicate_errors(
        TableKind::Plots,
        keys(c.plots),
    )
}

/// One chart with its scenario resolved.
pub open spec fn resolved_chart(c: ChartStringView, scenarios: Seq<Seq<char>>) -> ChartView {
    ChartView { scenario: resolve_ref(scenarios, c.scenario), plots: c.plots }
}

/// The defects of the first `n` charts, in order.
pub open spec fn chart_errors_upto(
    raw: Seq<(Seq<char>, ChartStringView)>,
    scenarios: Seq<Seq<char>>,
    n: nat,
) -> Seq<ConfigErrorView> {
    concat_upto(|i: int| chart_errors(raw[i].1, scenarios), n)
}

/// The defects of the charts table.
pub open spec fn charts_errors(
    raw: Seq<(Seq<char>, ChartStringView)>,
    scenarios: Seq<Seq<char>>,
) -> Seq<ConfigErrorView> {
    duplicate_errors(TableKind::Charts, keys(raw)) + chart_errors_upto(raw, scenarios, raw.len())
}

/// Copies a list of named plots.
pub fn copy_plots(plots: &Vec<(String, PlotString)>) -> (r: Vec<(String, PlotString)>)
    ensures
        r@ == plots@,
{
    let mut out: Vec<(String, PlotString)> = Vec::new();
    let mut i: usize = 0;
    while i < plots.len()
        invariant
            i <= plots.len(),
            out@ == plots@.take(i as int),
        decreases plots.len() - i,
    {
        let p = &plots[i].1;
        let plot = PlotString {
            data: DataPointsString { x: p.data.x.clone(), y: p.data.y.clone() },
            plot_type: p.plot_type.clone(),
        };
        out.push((plots[i].0.clone(), plot));
        assert(out@ =~= plots@.take(i + 1));
        i += 1;
    }
    assert(plots@.take(i as int) =~= plots@);
    out
}

/// Resolves one chart.
pub fn resolve_chart(c: &ChartString, scenarios: &Vec<String>, errors: &mut Vec<ConfigError>) -> (r:
    Option<Chart>)
    ensures
        errors_view(final(errors)@) == errors_view(old(errors)@) + chart_errors(
            c@,
            names_view(scenarios@),
        ),
        r is Some <==> chart_errors(c@, names_view(scenarios@)).len() == 0,
        r matches Some(x) ==> x@ == resolved_chart(c@, names_view(scenarios@)) && opt_in_range(
            x@.scenario,
            scenarios@.len(),
        ),
{
    let ghost before = errors_view(errors@);
    let n0: usize = errors.len();
    let scenario = resolve_opt_name(
        scenarios,
        &c.scenario,
        TableKind::Scenarios,
        FieldKind::ChartScenario,
        errors,
    );
    let plot_names = table_names(&c.plots);
    assert(raw_keys(c.plots@) =~= keys(plots_view(c.plots@)));
    check_duplicates(&plot_names, TableKind::Plots, errors);
    assert(errors_view(errors@) =~= before + chart_errors(c@, names_view(scenarios@)));
    assert(errors_view(errors@).len() == errors@.len());
    assert(before.len() == n0);
    if errors.len() == n0 {
        Some(Chart { scenario, plots: copy_plots(&c.plots) })
    } else {
        None
    }
}

/// Resolves the charts table against the composite names of the flattened
/// scenarios.
pub fn resolve_charts(
    raw: &Vec<(String, ChartString)>,
    scenarios: &Vec<String>,
    errors: &mut Vec<ConfigError>,
) -> (out: Resolved<Chart>)
    ensures
        errors_view(final(errors)@) == errors_view(old(errors)@) + charts_errors(
            table_view(raw@),
            names_view(scenarios@),
        ),
        names_view(out.names@) == keys(table_view(raw@)),
        out.records is Some <==> chart_errors_upto(
            table_view(raw@),
            names_view(scenarios@),
            raw@.len(),
        ).len() == 0,
        out.records matches Some(records) ==> {
            &&& records@.len() == raw@.len()
            &&& forall|j: int|
                0 <= j < raw@.len() ==> (#[trigger] records@[j])@ == resolved_chart(
                    raw@[j].1@,
                    names_view(scenarios@),
                )
            &&& forall|j: int| 0 <= j < raw@.len() ==> opt_in_range((#[trigger] records@[j])@.scenario, scenarios@.len())
        },
{
    let ghost before = errors_view(errors@);
    let ghost rv = table_view(raw@);
    let ghost sv = names_view(scenarios@);
    let names = table_names(raw);
    assert(raw_keys(raw@) =~= keys(rv));
    check_duplicates(&names, TableKind::Charts, errors);
    let ghost base = errors_view(errors@);
    let mut records: Vec<Chart> = Vec::new();
    let mut i: usize = 0;
    assert(base + chart_errors_upto(rv, sv, 0) =~= base);
    while i < raw.len()
        invariant
            i <= raw.len(),
            rv == table_view(raw@),
            sv == names_view(scenarios@),
            errors_view(errors@) == base + chart_errors_upto(rv, sv, i as nat),
            records@.len() <= i,
            chart_errors_upto(rv, sv, i as nat).len() == 0 <==> records@.len() == i,
            records@.len() == i ==> forall|j: int|
                0 <= j < i ==> (#[trigger] records@[j])@ == resolved_chart(raw@[j].1@, sv),
            forall|j: int| 0 <= j < records@.len() ==> opt_in_range((#[trigger] records@[j])@.scenario, scenarios@.len()),
        decreases raw.len() - i,
    {
        let r = resolve_chart(&raw[i].1, scenarios, errors);
        proof {
            assert(rv[i as int].1 == raw@[i as int].1@);
            assert(errors_view(errors@) =~= base + chart_errors_upto(rv, sv, (i + 1) as nat));
        }
        match r {
            Some(x) => {
                records.push(x);
            },
            None => {},
        }
        i += 1;
    }
    assert(errors_view(errors@) =~= before + charts_errors(rv, sv));
    let records = if records.len() == raw.len() {
        Some(records)
    } else {
        None
    };
    Resolved { names, records }
}

// --------------------------------------------------------------- deployments

/// The defects of one deployment: its scenario, then its order.
pub open spec fn deployment_errors(
    d: DeploymentStringView,
    scenarios: Seq<Seq<char>>,
    orders: Seq<Seq<char>>,
) -> Seq<ConfigErrorView> {
    ref_errors(TableKind::Scenarios, FieldKind::DeploymentScenario, scenarios, Some(d.scenario))
        + ref_errors(TableKind::Orders, FieldKind::DeploymentOrder, orders, Some(d.order))
}

/// One deployment with its scenario and its order resolved.
pub open spec fn resolved_deployment(
    d: DeploymentStringView,
    scenarios: Seq<Seq<char>>,
    orders: Seq<Seq<char>>,
) -> DeploymentView {
    DeploymentView {
        scenario: index_of(scenarios, d.scenario)->0,
        order: index_of(orders, d.order)->0,
    }
}

/// The defects of the first `n` deployments, in order.
pub open spec fn deployment_errors_upto(
    raw: Seq<(Seq<char>, DeploymentStringView)>,
    scenarios: Seq<Seq<char>>,
    orders: Seq<Seq<char>>,
    n: nat,
) -> Seq<ConfigErrorView> {
    concat_upto(|i: int| deployment_errors(raw[i].1, scenarios, orders), n)
}

/// The defects of the deployments table.
pub open spec fn deployments_errors(
    raw: Seq<(Seq<char>, DeploymentStringView)>,
    scenarios: Seq<Seq<char>>,
    orders: Seq<Seq<char>>,
) -> Seq<ConfigErrorView> {
    duplicate_errors(TableKind::Deployments, keys(raw)) + deployment_errors_upto(
        raw,
        scenarios,
        orders,
        raw.len(),
    )
}

/// Resolves one deployment.
pub fn resolve_deployment(
    d: &DeploymentString,
    scenarios: &Vec<String>,
    orders: &Vec<String>,
    errors: &mut Vec<ConfigError>,
) -> (r: Option<Deployment>)
    ensures
        errors_view(final(errors)@) == errors_view(old(errors)@) + deployment_errors(
            d@,
            names_view(scenarios@),
            names_view(orders@),
        ),
        r is Some <==> deployment_errors(d@, names_view(scenarios@), names_view(orders@)).len()
            == 0,
        r matches Some(x) ==> x@ == resolved_deployment(
            d@,
            names_view(scenarios@),
            names_view(orders@),
        ) && deployment_in_range(x@, scenarios@.len(), orders@.len()),
{
    let ghost before = errors_view(errors@);
    let scenario = resolve_name(
        scenarios,
        &d.scenario,
        TableKind::Scenarios,
        FieldKind::DeploymentScenario,
        errors,
    );
    let order = resolve_name(orders, &d.order, TableKind::Orders, FieldKind::DeploymentOrder, errors);
    assert(errors_view(errors@) =~= before + deployment_errors(
        d@,
        names_view(scenarios@),
        names_view(orders@),
    ));
    match (scenario, order) {
        (Some(scenario), Some(order)) => Some(Deployment { scenario, order }),
        _ => None,
    }
}

/// Resolves the deployments table against the composite names of the
/// flattened scenarios and the names of the orders.
pub fn resolve_deployments(
    raw: &Vec<(String, DeploymentString)>,
    scenarios: &Vec<String>,
    orders: &Vec<String>,
    errors: &mut Vec<ConfigError>,
) -> (out: Resolved<Deployment>)
    ensures
        errors_view(final(errors)@) == errors_view(old(errors)@) + deployments_errors(
            table_view(raw@),
            names_view(scenarios@), names_view(orders@),
        ),
        names_view(out.names@) == keys(table_view(raw@)),
        out.records is Some <==> deployment_errors_upto(
            table_view(raw@),
            names_view(scenarios@), names_view(orders@),
            raw@.len(),
        ).len() == 0,
        out.records matches Some(records) ==> {
            &&& records@.len() == raw@.len()
            &&& forall|j: int|
                0 <= j < raw@.len() ==> (#[trigger] records@[j])@ == resolved_deployment(
                    raw@[j].1@,
                    names_view(scenarios@), names_view(orders@),
                )
            &&& forall|j: int| 0 <= j < raw@.len() ==> deployment_in_range((#[trigger] records@[j])@, scenarios@.len(), orders@.len())
        },
{
    let ghost before = errors_view(errors@);
    let ghost rv = table_view(raw@);
    let ghost sv = names_view(scenarios@);
    let ghost ov = names_view(orders@);
    let names = table_names(raw);
    assert(raw_keys(raw@) =~= keys(rv));
    check_duplicates(&names, TableKind::Deployments, errors);
    let ghost base = errors_view(errors@);
    let mut records: Vec<Deployment> = Vec::new();
    let mut i: usize = 0;
    assert(base + deployment_errors_upto(rv, sv, ov, 0) =~= base);
    while i < raw.len()
        invariant
            i <= raw.len(),
            rv == table_view(raw@),
            sv == names_view(scenarios@),
            ov == names_view(orders@),
            errors_view(errors@) == base + deployment_errors_upto(rv, sv, ov, i as nat),
            records@.len() <= i,
            deployment_errors_upto(rv, sv, ov, i as nat).len() == 0 <==> records@.len() == i,
            records@.len() == i ==> forall|j: int|
                0 <= j < i ==> (#[trigger] records@[j])@ == resolved_deployment(raw@[j].1@, sv, ov),
            forall|j: int| 0 <= j < records@.len() ==> deployment_in_range((#[trigger] records@[j])@, scenarios@.len(), orders@.len()),
        decreases raw.len() - i,
    {
        let r = resolve_deployment(&raw[i].1, scenarios, orders, errors);
        proof {
            assert(rv[i as int].1 == raw@[i as int].1@);
            assert(errors_view(errors@) =~= base + deployment_errors_upto(rv, sv, ov, (i + 1) as nat));
        }
        match r {
            Some(x) => {
                records.push(x);
            },
            None => {},
        }
        i += 1;
    }
    assert(errors_view(errors@) =~= before + deployments_errors(rv, sv, ov));
    let records = if records.len() == raw.len() {
        Some(records)
    } else {
        None
    };
    Resolved { names, records }
}

} // verus!
