//! The defects a settings document can have.

use vstd::prelude::*;

verus! {

/// The tables of a settings document.
#[derive(Clone, Copy, Debug, PartialEq, Eq, Structural)]
pub enum TableKind {
    Networks,
    Subgraphs,
    Orderbooks,
    Tokens,
    Deployers,
    Orders,
    Scenarios,
    Charts,
    Plots,
    Deployments,
}

/// The fields that hold a reference or a numeric literal, each with the kind
/// of entry that has it.
#[derive(Clone, Copy, Debug, PartialEq, Eq, Structural)]
pub enum FieldKind {
    OrderbookNetwork,
    OrderbookSubgraph,
    TokenNetwork,
    DeployerNetwork,
    OrderNetwork,
    OrderDeployer,
    OrderOrderbook,
    /// The token of an input or output of an order.
    OrderToken,
    /// The vault id of an input or output of an order.
    OrderVaultId,
    ScenarioDeployer,
    ChartScenario,
    DeploymentScenario,
    DeploymentOrder,
}

impl FieldKind {
    /// The table whose entries have the field.
    pub open spec fn holder(self) -> TableKind {
        match self {
            FieldKind::OrderbookNetwork | FieldKind::OrderbookSubgraph => TableKind::Orderbooks,
            FieldKind::TokenNetwork => TableKind::Tokens,
            FieldKind::DeployerNetwork => TableKind::Deployers,
            FieldKind::OrderNetwork
            | FieldKind::OrderDeployer
            | FieldKind::OrderOrderbook
            | FieldKind::OrderToken
            | FieldKind::OrderVaultId => TableKind::Orders,
            FieldKind::ScenarioDeployer => TableKind::Scenarios,
            FieldKind::ChartScenario => TableKind::Charts,
            FieldKind::DeploymentScenario | FieldKind::DeploymentOrder => TableKind::Deployments,
        }
    }

    /// The table that the field refers into. A vault id refers to nothing.
    pub open spec fn target(self) -> Option<TableKind> {
        match self {
            FieldKind::OrderbookNetwork
            | FieldKind::TokenNetwork
            | FieldKind::DeployerNetwork
            | FieldKind::OrderNetwork => Some(TableKind::Networks),
            FieldKind::OrderbookSubgraph => Some(TableKind::Subgraphs),
            FieldKind::OrderDeployer | FieldKind::ScenarioDeployer => Some(TableKind::Deployers),
            FieldKind::OrderOrderbook => Some(TableKind::Orderbooks),
            FieldKind::OrderToken => Some(TableKind::Tokens),
            FieldKind::ChartScenario | FieldKind::DeploymentScenario => Some(TableKind::Scenarios),
            FieldKind::DeploymentOrder => Some(TableKind::Orders),
            FieldKind::OrderVaultId => None,
        }
    }
}

/// One defect of a settings document.
#[derive(Clone, Debug, PartialEq, Eq)]
pub enum ConfigError {
    /// The text does not have the shape of a settings document.
    MalformedDocument { message: String },
    /// A name is used twice within one table.
    DuplicateKey { table: TableKind, name: String },
    /// A reference names an entry that its target table does not have:
    /// `table` is the table looked into, `field` where the reference stands.
    UnknownReference { table: TableKind, field: FieldKind, name: String },
    /// Neither the scenario nor any of its ancestors names a deployer.
    MissingDeployer { scenario: String },
    /// Two flattened scenarios have the same composite name.
    DuplicateScenarioName { name: String },
    /// A large-integer field is neither a decimal nor a `0x` hexadecimal literal
    /// of at most 256 bits.
    InvalidNumericLiteral { field: FieldKind, value: String },
    /// The scenario has children below the permitted nesting depth.
    ScenarioTooDeep { scenario: String },
}

/// The mathematical value of a [`ConfigError`].
pub enum ConfigErrorView {
    MalformedDocument { message: Seq<char> },
    DuplicateKey { table: TableKind, name: Seq<char> },
    UnknownReference { table: TableKind, field: FieldKind, name: Seq<char> },
    MissingDeployer { scenario: Seq<char> },
    DuplicateScenarioName { name: Seq<char> },
    InvalidNumericLiteral { field: FieldKind, value: Seq<char> },
    ScenarioTooDeep { scenario: Seq<char> },
}

impl View for ConfigError {
    type V = ConfigErrorView;

    open spec fn view(&self) -> ConfigErrorView {
        match *self {
            ConfigError::MalformedDocument { message } => ConfigErrorView::MalformedDocument {
                message: message@,
            },
            ConfigError::DuplicateKey { table, name } => ConfigErrorView::DuplicateKey {
                table,
                name: name@,
            },
            ConfigError::UnknownReference { table, field, name } => {
                ConfigErrorView::UnknownReference { table, field, name: name@ }
            },
            ConfigError::MissingDeployer { scenario } => ConfigErrorView::MissingDeployer {
                scenario: scenario@,
            },
            ConfigError::DuplicateScenarioName { name } => ConfigErrorView::DuplicateScenarioName {
                name: name@,
            },
            ConfigError::InvalidNumericLiteral { field, value } => {
                ConfigErrorView::InvalidNumericLiteral { field, value: value@ }
            },
            ConfigError::ScenarioTooDeep { scenario } => ConfigErrorView::ScenarioTooDeep {
                scenario: scenario@,
            },
        }
    }
}

/// The values of a list of errors, in order.
pub open spec fn errors_view(errors: Seq<ConfigError>) -> Seq<ConfigErrorView> {
    errors.map_values(|e: ConfigError| e@)
}

/// Appends one error to a list.
pub fn push_error(errors: &mut Vec<ConfigError>, e: ConfigError)
    ensures
        errors_view(final(errors)@) == errors_view(old(errors)@).push(e@),
{
    errors.push(e);
    assert(errors_view(errors@) =~= errors_view(old(errors)@).push(e@));
}

} // verus!
