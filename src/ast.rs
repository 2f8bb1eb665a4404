//! The syntax tree the parser produces, and its mathematical model.
//!
//! Each type of the tree has a view: the same tree with strings as
//! sequences of characters and vectors as sequences. The grammar is stated
//! over these models.

use vstd::prelude::*;

verus! {

/// One parsed statement.
#[derive(Clone, Debug, PartialEq, Eq)]
pub enum Statement {
    Select(Select),
    Insert(Insert),
}

/// The marker an `INSERT` statement parses to.
#[derive(Clone, Debug, PartialEq, Eq)]
pub struct Insert {}

/// A `SELECT` statement.
#[derive(Clone, Debug, PartialEq, Eq)]
pub struct Select {
    pub distinct: bool,
    pub json: bool,
    pub select: Vec<SelectElement>,
    pub from: Vec<String>,
    pub where_: Vec<RelationElement>,
    pub order_by: Option<OrderBy>,
    pub limit: Option<u64>,
    pub allow_filtering: bool,
}

/// One entry of the field list, with its optional alias.
#[derive(Clone, Debug, PartialEq, Eq)]
pub struct SelectElement {
    pub expr: Expr,
    pub as_alias: Option<String>,
}

/// An expression: the wildcard, a name, or a constant.
#[derive(Clone, Debug, PartialEq, Eq)]
pub enum Expr {
    Wildcard,
    Name(String),
    Constant(Constant),
}

/// A literal constant.
#[derive(Clone, Debug, PartialEq, Eq)]
pub enum Constant {
    Decimal(i64),
    String(String),
    Bool(bool),
}

/// A relation of the `WHERE` clause.
#[derive(Clone, Debug, PartialEq, Eq)]
pub enum RelationElement {
    Comparison(RelationComparison),
}

/// `lhs operator rhs`.
#[derive(Clone, Debug, PartialEq, Eq)]
pub struct RelationComparison {
    pub lhs: Expr,
    pub operator: ComparisonOperator,
    pub rhs: Expr,
}

/// The comparison operators.
#[derive(Clone, Copy, Debug, PartialEq, Eq)]
pub enum ComparisonOperator {
    Equals,
    GreaterThan,
    GreaterThanOrEqualTo,
    LessThan,
    LessThanOrEqualTo,
}

/// `ORDER BY name [ASC|DESC]`.
#[derive(Clone, Debug, PartialEq, Eq)]
pub struct OrderBy {
    pub name: String,
    pub ordering: Ordering,
}

/// The direction of an `ORDER BY`.
#[derive(Clone, Copy, Debug, PartialEq, Eq)]
pub enum Ordering {
    Asc,
    Desc,
}

/// The model of a `Constant`.
pub enum ConstantModel {
    Decimal(i64),
    String(Seq<char>),
    Bool(bool),
}

/// The model of an `Expr`.
pub enum ExprModel {
    Wildcard,
    Name(Seq<char>),
    Constant(ConstantModel),
}

/// The model of a `SelectElement`.
pub struct SelectElementModel {
    pub expr: ExprModel,
    pub as_alias: Option<Seq<char>>,
}

/// The model of a `RelationComparison`.
pub struct ComparisonModel {
    pub lhs: ExprModel,
    pub operator: ComparisonOperator,
    pub rhs: ExprModel,
}

/// The model of a `RelationElement`.
pub enum RelationModel {
    Comparison(ComparisonModel),
}

/// The model of an `OrderBy`.
pub struct OrderByModel {
    pub name: Seq<char>,
    pub ordering: Ordering,
}

/// The model of a `Select`.
pub struct SelectModel {
    pub distinct: bool,
    pub json: bool,
    pub select: Seq<SelectElementModel>,
    pub from: Seq<Seq<char>>,
    pub where_: Seq<RelationModel>,
    pub order_by: Option<OrderByModel>,
    pub limit: Option<u64>,
    pub allow_filtering: bool,
}

/// The model of a `Statement`.
pub enum StatementModel {
    Select(SelectModel),
    Insert,
}

impl View for ComparisonOperator {
    type V = ComparisonOperator;

    open spec fn view(&self) -> ComparisonOperator {
        *self
    }
}

impl View for Ordering {
    type V = Ordering;

    open spec fn view(&self) -> Ordering {
        *self
    }
}

impl View for Constant {
    type V = ConstantModel;

    open spec fn view(&self) -> ConstantModel {
        match self {
            Constant::Decimal(v) => ConstantModel::Decimal(*v),
            Constant::String(s) => ConstantModel::String(s@),
            Constant::Bool(b) => ConstantModel::Bool(*b),
        }
    }
}

impl View for Expr {
    type V = ExprModel;

    open spec fn view(&self) -> ExprModel {
        match self {
            Expr::Wildcard => ExprModel::Wildcard,
            Expr::Name(s) => ExprModel::Name(s@),
            Expr::Constant(c) => ExprModel::Constant(c@),
        }
    }
}

impl View for SelectElement {
    type V = SelectElementModel;

    open spec fn view(&self) -> SelectElementModel {
        SelectElementModel {
            expr: self.expr@,
            as_alias: match self.as_alias {
                Some(a) => Some(a@),
                None => None,
            },
        }
    }
}

impl View for RelationElement {
    type V = RelationModel;

    open spec fn view(&self) -> RelationModel {
        match self {
            RelationElement::Comparison(c) => RelationModel::Comparison(
                ComparisonModel { lhs: c.lhs@, operator: c.operator, rhs: c.rhs@ },
            ),
        }
    }
}

impl View for OrderBy {
    type V = OrderByModel;

    open spec fn view(&self) -> OrderByModel {
        OrderByModel { name: self.name@, ordering: self.ordering }
    }
}

/// The models of a sequence of field list entries.
pub open spec fn elements_model(v: Seq<SelectElement>) -> Seq<SelectElementModel> {
    v.map_values(|e: SelectElement| e@)
}

/// The models of a sequence of relations.
pub open spec fn relations_model(v: Seq<RelationElement>) -> Seq<RelationModel> {
    v.map_values(|e: RelationElement| e@)
}

impl View for Select {
    type V = SelectModel;

    open spec fn view(&self) -> SelectModel {
        SelectModel {
            distinct: self.distinct,
            json: self.json,
            select: elements_model(self.select@),
            from: self.from@.map_values(|s: String| s@),
            where_: relations_model(self.where_@),
            order_by: match self.order_by {
                Some(o) => Some(o@),
                None => None,
            },
            limit: self.limit,
            allow_filtering: self.allow_filtering,
        }
    }
}

impl View for Statement {
    type V = StatementModel;

    open spec fn view(&self) -> StatementModel {
        match self {
            Statement::Select(s) => StatementModel::Select(s@),
            Statement::Insert(_) => StatementModel::Insert,
        }
    }
}

} // verus!
