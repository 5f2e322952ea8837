//! The statement tree the engine consumes: a plain-value mirror of the
//! SQL subset this engine understands. The driver converts the parser's
//! output into these shapes; every shape the engine does not support is
//! carried as an explicit `Unsupported` variant, so that evaluation can
//! reject it with a `GeneralError` instead of guessing.

use vstd::prelude::*;

verus! {

/// A literal value in a statement.
#[derive(Debug, Clone)]
pub enum SqlValue {
    Number(String),
    SingleQuotedString(String),
    NationalStringLiteral(String),
    HexStringLiteral(String),
    Boolean(bool),
    Interval,
    Null,
}

/// The mathematical value of a literal.
pub enum SqlValueV {
    Number(Seq<char>),
    SingleQuotedString(Seq<char>),
    NationalStringLiteral(Seq<char>),
    HexStringLiteral(Seq<char>),
    Boolean(bool),
    Interval,
    Null,
}

impl SqlValue {
    /// The mathematical value of this literal.
    pub open spec fn view_value(self) -> SqlValueV {
        match self {
            SqlValue::Number(s) => SqlValueV::Number(s@),
            SqlValue::SingleQuotedString(s) => SqlValueV::SingleQuotedString(s@),
            SqlValue::NationalStringLiteral(s) => SqlValueV::NationalStringLiteral(s@),
            SqlValue::HexStringLiteral(s) => SqlValueV::HexStringLiteral(s@),
            SqlValue::Boolean(b) => SqlValueV::Boolean(b),
            SqlValue::Interval => SqlValueV::Interval,
            SqlValue::Null => SqlValueV::Null,
        }
    }

    /// An equal copy of this literal.
    pub fn duplicate(&self) -> (r: SqlValue)
        ensures
            r == *self,
    {
        match self {
            SqlValue::Number(s) => SqlValue::Number(s.clone()),
            SqlValue::SingleQuotedString(s) => SqlValue::SingleQuotedString(s.clone()),
            SqlValue::NationalStringLiteral(s) => SqlValue::NationalStringLiteral(s.clone()),
            SqlValue::HexStringLiteral(s) => SqlValue::HexStringLiteral(s.clone()),
            SqlValue::Boolean(b) => SqlValue::Boolean(*b),
            SqlValue::Interval => SqlValue::Interval,
            SqlValue::Null => SqlValue::Null,
        }
    }
}

/// A binary operator. Operators the engine does not evaluate arrive as
/// `Unsupported` and are rejected at evaluation time.
#[derive(Debug, Clone, Copy, PartialEq, Eq, Structural)]
pub enum SqlOperator {
    Plus,
    Minus,
    Eq,
    Unsupported,
}

/// An expression in a statement.
#[derive(Debug)]
pub enum SqlExpr {
    Identifier(String),
    CompoundIdentifier(Vec<String>),
    BinaryOp { left: Box<SqlExpr>, op: SqlOperator, right: Box<SqlExpr> },
    Value(SqlValue),
    Wildcard,
    QualifiedWildcard(Vec<String>),
    Unsupported,
}

/// The mathematical value of an expression.
pub enum SqlExprV {
    Identifier(Seq<char>),
    CompoundIdentifier(Seq<Seq<char>>),
    BinaryOp { left: Box<SqlExprV>, op: SqlOperator, right: Box<SqlExprV> },
    Value(SqlValueV),
    Wildcard,
    QualifiedWildcard(Seq<Seq<char>>),
    Unsupported,
}

/// The view of a sequence of identifiers.
pub open spec fn view_idents(v: Seq<String>) -> Seq<Seq<char>> {
    v.map_values(|s: String| s@)
}

/// Appending one identifier appends its view.
pub proof fn lemma_view_idents_push(prev: Seq<String>, s: String)
    ensures
        view_idents(prev.push(s)) == view_idents(prev).push(s@),
{
    assert forall|j: int|
        0 <= j < prev.len() + 1 implies #[trigger] view_idents(prev.push(s))[j] == view_idents(
        prev,
    ).push(s@)[j] by {
        assert(view_idents(prev.push(s))[j] == prev.push(s)[j]@);
        if j < prev.len() {
            assert(prev.push(s)[j] == prev[j]);
            assert(view_idents(prev)[j] == prev[j]@);
        } else {
            assert(prev.push(s)[j] == s);
        }
    }
    assert(view_idents(prev.push(s)) =~= view_idents(prev).push(s@));
}

impl SqlExpr {
    /// The mathematical value of this expression.
    pub open spec fn view_expr(self) -> SqlExprV
        decreases self,
    {
        match self {
            SqlExpr::Identifier(s) => SqlExprV::Identifier(s@),
            SqlExpr::CompoundIdentifier(v) => SqlExprV::CompoundIdentifier(view_idents(v@)),
            SqlExpr::BinaryOp { left, op, right } => SqlExprV::BinaryOp {
                left: Box::new(left.view_expr()),
                op: op,
                right: Box::new(right.view_expr()),
            },
            SqlExpr::Value(v) => SqlExprV::Value(v.view_value()),
            SqlExpr::Wildcard => SqlExprV::Wildcard,
            SqlExpr::QualifiedWildcard(v) => SqlExprV::QualifiedWildcard(view_idents(v@)),
            SqlExpr::Unsupported => SqlExprV::Unsupported,
        }
    }
}

/// The TOP clause of a SELECT: an optional quantity expression.
#[derive(Debug)]
pub struct SqlTop {
    pub quantity: Option<SqlExpr>,
}

/// The view of a TOP clause.
pub struct SqlTopV {
    pub quantity: Option<SqlExprV>,
}

impl SqlTop {
    pub open spec fn view_top(self) -> SqlTopV {
        SqlTopV {
            quantity: match self.quantity {
                Option::None => None,
                Option::Some(e) => Some(e.view_expr()),
            },
        }
    }
}

/// One item of a SELECT projection list.
#[derive(Debug)]
pub enum SqlSelectItem {
    UnnamedExpr(SqlExpr),
    ExprWithAlias { expr: SqlExpr, alias: String },
    QualifiedWildcard(Vec<String>),
    Wildcard,
}

/// The view of a projection item.
pub enum SqlSelectItemV {
    UnnamedExpr(SqlExprV),
    ExprWithAlias { expr: SqlExprV, alias: Seq<char> },
    QualifiedWildcard(Seq<Seq<char>>),
    Wildcard,
}

impl SqlSelectItem {
    pub open spec fn view_item(self) -> SqlSelectItemV {
        match self {
            SqlSelectItem::UnnamedExpr(e) => SqlSelectItemV::UnnamedExpr(e.view_expr()),
            SqlSelectItem::ExprWithAlias { expr, alias } => SqlSelectItemV::ExprWithAlias {
                expr: expr.view_expr(),
                alias: alias@,
            },
            SqlSelectItem::QualifiedWildcard(v) => SqlSelectItemV::QualifiedWildcard(
                view_idents(v@),
            ),
            SqlSelectItem::Wildcard => SqlSelectItemV::Wildcard,
        }
    }
}

/// A relation reference: a named table, optionally bound to an alias.
#[derive(Debug)]
pub enum SqlTableFactor {
    Table { name: String, alias: Option<String> },
    Unsupported,
}

/// The view of a relation reference.
pub enum SqlTableFactorV {
    Table { name: Seq<char>, alias: Option<Seq<char>> },
    Unsupported,
}

impl SqlTableFactor {
    pub open spec fn view_factor(self) -> SqlTableFactorV {
        match self {
            SqlTableFactor::Table { name, alias } => SqlTableFactorV::Table {
                name: name@,
                alias: match alias {
                    Option::None => None,
                    Option::Some(a) => Some(a@),
                },
            },
            SqlTableFactor::Unsupported => SqlTableFactorV::Unsupported,
        }
    }
}

/// A join condition.
#[derive(Debug)]
pub enum SqlJoinConstraint {
    On(SqlExpr),
    Unsupported,
}

/// The view of a join condition.
pub enum SqlJoinConstraintV {
    On(SqlExprV),
    Unsupported,
}

impl SqlJoinConstraint {
    pub open spec fn view_constraint(self) -> SqlJoinConstraintV {
        match self {
            SqlJoinConstraint::On(e) => SqlJoinConstraintV::On(e.view_expr()),
            SqlJoinConstraint::Unsupported => SqlJoinConstraintV::Unsupported,
        }
    }
}

/// A join operator with its condition.
#[derive(Debug)]
pub enum SqlJoinOperator {
    Inner(SqlJoinConstraint),
    LeftOuter(SqlJoinConstraint),
    Unsupported,
}

/// The view of a join operator.
pub enum SqlJoinOperatorV {
    Inner(SqlJoinConstraintV),
    LeftOuter(SqlJoinConstraintV),
    Unsupported,
}

impl SqlJoinOperator {
    pub open spec fn view_join_op(self) -> SqlJoinOperatorV {
        match self {
            SqlJoinOperator::Inner(c) => SqlJoinOperatorV::Inner(c.view_constraint()),
            SqlJoinOperator::LeftOuter(c) => SqlJoinOperatorV::LeftOuter(c.view_constraint()),
            SqlJoinOperator::Unsupported => SqlJoinOperatorV::Unsupported,
        }
    }
}

/// One JOIN clause.
#[derive(Debug)]
pub struct SqlJoin {
    pub relation: SqlTableFactor,
    pub join_operator: SqlJoinOperator,
}

/// The view of a JOIN clause.
pub struct SqlJoinV {
    pub relation: SqlTableFactorV,
    pub join_operator: SqlJoinOperatorV,
}

impl SqlJoin {
    pub open spec fn view_join(self) -> SqlJoinV {
        SqlJoinV {
            relation: self.relation.view_factor(),
            join_operator: self.join_operator.view_join_op(),
        }
    }
}

/// A FROM item: one relation and its joins.
#[derive(Debug)]
pub struct SqlTableWithJoins {
    pub relation: SqlTableFactor,
    pub joins: Vec<SqlJoin>,
}

/// The view of a FROM item.
pub struct SqlTableWithJoinsV {
    pub relation: SqlTableFactorV,
    pub joins: Seq<SqlJoinV>,
}

impl SqlTableWithJoins {
    pub open spec fn view_twj(self) -> SqlTableWithJoinsV {
        SqlTableWithJoinsV {
            relation: self.relation.view_factor(),
            joins: self.joins@.map_values(|j: SqlJoin| j.view_join()),
        }
    }
}

/// A SELECT statement body.
#[derive(Debug)]
pub struct SqlSelect {
    pub distinct: bool,
    pub top: Option<SqlTop>,
    pub projection: Vec<SqlSelectItem>,
    pub from: Vec<SqlTableWithJoins>,
    pub group_by: Vec<SqlExpr>,
    pub selection: Option<SqlExpr>,
    pub having: Option<SqlExpr>,
}

/// The view of a SELECT body.
pub struct SqlSelectV {
    pub distinct: bool,
    pub top: Option<SqlTopV>,
    pub projection: Seq<SqlSelectItemV>,
    pub from: Seq<SqlTableWithJoinsV>,
    pub group_by: Seq<SqlExprV>,
    pub selection: Option<SqlExprV>,
    pub having: Option<SqlExprV>,
}

impl SqlSelect {
    pub open spec fn view_select(self) -> SqlSelectV {
        SqlSelectV {
            distinct: self.distinct,
            top: match self.top {
                Option::None => None,
                Option::Some(t) => Some(t.view_top()),
            },
            projection: self.projection@.map_values(|i: SqlSelectItem| i.view_item()),
            from: self.from@.map_values(|t: SqlTableWithJoins| t.view_twj()),
            group_by: self.group_by@.map_values(|e: SqlExpr| e.view_expr()),
            selection: match self.selection {
                Option::None => None,
                Option::Some(e) => Some(e.view_expr()),
            },
            having: match self.having {
                Option::None => None,
                Option::Some(e) => Some(e.view_expr()),
            },
        }
    }
}

/// A query: the engine evaluates SELECT bodies only.
#[derive(Debug)]
pub enum SqlSetExpr {
    Select(Box<SqlSelect>),
    Unsupported,
}

/// The view of a query body.
pub enum SqlSetExprV {
    Select(Box<SqlSelectV>),
    Unsupported,
}

#[derive(Debug)]
pub struct SqlQuery {
    pub body: SqlSetExpr,
}

/// The view of a query.
pub struct SqlQueryV {
    pub body: SqlSetExprV,
}

impl SqlQuery {
    pub open spec fn view_query(self) -> SqlQueryV {
        SqlQueryV {
            body: match self.body {
                SqlSetExpr::Select(s) => SqlSetExprV::Select(Box::new(s.view_select())),
                SqlSetExpr::Unsupported => SqlSetExprV::Unsupported,
            },
        }
    }
}

/// One SET assignment of an UPDATE statement. Assignment application is
/// intentionally unspecified: the engine evaluates the predicate and
/// selects candidate rows, it never applies an assignment.
#[derive(Debug)]
pub struct SqlAssignment {
    pub id: String,
    pub value: SqlExpr,
}

/// The view of a SET assignment.
pub struct SqlAssignmentV {
    pub id: Seq<char>,
    pub value: SqlExprV,
}

impl SqlAssignment {
    pub open spec fn view_assignment(self) -> SqlAssignmentV {
        SqlAssignmentV { id: self.id@, value: self.value.view_expr() }
    }
}

/// A top-level statement.
#[derive(Debug)]
pub enum SqlStatement {
    Query(Box<SqlQuery>),
    Insert { table_name: String, columns: Vec<String>, source: Box<SqlQuery> },
    Update { table_name: String, assignments: Vec<SqlAssignment>, selection: Option<SqlExpr> },
    ShowColumns { table_name: String },
    Unsupported,
}

/// The view of a top-level statement.
pub enum SqlStatementV {
    Query(Box<SqlQueryV>),
    Insert { table_name: Seq<char>, columns: Seq<Seq<char>>, source: Box<SqlQueryV> },
    Update {
        table_name: Seq<char>,
        assignments: Seq<SqlAssignmentV>,
        selection: Option<SqlExprV>,
    },
    ShowColumns { table_name: Seq<char> },
    Unsupported,
}

impl SqlStatement {
    pub open spec fn view_statement(self) -> SqlStatementV {
        match self {
            SqlStatement::Query(q) => SqlStatementV::Query(Box::new(q.view_query())),
            SqlStatement::Insert { table_name, columns, source } => SqlStatementV::Insert {
                table_name: table_name@,
                columns: view_idents(columns@),
                source: Box::new(source.view_query()),
            },
            SqlStatement::Update { table_name, assignments, selection } => SqlStatementV::Update {
                table_name: table_name@,
                assignments: assignments@.map_values(|a: SqlAssignment| a.view_assignment()),
                selection: match selection {
                    Option::None => None,
                    Option::Some(e) => Some(e.view_expr()),
                },
            },
            SqlStatement::ShowColumns { table_name } => SqlStatementV::ShowColumns {
                table_name: table_name@,
            },
            SqlStatement::Unsupported => SqlStatementV::Unsupported,
        }
    }
}

} // verus!
