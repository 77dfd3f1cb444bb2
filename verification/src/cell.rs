//! The scalar layer: wire types, cells, scalar kinds and cell decoding.
//!
//! A physical row is a sequence of cells. Each cell either holds a value of
//! one of the supported scalar shapes or is null. A `ScalarKind` names the
//! target shape of one column and acts as the cell decoder for that shape:
//! it says which wire types it accepts and how a cell decodes.

use vstd::prelude::*;

verus! {

/// The wire type of one physical column, as reported by the row source.
#[derive(Clone, Copy, PartialEq, Eq, Structural, Debug)]
pub enum WireType {
    Int4,
    Int8,
    Bool,
    Text,
    Varchar,
}

/// The target scalar shape of one column; doubles as the decoder for cells
/// of that shape.
#[derive(Clone, Copy, PartialEq, Eq, Structural, Debug)]
pub enum ScalarKind {
    Int,
    Bool,
    Text,
}

/// One physical cell: a scalar value or an explicit null.
#[derive(Debug)]
pub enum Cell {
    Null,
    Int(i64),
    Bool(bool),
    Text(String),
}

/// Mathematical model of a cell.
pub enum CellModel {
    Null,
    Int(int),
    Bool(bool),
    Text(Seq<char>),
}

impl View for Cell {
    type V = CellModel;

    open spec fn view(&self) -> CellModel {
        match self {
            Cell::Null => CellModel::Null,
            Cell::Int(x) => CellModel::Int(*x as int),
            Cell::Bool(b) => CellModel::Bool(*b),
            Cell::Text(s) => CellModel::Text(s@),
        }
    }
}

impl ScalarKind {
    /// Whether a column of this wire type can be decoded as this kind.
    pub open spec fn spec_accepts(self, ty: WireType) -> bool {
        match self {
            ScalarKind::Int => ty == WireType::Int4 || ty == WireType::Int8,
            ScalarKind::Bool => ty == WireType::Bool,
            ScalarKind::Text => ty == WireType::Text || ty == WireType::Varchar,
        }
    }

    /// Whether a column of this wire type can be decoded as this kind.
    pub fn accepts(&self, ty: &WireType) -> (r: bool)
        ensures
            r == self.spec_accepts(*ty),
    {
        match self {
            ScalarKind::Int => *ty == WireType::Int4 || *ty == WireType::Int8,
            ScalarKind::Bool => *ty == WireType::Bool,
            ScalarKind::Text => *ty == WireType::Text || *ty == WireType::Varchar,
        }
    }

    /// Whether an explicit null cell decodes as this kind. No bare scalar
    /// kind absorbs a null: that is what the optional adapter is for.
    pub open spec fn spec_accepts_null(self) -> bool {
        false
    }

    /// Whether a non-null cell holds a value of this kind's shape.
    pub open spec fn spec_fits(self, c: CellModel) -> bool {
        match self {
            ScalarKind::Int => c is Int,
            ScalarKind::Bool => c is Bool,
            ScalarKind::Text => c is Text,
        }
    }
}

} // verus!
