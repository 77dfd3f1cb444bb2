//! Physical rows: the externally produced tabular input that binding reads.

use vstd::prelude::*;
use crate::cell::{Cell, CellModel, WireType};

verus! {

/// The metadata of one physical column: its name and its wire type.
#[derive(Debug)]
pub struct PhysicalColumn {
    pub name: String,
    pub ty: WireType,
}

/// Mathematical model of a physical column.
pub struct ColumnModel {
    pub name: Seq<char>,
    pub ty: WireType,
}

impl View for PhysicalColumn {
    type V = ColumnModel;

    open spec fn view(&self) -> ColumnModel {
        ColumnModel { name: self.name@, ty: self.ty }
    }
}

/// One materialized row: cells by position, with the column metadata
/// aligned positionally with the cells.
#[derive(Debug)]
pub struct Row {
    pub columns: Vec<PhysicalColumn>,
    pub cells: Vec<Cell>,
}

/// Mathematical model of a row.
pub struct RowModel {
    pub columns: Seq<ColumnModel>,
    pub cells: Seq<CellModel>,
}

pub open spec fn columns_view(s: Seq<PhysicalColumn>) -> Seq<ColumnModel> {
    s.map_values(|c: PhysicalColumn| c@)
}

pub open spec fn cells_view(s: Seq<Cell>) -> Seq<CellModel> {
    s.map_values(|c: Cell| c@)
}

impl View for Row {
    type V = RowModel;

    open spec fn view(&self) -> RowModel {
        RowModel { columns: columns_view(self.columns@), cells: cells_view(self.cells@) }
    }
}

impl Row {
    /// A row's cells are aligned with its column metadata.
    pub open spec fn wf(self) -> bool {
        self@.columns.len() == self@.cells.len()
    }

    pub fn new(columns: Vec<PhysicalColumn>, cells: Vec<Cell>) -> (r: Row)
        requires
            columns@.len() == cells@.len(),
        ensures
            r@.columns == columns_view(columns@),
            r@.cells == cells_view(cells@),
            r.wf(),
    {
        Row { columns, cells }
    }
}

/// A helper that lets entry points accept a row directly or through a
/// reference.
pub trait AsRow {
    spec fn spec_row(&self) -> Row;

    fn as_row(&self) -> (r: &Row)
        ensures
            *r == self.spec_row(),
    ;
}

impl AsRow for Row {
    open spec fn spec_row(&self) -> Row {
        *self
    }

    fn as_row(&self) -> (r: &Row) {
        self
    }
}

impl AsRow for &Row {
    open spec fn spec_row(&self) -> Row {
        **self
    }

    fn as_row(&self) -> (r: &Row) {
        *self
    }
}

} // verus!
