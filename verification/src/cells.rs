//! Values that the list models hand to the view, cell by cell.

use crate::message::UploadProgress;
use vstd::prelude::*;

verus! {

/// The content of one cell of a list model.
#[derive(Debug, PartialEq, Eq)]
pub enum CellValue {
    /// The row or the role does not exist.
    Empty,
    Text(String),
    Flag(bool),
    Integer(i64),
    Progress(UploadProgress),
}

/// The mathematical value of a `CellValue`.
pub enum CellContent {
    Empty,
    Text(Seq<char>),
    Flag(bool),
    Integer(i64),
    Progress(UploadProgress),
}

impl View for CellValue {
    type V = CellContent;

    open spec fn view(&self) -> CellContent {
        match self {
            CellValue::Empty => CellContent::Empty,
            CellValue::Text(s) => CellContent::Text(s@),
            CellValue::Flag(b) => CellContent::Flag(*b),
            CellValue::Integer(n) => CellContent::Integer(*n),
            CellValue::Progress(p) => CellContent::Progress(*p),
        }
    }
}

/// One role of a list model: its number and the name the view knows it by.
#[derive(Debug, PartialEq, Eq)]
pub struct Role {
    pub number: i32,
    pub name: &'static str,
}

impl View for Role {
    type V = (i32, Seq<char>);

    open spec fn view(&self) -> (i32, Seq<char>) {
        (self.number, self.name@)
    }
}

impl DeepView for Role {
    type V = (i32, Seq<char>);

    open spec fn deep_view(&self) -> (i32, Seq<char>) {
        self@
    }
}

/// The roles numbered from zero in the order of `names`.
pub open spec fn numbered(names: Seq<Seq<char>>) -> Seq<(i32, Seq<char>)> {
    Seq::new(names.len(), |i: int| (i as i32, names[i]))
}

} // verus!
