//! What an archived PDF report is made of: its metadata and a table of
//! text cells, some of which link back into the application.
use vstd::prelude::*;

verus! {

/// Metadata printed in the PDF's info dictionary and page footers.
#[derive(Debug, Clone)]
pub struct PdfMeta {
    pub title: String,
    pub ledger_name: String,
    pub period_label: String,
    pub generation_iso: String,
    pub app_version: String,
}

/// One cell of a table, with an optional link.
#[derive(Debug, Clone)]
pub struct PdfCell {
    pub text: String,
    pub href: Option<String>,
}

/// A cell as contracts see it.
pub struct CellView {
    pub text: Seq<char>,
    pub href: Option<Seq<char>>,
}

impl View for PdfCell {
    type V = CellView;

    open spec fn view(&self) -> CellView {
        CellView {
            text: self.text@,
            href: match self.href {
                Some(h) => Some(h@),
                None => None,
            },
        }
    }
}

pub open spec fn cell_views(cells: Seq<PdfCell>) -> Seq<CellView> {
    cells.map_values(|c: PdfCell| c@)
}

impl PdfCell {
    pub fn plain(text: String) -> (r: PdfCell)
        ensures
            r@ == (CellView { text: text@, href: None }),
    {
        PdfCell { text, href: None }
    }

    pub fn linked(text: String, href: String) -> (r: PdfCell)
        ensures
            r@ == (CellView { text: text@, href: Some(href@) }),
    {
        PdfCell { text, href: Some(href) }
    }
}

/// A table: column headings, then rows of cells.
#[derive(Debug, Clone)]
pub struct PdfTable {
    pub columns: Vec<String>,
    pub rows: Vec<Vec<PdfCell>>,
}

} // verus!
