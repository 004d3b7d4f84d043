//! Legal entities grouping ledgers: the checks of a new entity and the
//! consolidated figures across an entity's ledgers.
use vstd::prelude::*;
use crate::amount::{Amount, checked_sub, sum_amounts, sum_all, total_value, representable_at, max_scale, lemma_sum_value};
use crate::error::{AppError, fails_validation, validation};
use crate::handlers::contacts::{present, present_field};
use crate::text::{trim_seq, trim_string};

verus! {

pub struct NewEntityForm {
    pub name: String,
    pub legal_name: Option<String>,
    pub tax_id: Option<String>,
}

/// The values an entity is stored with.
pub struct NewEntity {
    pub name: String,
    pub legal_name: Option<String>,
    pub tax_id: Option<String>,
}

/// An entity needs a name (stored trimmed); empty legal name and tax id
/// count as none.
pub fn validate_entity(form: &NewEntityForm) -> (r: Result<NewEntity, AppError>)
    ensures
        trim_seq(form.name@).len() == 0 ==> fails_validation(r, "Name is required"@),
        trim_seq(form.name@).len() > 0 ==> (r matches Ok(e) && e.name@ == trim_seq(form.name@)
            && (match e.legal_name {
            Some(l) => present(form.legal_name) == Some(l@),
            None => present(form.legal_name) is None,
        }) && (match e.tax_id {
            Some(t) => present(form.tax_id) == Some(t@),
            None => present(form.tax_id) is None,
        })),
{
    let name = trim_string(form.name.as_str());
    if name.as_str().is_empty() {
        return Err(validation("Name is required"));
    }
    Ok(NewEntity { name, legal_name: present_field(&form.legal_name), tax_id: present_field(&form.tax_id) })
}

/// One ledger's figures for the consolidated balance sheet.
#[derive(Debug, Clone, Copy)]
pub struct LedgerFigures {
    pub total_assets: Amount,
    pub total_liabilities: Amount,
    pub total_equity: Amount,
    pub income: Amount,
    pub expense: Amount,
}

pub open spec fn figures_wf(fs: Seq<LedgerFigures>) -> bool {
    forall|i: int|
        0 <= i < fs.len() ==> (#[trigger] fs[i]).total_assets.wf() && fs[i].total_liabilities.wf()
            && fs[i].total_equity.wf() && fs[i].income.wf() && fs[i].expense.wf()
}

pub open spec fn assets_of(fs: Seq<LedgerFigures>) -> Seq<Amount> {
    fs.map_values(|f: LedgerFigures| f.total_assets)
}

pub open spec fn liabilities_of(fs: Seq<LedgerFigures>) -> Seq<Amount> {
    fs.map_values(|f: LedgerFigures| f.total_liabilities)
}

pub open spec fn equity_of(fs: Seq<LedgerFigures>) -> Seq<Amount> {
    fs.map_values(|f: LedgerFigures| f.total_equity)
}

pub open spec fn income_of(fs: Seq<LedgerFigures>) -> Seq<Amount> {
    fs.map_values(|f: LedgerFigures| f.income)
}

pub open spec fn expense_of(fs: Seq<LedgerFigures>) -> Seq<Amount> {
    fs.map_values(|f: LedgerFigures| f.expense)
}

/// The consolidated totals.
pub struct Consolidated {
    pub total_assets: Amount,
    pub total_liabilities: Amount,
    pub total_equity: Amount,
    pub total_income: Amount,
    pub total_expense: Amount,
    pub net_income: Amount,
}

/// The consolidated figures: each total is the sum over the ledgers, and
/// the net income is total income less total expense.
pub fn consolidate(fs: &Vec<LedgerFigures>) -> (r: Consolidated)
    requires
        figures_wf(fs@),
        sum_amounts(assets_of(fs@)) is Some,
        sum_amounts(liabilities_of(fs@)) is Some,
        sum_amounts(equity_of(fs@)) is Some,
        sum_amounts(income_of(fs@)) is Some,
        sum_amounts(expense_of(fs@)) is Some,
        representable_at(
            total_value(income_of(fs@)) - total_value(expense_of(fs@)),
            max_scale(sum_amounts(income_of(fs@))->0, sum_amounts(expense_of(fs@))->0) as nat,
        ),
    ensures
        Some(r.total_assets) == sum_amounts(assets_of(fs@)),
        Some(r.total_liabilities) == sum_amounts(liabilities_of(fs@)),
        Some(r.total_equity) == sum_amounts(equity_of(fs@)),
        Some(r.total_income) == sum_amounts(income_of(fs@)),
        Some(r.total_expense) == sum_amounts(expense_of(fs@)),
        r.total_assets.value() == total_value(assets_of(fs@)),
        r.total_liabilities.value() == total_value(liabilities_of(fs@)),
        r.total_equity.value() == total_value(equity_of(fs@)),
        r.net_income.value() == total_value(income_of(fs@)) - total_value(expense_of(fs@)),
{
    let mut a: Vec<Amount> = Vec::new();
    let mut l: Vec<Amount> = Vec::new();
    let mut e: Vec<Amount> = Vec::new();
    let mut inc: Vec<Amount> = Vec::new();
    let mut exp: Vec<Amount> = Vec::new();
    for i in 0..fs.len()
        invariant
            figures_wf(fs@),
            a@ == assets_of(fs@.subrange(0, i as int)),
            l@ == liabilities_of(fs@.subrange(0, i as int)),
            e@ == equity_of(fs@.subrange(0, i as int)),
            inc@ == income_of(fs@.subrange(0, i as int)),
            exp@ == expense_of(fs@.subrange(0, i as int)),
    {
        let f = fs[i];
        a.push(f.total_assets);
        l.push(f.total_liabilities);
        e.push(f.total_equity);
        inc.push(f.income);
        exp.push(f.expense);
        assert(a@ =~= assets_of(fs@.subrange(0, i + 1)));
        assert(l@ =~= liabilities_of(fs@.subrange(0, i + 1)));
        assert(e@ =~= equity_of(fs@.subrange(0, i + 1)));
        assert(inc@ =~= income_of(fs@.subrange(0, i + 1)));
        assert(exp@ =~= expense_of(fs@.subrange(0, i + 1)));
    }
    assert(fs@.subrange(0, fs@.len() as int) =~= fs@);
    proof {
        lemma_sum_value(assets_of(fs@));
        lemma_sum_value(liabilities_of(fs@));
        lemma_sum_value(equity_of(fs@));
        lemma_sum_value(income_of(fs@));
        lemma_sum_value(expense_of(fs@));
    }
    let total_assets = match sum_all(&a) {
        Some(x) => x,
        None => Amount::zero(),
    };
    let total_liabilities = match sum_all(&l) {
        Some(x) => x,
        None => Amount::zero(),
    };
    let total_equity = match sum_all(&e) {
        Some(x) => x,
        None => Amount::zero(),
    };
    let total_income = match sum_all(&inc) {
        Some(x) => x,
        None => Amount::zero(),
    };
    let total_expense = match sum_all(&exp) {
        Some(x) => x,
        None => Amount::zero(),
    };
    let net_income = match checked_sub(total_income, total_expense) {
        Some(x) => x,
        None => Amount::zero(),
    };
    Consolidated { total_assets, total_liabilities, total_equity, total_income, total_expense, net_income }
}

/// A ledger's equity as the consolidated sheet shows it: assets less
/// liabilities.
pub fn ledger_equity(f: &LedgerFigures) -> (r: Amount)
    requires
        f.total_assets.wf(),
        f.total_liabilities.wf(),
        representable_at(
            f.total_assets.value() - f.total_liabilities.value(),
            max_scale(f.total_assets, f.total_liabilities) as nat,
        ),
    ensures
        r.wf(),
        r.value() == f.total_assets.value() - f.total_liabilities.value(),
        r.scale == max_scale(f.total_assets, f.total_liabilities),
{
    match checked_sub(f.total_assets, f.total_liabilities) {
        Some(x) => x,
        None => Amount::zero(),
    }
}

} // verus!
