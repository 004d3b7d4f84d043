use openaccounting::amount::{amount_to_string, Amount};
use openaccounting::date::Date;
use openaccounting::error::AppError;
use openaccounting::handlers::fixed_assets::{
    annual_depreciation, annual_depreciation_checked, calculate_depreciation, calculate_depreciation_checked, dispose,
    net_book_value, validate_asset, AssetBook, NewAssetForm,
};

fn amt(mantissa: i128, scale: u32) -> Amount {
    Amount { mantissa, scale }
}

fn form() -> NewAssetForm {
    NewAssetForm {
        name: "  Delivery van ".to_string(),
        description: Some(String::new()),
        account_id: "67e55044-10b1-426f-9247-bb680e5fe0c8".to_string(),
        purchase_date: "2026-01-15".to_string(),
        purchase_cost: "24000.00".to_string(),
        salvage_value: None,
        useful_life_years: "5".to_string(),
        depreciation_method: "straight_line".to_string(),
    }
}

fn validation_of<T>(r: Result<T, AppError>) -> String {
    match r {
        Err(AppError::Validation(m)) => m,
        Err(e) => panic!("unexpected error {:?}", e),
        Ok(_) => panic!("expected a validation error"),
    }
}

#[test]
fn new_asset_is_checked_and_trimmed() {
    let a = match validate_asset(&form()) {
        Ok(a) => a,
        Err(e) => panic!("{:?}", e),
    };
    assert_eq!(a.name, "Delivery van");
    assert_eq!(a.description, None);
    assert_eq!(a.account_id, 0x67e55044_10b1_426f_9247_bb680e5fe0c8u128);
    assert_eq!(a.purchase_date, Date { year: 2026, month: 1, day: 15 });
    assert_eq!(amount_to_string(a.purchase_cost), "24000.00");
    assert_eq!(amount_to_string(a.salvage_value), "0");
    assert_eq!(a.useful_life_years, 5);
}

#[test]
fn new_asset_errors_in_order() {
    let mut f = form();
    f.name = "   ".to_string();
    assert_eq!(validation_of(validate_asset(&f)), "Name is required");
    let mut f = form();
    f.account_id = "nope".to_string();
    assert_eq!(validation_of(validate_asset(&f)), "Invalid account");
    let mut f = form();
    f.purchase_cost = "12,5".to_string();
    assert_eq!(validation_of(validate_asset(&f)), "Invalid cost");
    let mut f = form();
    f.salvage_value = Some(String::new());
    assert_eq!(validation_of(validate_asset(&f)), "Invalid salvage");
    let mut f = form();
    f.useful_life_years = "five".to_string();
    assert_eq!(validation_of(validate_asset(&f)), "Invalid life");
    let mut f = form();
    f.useful_life_years = "0".to_string();
    assert_eq!(validation_of(validate_asset(&f)), "Life must be > 0");
    let mut f = form();
    f.depreciation_method = "sum_of_years".to_string();
    assert_eq!(validation_of(validate_asset(&f)), "Invalid method");
    let mut f = form();
    f.purchase_date = "15/01/2026".to_string();
    assert_eq!(validation_of(validate_asset(&f)), "Invalid date");
}

fn book(acc: Amount, status: &str) -> AssetBook {
    AssetBook {
        purchase_cost: amt(1200, 0),
        salvage_value: amt(0, 0),
        useful_life_years: 1,
        accumulated: acc,
        status: status.to_string(),
    }
}

#[test]
fn a_month_of_depreciation_is_a_twelfth_of_a_year() {
    let s = match calculate_depreciation(&book(amt(0, 0), "active")) {
        Ok(s) => s,
        Err(e) => panic!("{:?}", e),
    };
    assert_eq!(amount_to_string(s.to_add), "100");
    assert_eq!(amount_to_string(s.new_total), "100");
    assert!(!s.fully_depreciated);
    assert_eq!(s.new_status(), "active");
}

#[test]
fn depreciation_never_passes_the_depreciable_amount() {
    let s = match calculate_depreciation(&book(amt(1150, 0), "active")) {
        Ok(s) => s,
        Err(e) => panic!("{:?}", e),
    };
    assert_eq!(amount_to_string(s.to_add), "50");
    assert_eq!(amount_to_string(s.new_total), "1200");
    assert!(s.fully_depreciated);
    assert_eq!(s.new_status(), "fully_depreciated");
}

#[test]
fn disposed_assets_are_not_depreciated() {
    for status in ["disposed", "fully_depreciated"] {
        match calculate_depreciation_checked(&book(amt(0, 0), status)) {
            Some(Err(AppError::Validation(m))) => assert_eq!(m, "Asset cannot be depreciated"),
            _ => panic!("expected a refusal"),
        }
    }
}

#[test]
fn depreciation_with_no_months_adds_nothing() {
    let mut b = book(amt(100, 0), "active");
    b.useful_life_years = 0;
    let s = match calculate_depreciation(&b) {
        Ok(s) => s,
        Err(e) => panic!("{:?}", e),
    };
    assert_eq!(amount_to_string(s.to_add), "0");
    assert_eq!(amount_to_string(s.new_total), "100");
}

#[test]
fn annual_depreciation_spreads_cost_less_salvage() {
    assert_eq!(amount_to_string(annual_depreciation(amt(1000, 0), amt(100, 0), 3)), "300");
    assert_eq!(amount_to_string(annual_depreciation(amt(1000, 0), amt(100, 0), 0)), "0");
    assert_eq!(
        annual_depreciation_checked(amt(1000, 0), amt(100, 0), -2),
        Some(amt(0, 0))
    );
}

#[test]
fn net_book_value_is_cost_less_accumulated() {
    assert_eq!(amount_to_string(net_book_value(amt(1000, 0), amt(25050, 2))), "749.50");
}

#[test]
fn disposal_needs_a_date_and_an_amount() {
    let s = |v: &str| Some(v.to_string());
    assert_eq!(
        dispose(&s("2026-06-30"), &s("1500.00")),
        Ok((Date { year: 2026, month: 6, day: 30 }, amt(150000, 2)))
    );
    assert_eq!(dispose(&None, &s("1")), Err(AppError::Validation("Invalid date".to_string())));
    assert_eq!(dispose(&s("2026-06-30"), &None), Err(AppError::Validation("Missing amount".to_string())));
    assert_eq!(dispose(&s("2026-06-30"), &s("x")), Err(AppError::Validation("Invalid amount".to_string())));
}
