use openaccounting::export::datev::HEADER;

#[test]
fn header_matches_fixture() {
    assert_eq!(
        HEADER,
        "EXTF;700;Buchungsstapel;2;1;1;1;openaccounting;Test;20260101;20260331;;;;"
    );
}
