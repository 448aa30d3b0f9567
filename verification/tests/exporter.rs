use zappi_exporter::client::{retrieve_stats, ParseError};
use zappi_exporter::decimal::Dec;
use zappi_exporter::metrics::{set_stats, Registry};
use zappi_exporter::scheduler::on_tick;

fn dec(neg: bool, mant: u64, exp: i64) -> Dec {
    Dec { neg, mant, exp }
}

const EMPTY_TEXT: &str = "# HELP power_freq The hz of power frequency\n# TYPE power_freq gauge\npower_freq 0\n# HELP supply_voltage Current supply voltage\n# TYPE supply_voltage gauge\nsupply_voltage 0\n# HELP grid_usage Current grid ussage in watts\n# TYPE grid_usage gauge\ngrid_usage 0\n";

#[test]
fn scrape_before_first_poll_shows_zeros() {
    let reg = Registry::new();
    assert_eq!(reg.render(), EMPTY_TEXT);
}

#[test]
fn typical_response_parses_exactly() {
    let r = retrieve_stats(b"{\"zappi\":[{\"frq\":50.01,\"vol\":2398,\"grd\":134.5}]}").unwrap();
    assert_eq!(r.power_freq, dec(false, 5001, -2));
    assert_eq!(r.supply_voltage, dec(false, 2398, -1));
    assert_eq!(r.grid_usage, dec(false, 1345, -1));
}

#[test]
fn poll_then_scrape_shows_device_values() {
    let mut reg = Registry::new();
    let r = retrieve_stats(b"{\"zappi\":[{\"frq\":50.01,\"vol\":2398,\"grd\":134.5}]}").unwrap();
    set_stats(&mut reg, Some(r));
    let text = reg.render();
    assert!(text.contains("power_freq 50.01\n"));
    assert!(text.contains("supply_voltage 239.8\n"));
    assert!(text.contains("grid_usage 134.5\n"));
}

#[test]
fn scrape_holds_exactly_one_sample_line_per_gauge() {
    let mut reg = Registry::new();
    let r = retrieve_stats(b"{\"zappi\":[{\"frq\":50.01,\"vol\":2398,\"grd\":134.5}]}").unwrap();
    set_stats(&mut reg, Some(r));
    let text = reg.render();
    for (name, value) in [
        ("power_freq", "50.01"),
        ("supply_voltage", "239.8"),
        ("grid_usage", "134.5"),
    ] {
        let sample = format!("{} {}", name, value);
        let count = text
            .lines()
            .filter(|l| !l.starts_with('#') && l.starts_with(name))
            .count();
        assert_eq!(count, 1);
        assert!(text.lines().any(|l| l == sample));
    }
}

#[test]
fn voltage_is_divided_by_ten_exactly() {
    let r = retrieve_stats(b"{\"zappi\":[{\"frq\":50,\"vol\":2305,\"grd\":0}]}").unwrap();
    assert_eq!(r.supply_voltage, dec(false, 2305, -1));
    let mut reg = Registry::new();
    set_stats(&mut reg, Some(r));
    assert!(reg.render().contains("supply_voltage 230.5\n"));
}

#[test]
fn missing_zappi_member_fails() {
    assert_eq!(
        retrieve_stats(b"{\"other\":[{\"frq\":1,\"vol\":2,\"grd\":3}]}"),
        Err(ParseError::NoZappi)
    );
    assert_eq!(retrieve_stats(b"{}"), Err(ParseError::NoZappi));
}

#[test]
fn zappi_not_an_array_fails() {
    assert_eq!(retrieve_stats(b"{\"zappi\":5}"), Err(ParseError::NoZappi));
    assert_eq!(
        retrieve_stats(b"{\"zappi\":{\"frq\":1}}"),
        Err(ParseError::NoZappi)
    );
}

#[test]
fn empty_zappi_array_fails() {
    assert_eq!(retrieve_stats(b"{\"zappi\":[]}"), Err(ParseError::EmptyZappi));
    assert_eq!(
        retrieve_stats(b"{\"zappi\":[ ]}"),
        Err(ParseError::EmptyZappi)
    );
}

#[test]
fn failed_poll_leaves_registry_untouched() {
    let mut reg = Registry::new();
    let good = retrieve_stats(b"{\"zappi\":[{\"frq\":49.9,\"vol\":2400,\"grd\":-12}]}").unwrap();
    set_stats(&mut reg, Some(good));
    let before = reg.render();
    let bad = retrieve_stats(b"{\"zappi\":[]}");
    assert!(bad.is_err());
    set_stats(&mut reg, None);
    assert_eq!(reg.render(), before);
}

#[test]
fn tick_keeps_cadence_and_prior_values_on_failure() {
    let mut reg = Registry::new();
    let good = retrieve_stats(b"{\"zappi\":[{\"frq\":50,\"vol\":2398,\"grd\":134.5}]}").unwrap();
    let delay = on_tick(&mut reg, 60, Some(good));
    assert_eq!(delay, 60);
    let before = reg.render();
    let delay2 = on_tick(&mut reg, 60, None);
    assert_eq!(delay2, 60);
    assert_eq!(reg.render(), before);
}

#[test]
fn missing_or_non_numeric_fields_fail() {
    assert_eq!(
        retrieve_stats(b"{\"zappi\":[{\"frq\":50,\"vol\":2398}]}"),
        Err(ParseError::BadField)
    );
    assert_eq!(
        retrieve_stats(b"{\"zappi\":[{\"frq\":\"50\",\"vol\":2398,\"grd\":1}]}"),
        Err(ParseError::BadField)
    );
    assert_eq!(
        retrieve_stats(b"{\"zappi\":[{\"frq\":true,\"vol\":2398,\"grd\":1}]}"),
        Err(ParseError::BadField)
    );
    assert_eq!(
        retrieve_stats(b"{\"zappi\":[{}]}"),
        Err(ParseError::BadField)
    );
    assert_eq!(
        retrieve_stats(b"{\"zappi\":[null]}"),
        Err(ParseError::BadField)
    );
}

#[test]
fn malformed_documents_fail() {
    assert_eq!(retrieve_stats(b""), Err(ParseError::BadJson));
    assert_eq!(retrieve_stats(b"{"), Err(ParseError::BadJson));
    assert_eq!(retrieve_stats(b"[]"), Err(ParseError::BadJson));
    assert_eq!(
        retrieve_stats(b"{\"zappi\":[{\"frq\":1,\"vol\":2,\"grd\":3}]}x"),
        Err(ParseError::BadJson)
    );
    assert_eq!(
        retrieve_stats(b"{\"zappi\":[{\"frq\":01,\"vol\":2,\"grd\":3}]}"),
        Err(ParseError::BadJson)
    );
    assert_eq!(
        retrieve_stats(b"{\"zappi\":[{\"frq\":1.,\"vol\":2,\"grd\":3}]}"),
        Err(ParseError::BadJson)
    );
}

#[test]
fn unread_members_and_elements_are_skipped() {
    let body = "{ \"sn\": \"Z12\\\"3\", \"extra\": {\"a\": [1, true, null, \"x\"], \"b\": -2.5e-1},\n  \"zappi\": [ {\"sno\": 7, \"frq\": 49.85, \"dat\": \"01-01-2024\", \"vol\": 2401, \"grd\": 603, \"pha\": 1}, {\"frq\": 1} ],\n  \"trail\": false }";
    let r = retrieve_stats(body.as_bytes()).unwrap();
    assert_eq!(r.power_freq, dec(false, 4985, -2));
    assert_eq!(r.supply_voltage, dec(false, 2401, -1));
    assert_eq!(r.grid_usage, dec(false, 603, 0));
}

#[test]
fn later_duplicate_member_wins() {
    let r = retrieve_stats(b"{\"zappi\":[{\"frq\":1,\"vol\":2,\"grd\":3,\"frq\":4}]}").unwrap();
    assert_eq!(r.power_freq, dec(false, 4, 0));
    let r2 = retrieve_stats(b"{\"zappi\":[{\"frq\":1,\"vol\":2,\"grd\":3}],\"zappi\":0}");
    assert_eq!(r2, Err(ParseError::NoZappi));
}

#[test]
fn number_forms_parse_exactly() {
    let r = retrieve_stats(b"{\"zappi\":[{\"frq\":-0.25,\"vol\":5e2,\"grd\":1.5E+1}]}").unwrap();
    assert_eq!(r.power_freq, dec(true, 25, -2));
    assert_eq!(r.supply_voltage, dec(false, 5, 1));
    assert_eq!(r.grid_usage, dec(false, 15, 0));
}

#[test]
fn negative_and_zero_values_render() {
    let r = retrieve_stats(b"{\"zappi\":[{\"frq\":0,\"vol\":0,\"grd\":-134.5}]}").unwrap();
    let mut reg = Registry::new();
    set_stats(&mut reg, Some(r));
    let text = reg.render();
    assert!(text.contains("power_freq 0\n"));
    assert!(text.contains("supply_voltage 0.0\n"));
    assert!(text.contains("grid_usage -134.5\n"));
}

#[test]
fn small_fractions_render_with_leading_zero() {
    let r = retrieve_stats(b"{\"zappi\":[{\"frq\":0.05,\"vol\":7,\"grd\":2e-3}]}").unwrap();
    let mut reg = Registry::new();
    set_stats(&mut reg, Some(r));
    let text = reg.render();
    assert!(text.contains("power_freq 0.05\n"));
    assert!(text.contains("supply_voltage 0.7\n"));
    assert!(text.contains("grid_usage 0.002\n"));
}

#[test]
fn unrepresentable_numbers_are_bad_fields() {
    assert_eq!(
        retrieve_stats(b"{\"zappi\":[{\"frq\":99999999999999999999999,\"vol\":1,\"grd\":1}]}"),
        Err(ParseError::BadField)
    );
    assert_eq!(
        retrieve_stats(b"{\"zappi\":[{\"frq\":1e9999,\"vol\":1,\"grd\":1}]}"),
        Err(ParseError::BadField)
    );
    let big = retrieve_stats(b"{\"other\":1e9999,\"zappi\":[{\"frq\":1,\"vol\":2,\"grd\":3}]}");
    assert!(big.is_ok());
}

#[test]
fn deeply_nested_unread_values_are_skipped() {
    let body =
        "{\"deep\":[[[{\"a\":[{\"b\":[[1,2],{\"c\":\"d\"}]}]}]]],\"zappi\":[{\"frq\":1,\"vol\":2,\"grd\":3}]}";
    let r = retrieve_stats(body.as_bytes()).unwrap();
    assert_eq!(r.power_freq, dec(false, 1, 0));
}

#[test]
fn negative_zero_is_kept() {
    let r = retrieve_stats(b"{\"zappi\":[{\"frq\":-0,\"vol\":1,\"grd\":1}]}").unwrap();
    assert_eq!(r.power_freq, dec(true, 0, 0));
    let mut reg = Registry::new();
    set_stats(&mut reg, Some(r));
    assert!(reg.render().contains("power_freq -0\n"));
}

#[test]
fn broken_number_forms_fail() {
    assert_eq!(
        retrieve_stats(b"{\"zappi\":[{\"frq\":1e,\"vol\":2,\"grd\":3}]}"),
        Err(ParseError::BadJson)
    );
    assert_eq!(
        retrieve_stats(b"{\"zappi\":[{\"frq\":+1,\"vol\":2,\"grd\":3}]}"),
        Err(ParseError::BadJson)
    );
    assert_eq!(
        retrieve_stats(b"{\"zappi\":[{\"frq\":.5,\"vol\":2,\"grd\":3}]}"),
        Err(ParseError::BadJson)
    );
    assert_eq!(
        retrieve_stats(b"{\"zappi\":[{\"frq\":-,\"vol\":2,\"grd\":3}]}"),
        Err(ParseError::BadJson)
    );
}

#[test]
fn whitespace_is_tolerated_everywhere() {
    let r = retrieve_stats(
        b" \t{ \"zappi\" :\n[ { \"frq\" : 50.01 , \"vol\" : 2398 , \"grd\" : 134.5 } ] } \r\n",
    )
    .unwrap();
    assert_eq!(r.power_freq, dec(false, 5001, -2));
}

#[test]
fn trailing_zeros_are_kept_verbatim() {
    let r = retrieve_stats(b"{\"zappi\":[{\"frq\":50.00,\"vol\":2390,\"grd\":10}]}").unwrap();
    let mut reg = Registry::new();
    set_stats(&mut reg, Some(r));
    let text = reg.render();
    assert!(text.contains("power_freq 50.00\n"));
    assert!(text.contains("supply_voltage 239.0\n"));
    assert!(text.contains("grid_usage 10\n"));
}
