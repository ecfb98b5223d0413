use sis_poller::{allowlist_for, collect_network, listing_url, StationTime};

fn strings(v: &[&str]) -> Vec<String> {
    v.iter().map(|s| s.to_string()).collect()
}

fn pairs(v: &[StationTime]) -> Vec<(String, i64)> {
    v.iter().map(|s| (s.station.clone(), s.time)).collect()
}

#[test]
fn url_joins_with_one_slash() {
    assert_eq!(listing_url("https://example.org/xml/", "UU"), "https://example.org/xml/UU");
    assert_eq!(listing_url("https://example.org/xml", "UU"), "https://example.org/xml/UU");
    assert_eq!(listing_url("", "UU"), "/UU");
}

#[test]
fn allowlist_lookup() {
    let table = vec![
        ("IW".to_string(), strings(&["FLWY", "IMW"])),
        ("C0".to_string(), strings(&["MOFF"])),
        ("C0".to_string(), strings(&["LATER"])),
    ];
    assert_eq!(allowlist_for(&table, "IW"), strings(&["FLWY", "IMW"]));
    assert_eq!(allowlist_for(&table, "C0"), strings(&["MOFF"]));
    assert!(allowlist_for(&table, "UU").is_empty());
}

#[test]
fn failed_fetch_adds_nothing() {
    let mut observed = vec![StationTime::new("UU_ALP.xml".to_string(), 1)];
    collect_network(&mut observed, None, "WY", &Vec::new());
    assert_eq!(pairs(&observed), vec![("UU_ALP.xml".to_string(), 1)]);
    collect_network(&mut observed, Some("<p>no table</p>"), "WY", &Vec::new());
    assert_eq!(pairs(&observed), vec![("UU_ALP.xml".to_string(), 1)]);
}

#[test]
fn networks_accumulate_in_order() {
    let page = r#"<table>
<tr><td>x</td><td><a href="WY_YPM.xml">WY_YPM.xml</a></td><td>2023-01-01 00:00</td><td></td><td></td></tr>
<tr><td>x</td><td><a href="US_BOZ.xml">US_BOZ.xml</a></td><td>2023-01-01 00:01</td><td></td><td></td></tr>
<tr><td>x</td><td><a href="US_XYZ.xml">US_XYZ.xml</a></td><td>2023-01-01 00:02</td><td></td><td></td></tr>
</table>"#;
    let mut observed = vec![StationTime::new("UU_ALP.xml".to_string(), 1)];
    collect_network(&mut observed, Some(page), "WY", &Vec::new());
    collect_network(&mut observed, Some(page), "US", &strings(&["BOZ"]));
    assert_eq!(
        pairs(&observed),
        vec![
            ("UU_ALP.xml".to_string(), 1),
            ("WY_YPM.xml".to_string(), 1672531200),
            ("US_BOZ.xml".to_string(), 1672531260),
        ]
    );
}
