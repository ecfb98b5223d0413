use sis_poller::{
    extract_stations, is_allowed, row_in_network, station_from_parts, stations_from_rows,
    StationError, StationTime,
};

const LISTING: &str = r#"<html><body>
<table>
<tr><th>Description</th><th>File</th><th>Last modified</th><th>Start</th><th>End</th></tr>
<tr><td>Alpine</td><td><a href="UU_ALP.xml">UU_ALP.xml</a></td><td>2023-05-30 09:29</td><td>2001-01-01</td><td></td></tr>
<tr><td>Short row</td><td><a href="UU_SHO.xml">UU_SHO.xml</a></td><td>2023-05-30 09:29</td></tr>
<tr><td>No anchor</td><td>UU_NOA.xml</td><td>2023-05-30 09:29</td><td></td><td></td></tr>
<tr><td>Other network</td><td><a href="WY_YPM.xml">WY_YPM.xml</a></td><td>2023-01-01 00:00</td><td></td><td></td></tr>
<tr><td>Bad time</td><td><a href="UU_BTM.xml">UU_BTM.xml</a></td><td>2023-13-01 00:00</td><td></td><td></td></tr>
<tr><td>Canyon</td><td><a href="UU_CTU.xml">UU_CTU.xml</a></td><td>2024-02-29 00:00</td><td></td><td></td></tr>
</table>
<table><tr><td>a</td><td><a>UU_LATE.xml</a></td><td>2023-01-01 00:00</td><td></td><td></td></tr></table>
</body></html>"#;

fn pairs(v: &[StationTime]) -> Vec<(String, i64)> {
    v.iter().map(|s| (s.station.clone(), s.time)).collect()
}

fn strings(v: &[&str]) -> Vec<String> {
    v.iter().map(|s| s.to_string()).collect()
}

#[test]
fn extracts_rows_of_network_in_order() {
    let got = extract_stations(LISTING, "UU", &Vec::new()).unwrap();
    assert_eq!(
        pairs(&got),
        vec![("UU_ALP.xml".to_string(), 1685438940), ("UU_CTU.xml".to_string(), 1709164800)]
    );
}

#[test]
fn other_network_rows() {
    let got = extract_stations(LISTING, "WY", &Vec::new()).unwrap();
    assert_eq!(pairs(&got), vec![("WY_YPM.xml".to_string(), 1672531200)]);
    let none = extract_stations(LISTING, "IW", &Vec::new()).unwrap();
    assert!(none.is_empty());
}

#[test]
fn allowlist_restricts() {
    let got = extract_stations(LISTING, "UU", &strings(&["CTU", "XYZ"])).unwrap();
    assert_eq!(pairs(&got), vec![("UU_CTU.xml".to_string(), 1709164800)]);
    for s in &got {
        assert!(s.station.contains("CTU") || s.station.contains("XYZ"));
    }
    let none = extract_stations(LISTING, "UU", &strings(&["NOPE"])).unwrap();
    assert!(none.is_empty());
}

#[test]
fn missing_table() {
    let got = extract_stations("<html><body><p>UU_ALP.xml</p></body></html>", "UU", &Vec::new());
    assert!(matches!(got, Err(StationError::NoTableFound)));
}

#[test]
fn short_row_and_anchorless_row_are_skipped() {
    let html = r#"<table>
<tr><td><a href="UU_A.xml">UU_A.xml</a></td><td><a href="UU_A.xml">UU_A.xml</a></td><td>2023-05-30 09:29</td><td></td></tr>
<tr><td>x</td><td>UU_B.xml</td><td>2023-05-30 09:29</td><td></td><td></td></tr>
<tr><td>x</td><td><a href="UU_C.xml">UU_C.xml</a></td><td>2023-05-30 09:29</td><td></td><td></td></tr>
</table>"#;
    let got = extract_stations(html, "UU", &Vec::new()).unwrap();
    assert_eq!(pairs(&got), vec![("UU_C.xml".to_string(), 1685438940)]);
}

#[test]
fn rows_from_cells() {
    let rows = vec![
        strings(&["d", "<a href=\"UU_ALP.xml\">UU_ALP.xml</a>", "2023-05-30 09:29", "", ""]),
        strings(&["d", "<a href=\"UU_X.xml\">UU_X.xml</a>", "2023-05-30 09:29", ""]),
        strings(&["d", "<b>UU_Y.xml</b>", "2023-05-30 09:29", "", ""]),
    ];
    let got = stations_from_rows(&rows, "UU", &Vec::new());
    assert_eq!(pairs(&got), vec![("UU_ALP.xml".to_string(), 1685438940)]);
}

#[test]
fn network_filter() {
    let row = strings(&["d", "<a>UU_ALP.xml</a>", "t", "", ""]);
    assert!(row_in_network(&row, "UU"));
    assert!(!row_in_network(&row, "WY"));
    assert!(row_in_network(&row, "U"));
    let short = strings(&["d", "<a>UU_ALP.xml</a>", "t", ""]);
    assert!(!row_in_network(&short, "UU"));
    let long = strings(&["d", "<a>UU_ALP.xml</a>", "t", "", "", ""]);
    assert!(!row_in_network(&long, "UU"));
}

#[test]
fn allowlist_check() {
    assert!(is_allowed("UU_ALP.xml", &Vec::new()));
    assert!(is_allowed("US_BOZ.xml", &strings(&["AHID", "BOZ"])));
    assert!(!is_allowed("US_XYZ.xml", &strings(&["AHID", "BOZ"])));
}

#[test]
fn record_from_parts() {
    let ok = station_from_parts(Some("UU_ALP.xml".to_string()), "2023-05-30 09:29").unwrap();
    assert_eq!(ok.station, "UU_ALP.xml");
    assert_eq!(ok.time, 1685438940);
    assert!(matches!(station_from_parts(None, "2023-05-30 09:29"), Err(StationError::MalformedRow)));
    assert!(matches!(
        station_from_parts(Some("UU_ALP.xml".to_string()), "2023-13-01 00:00"),
        Err(StationError::MalformedTimestamp)
    ));
}
