use udx710_backend::cell_location::{
    reply_with_measurements, reply_without_measurements, reply_without_network_code,
    full_response, limited_response, missing_code, neighbor_cell_location,
    neighbor_cell_locations, read_level, read_received_power, serving_cell_location,
    unavailable_message, unavailable_response, CellInfo, CellLocationInfo, CellLocationResponse,
    MissingCode, ServingCell,
};
use udx710_backend::decimal::{parse_i32, parse_u32, push_signed_decimal};

fn cell(tech: &str, arfcn: &str, pci: &str, rsrp: &str, rsrq: &str, sinr: &str) -> CellInfo {
    CellInfo {
        tech: tech.to_string(),
        arfcn: arfcn.to_string(),
        pci: pci.to_string(),
        rsrp: rsrp.to_string(),
        rsrq: rsrq.to_string(),
        sinr: sinr.to_string(),
    }
}

fn serving(cell_id: u64) -> ServingCell {
    ServingCell { tech: "nr".to_string(), cell_id, tac: 4660 }
}

#[test]
fn signed_numbers_are_read_as_std_reads_them() {
    for s in ["0", "-0", "+0", "-1", "1", "-9550", "2147483647", "2147483648", "-2147483648", "-2147483649", "", "-", "+", "--1", "+-1", "1.5", " 1", "12a", "-0012"] {
        assert_eq!(parse_i32(s), s.parse::<i32>().ok(), "{:?}", s);
        assert_eq!(parse_u32(s), s.parse::<u32>().ok(), "{:?}", s);
    }
}

#[test]
fn signed_numbers_are_written_as_std_writes_them() {
    for n in [0i64, 1, -1, -95, 100, i64::MAX, i64::MIN, -100] {
        let mut s = String::new();
        push_signed_decimal(&mut s, n);
        assert_eq!(s, n.to_string());
    }
}

#[test]
fn levels_are_hundredths_rounded_towards_zero() {
    assert_eq!(read_level("-1050"), Some(-10));
    assert_eq!(read_level("-1099"), Some(-10));
    assert_eq!(read_level("-99"), Some(0));
    assert_eq!(read_level("99"), Some(0));
    assert_eq!(read_level("1250"), Some(12));
    assert_eq!(read_level("-2147483648"), Some(-21474836));
    assert_eq!(read_level(""), None);
    assert_eq!(read_level("-10.5"), None);
}

#[test]
fn received_power_defaults_to_minus_140_hundredths() {
    assert_eq!(read_received_power("-9550"), -95);
    assert_eq!(read_received_power("-14000"), -140);
    assert_eq!(read_received_power(""), -1);
    assert_eq!(read_received_power("n/a"), -1);
    assert_eq!(read_received_power("0"), 0);
}

#[test]
fn serving_cell_with_measurements() {
    let detail = cell("nr", "633984", "597", "-9550", "-1050", "1250");
    assert_eq!(
        serving_cell_location("460", "00", &serving(12345), Some(&detail)),
        Some(CellLocationInfo {
            mcc: "460".to_string(),
            mnc: "00".to_string(),
            lac: 4660,
            cid: 12345,
            signal_strength: -95,
            radio_type: "nr".to_string(),
            arfcn: Some(633984),
            pci: Some(597),
            rsrq: Some(-10),
            sinr: Some(12),
        })
    );
    let bare = cell("lte", "-", "", "x", "", "?");
    let c = serving_cell_location("460", "00", &serving(1), Some(&bare)).unwrap();
    assert_eq!((c.signal_strength, c.arfcn, c.pci, c.rsrq, c.sinr), (-1, None, None, None, None));
    assert_eq!(c.radio_type, "nr");
}

#[test]
fn serving_cell_without_measurements_or_identifier() {
    assert_eq!(
        serving_cell_location("460", "00", &serving(7), None),
        Some(CellLocationInfo {
            mcc: "460".to_string(),
            mnc: "00".to_string(),
            lac: 4660,
            cid: 7,
            signal_strength: -100,
            radio_type: "nr".to_string(),
            arfcn: None,
            pci: None,
            rsrq: None,
            sinr: None,
        })
    );
    assert_eq!(serving_cell_location("460", "00", &serving(0), None), None);
    let detail = cell("nr", "633984", "597", "-9550", "-1050", "1250");
    assert_eq!(serving_cell_location("460", "00", &serving(0), Some(&detail)), None);
}

#[test]
fn neighbors_without_pci_are_left_out() {
    let cells = vec![
        cell("nr", "633984", "10", "-10000", "-1100", "500"),
        cell("nr", "633984", "", "-10000", "-1100", "500"),
        cell("lte", "oops", "20", "bad", "", ""),
        cell("lte", "1850", "-3", "-9000", "-900", "100"),
    ];
    let out = neighbor_cell_locations("460", "01", 99, &cells);
    assert_eq!(out.len(), 2);
    assert_eq!(
        out[0],
        CellLocationInfo {
            mcc: "460".to_string(),
            mnc: "01".to_string(),
            lac: 99,
            cid: 0,
            signal_strength: -100,
            radio_type: "nr".to_string(),
            arfcn: Some(633984),
            pci: Some(10),
            rsrq: Some(-11),
            sinr: Some(5),
        }
    );
    assert_eq!((out[1].pci, out[1].arfcn, out[1].signal_strength), (Some(20), None, -1));
    assert_eq!(out[1].radio_type, "lte");
    assert_eq!(neighbor_cell_location("460", "01", 99, &cells[1]), None);
    assert_eq!(neighbor_cell_locations("460", "01", 99, &Vec::new()), Vec::new());
}

#[test]
fn network_code_must_be_given() {
    assert_eq!(missing_code(Some("460"), Some("00")), None);
    assert_eq!(missing_code(None, Some("00")), Some(MissingCode::Mcc));
    assert_eq!(missing_code(Some(""), Some("00")), Some(MissingCode::Mcc));
    assert_eq!(missing_code(Some("460"), None), Some(MissingCode::Mnc));
    assert_eq!(missing_code(Some("460"), Some("")), Some(MissingCode::Mnc));
    assert_eq!(missing_code(None, None), Some(MissingCode::Mcc));
    assert_eq!(unavailable_message(MissingCode::Mcc), "Cell location unavailable: MCC not available");
    assert_eq!(unavailable_message(MissingCode::Mnc), "Cell location unavailable: MNC not available");
    assert_eq!(
        unavailable_response(),
        CellLocationResponse {
            available: false,
            cell_info: None,
            neighbor_cells: vec![],
            usage_hint: "Network not registered or MCC/MNC not available. Please ensure device is connected to cellular network.".to_string(),
        }
    );
}

#[test]
fn limited_report() {
    let r = limited_response("CMCC", "460", "00", &ServingCell { tech: "gsm".to_string(), cell_id: 42, tac: 7 });
    assert!(r.available);
    assert_eq!(r.cell_info.as_ref().unwrap().signal_strength, -100);
    assert_eq!(r.cell_info.as_ref().unwrap().radio_type, "gsm");
    assert!(r.neighbor_cells.is_empty());
    assert_eq!(
        r.usage_hint,
        "Cell location data available (limited). Unsupported network type: gsm.\nNetwork: CMCC (MCC=460, MNC=00), Cell ID=42, TAC=7"
    );
    let none = limited_response("CMCC", "460", "00", &ServingCell { tech: "gsm".to_string(), cell_id: 0, tac: 7 });
    assert!(!none.available && none.cell_info.is_none());
    assert!(none.usage_hint.ends_with("Cell ID=0, TAC=7"));
}

#[test]
fn full_report() {
    let detail = cell("nr", "633984", "597", "-9550", "-1050", "1250");
    let neighbors = vec![cell("nr", "633984", "10", "-10000", "-1100", "500"), cell("nr", "", "", "", "", "")];
    let r = full_response("CMCC", "460", "00", &serving(12345), Some(&detail), &neighbors);
    assert!(r.available);
    assert_eq!(r.cell_info.as_ref().unwrap().signal_strength, -95);
    assert_eq!(r.neighbor_cells.len(), 1);
    assert_eq!(r.neighbor_cells[0].lac, 4660);
    assert_eq!(
        r.usage_hint,
        "Cell location data available. You can use this data with geolocation APIs:\n\
         - Google Geolocation API: https://developers.google.com/maps/documentation/geolocation/overview\n\
         - OpenCellID: https://opencellid.org/\n\
         - Unwired Labs: https://unwiredlabs.com/\n\
         Network: CMCC (MCC=460, MNC=00), Cell ID=12345, TAC=4660, Signal=-95dBm"
    );
    let without = full_response("CMCC", "460", "00", &serving(12345), None, &neighbors);
    assert!(without.usage_hint.ends_with("Signal=-100dBm"));
    let none = full_response("CMCC", "460", "00", &serving(0), Some(&detail), &neighbors);
    assert!(!none.available && none.cell_info.is_none());
    assert_eq!(none.neighbor_cells.len(), 1);
    assert_eq!(none.usage_hint, "Cell location unavailable: No serving cell found.");
}

#[test]
fn reply_as_soon_as_a_code_is_missing() {
    let reply = reply_without_network_code(None, Some("00")).unwrap();
    assert_eq!(reply.message, "Cell location unavailable: MCC not available");
    assert_eq!(reply.response, unavailable_response());
    let reply = reply_without_network_code(Some("460"), Some("")).unwrap();
    assert_eq!(reply.message, "Cell location unavailable: MNC not available");
    assert_eq!(reply.response, unavailable_response());
    assert_eq!(reply_without_network_code(Some("460"), Some("00")), None);
}

#[test]
fn reply_as_soon_as_nothing_can_be_measured() {
    let cell = ServingCell { tech: "gsm".to_string(), cell_id: 42, tac: 7 };
    let reply = reply_without_measurements("CMCC", "460", "00", &cell, false).unwrap();
    assert_eq!(reply.message, "Success (limited info)");
    assert_eq!(reply.response, limited_response("CMCC", "460", "00", &cell));
    assert_eq!(reply_without_measurements("CMCC", "460", "00", &cell, true), None);
}

#[test]
fn reply_with_what_was_measured() {
    let detail = cell("nr", "633984", "597", "-9550", "-1050", "1250");
    let neighbors = vec![cell("nr", "633984", "10", "-10000", "-1100", "500")];
    let reply = reply_with_measurements("CMCC", "460", "00", &serving(12345), Some(&detail), &neighbors);
    assert_eq!(reply.message, "Success");
    assert_eq!(
        reply.response,
        full_response("CMCC", "460", "00", &serving(12345), Some(&detail), &neighbors)
    );
    let bare = reply_with_measurements("CMCC", "460", "00", &serving(0), None, &Vec::new());
    assert_eq!(bare.message, "Success");
    assert!(!bare.response.available);
}
