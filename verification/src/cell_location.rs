//! What is reported of the cells around the device, in the form that services
//! ask for which turn cell data into a position.

use crate::decimal::{
    decimal_digits, parse_i32, parse_signed, parse_u32, parse_unsigned, push_decimal,
    push_signed_decimal, signed_decimal,
};
use vstd::prelude::*;
use vstd::string::StringExecFns;

verus! {

/// What the modem measured of one cell, as it writes it: numbers as text, levels
/// in hundredths of their unit.
#[derive(Debug, Clone, PartialEq, Eq)]
pub struct CellInfo {
    pub tech: String,
    pub arfcn: String,
    pub pci: String,
    pub rsrp: String,
    pub rsrq: String,
    pub sinr: String,
}

/// The mathematical content of a [`CellInfo`].
pub struct CellInfoView {
    pub tech: Seq<char>,
    pub arfcn: Seq<char>,
    pub pci: Seq<char>,
    pub rsrp: Seq<char>,
    pub rsrq: Seq<char>,
    pub sinr: Seq<char>,
}

impl View for CellInfo {
    type V = CellInfoView;

    open spec fn view(&self) -> CellInfoView {
        CellInfoView {
            tech: self.tech@,
            arfcn: self.arfcn@,
            pci: self.pci@,
            rsrp: self.rsrp@,
            rsrq: self.rsrq@,
            sinr: self.sinr@,
        }
    }
}

/// The cell that serves the device.
#[derive(Debug, Clone, PartialEq, Eq)]
pub struct ServingCell {
    pub tech: String,
    pub cell_id: u64,
    pub tac: u32,
}

/// One cell in the form in which it is reported.
#[derive(Debug, Clone, PartialEq, Eq)]
pub struct CellLocationInfo {
    pub mcc: String,
    pub mnc: String,
    pub lac: u32,
    pub cid: u64,
    /// The received power in dBm.
    pub signal_strength: i32,
    pub radio_type: String,
    pub arfcn: Option<u32>,
    pub pci: Option<u32>,
    pub rsrq: Option<i32>,
    pub sinr: Option<i32>,
}

/// The mathematical content of a [`CellLocationInfo`].
pub struct CellLocationView {
    pub mcc: Seq<char>,
    pub mnc: Seq<char>,
    pub lac: u32,
    pub cid: u64,
    pub signal_strength: i32,
    pub radio_type: Seq<char>,
    pub arfcn: Option<u32>,
    pub pci: Option<u32>,
    pub rsrq: Option<i32>,
    pub sinr: Option<i32>,
}

impl View for CellLocationInfo {
    type V = CellLocationView;

    open spec fn view(&self) -> CellLocationView {
        CellLocationView {
            mcc: self.mcc@,
            mnc: self.mnc@,
            lac: self.lac,
            cid: self.cid,
            signal_strength: self.signal_strength,
            radio_type: self.radio_type@,
            arfcn: self.arfcn,
            pci: self.pci,
            rsrq: self.rsrq,
            sinr: self.sinr,
        }
    }
}

/// The report on the cells around the device.
#[derive(Debug, Clone, PartialEq, Eq)]
pub struct CellLocationResponse {
    pub available: bool,
    pub cell_info: Option<CellLocationInfo>,
    pub neighbor_cells: Vec<CellLocationInfo>,
    pub usage_hint: String,
}

/// The mathematical content of a [`CellLocationResponse`].
pub struct CellLocationResponseView {
    pub available: bool,
    pub cell_info: Option<CellLocationView>,
    pub neighbor_cells: Seq<CellLocationView>,
    pub usage_hint: Seq<char>,
}

/// The views of the cells in `cells`.
pub open spec fn location_views(cells: Seq<CellLocationInfo>) -> Seq<CellLocationView> {
    Seq::new(cells.len(), |i: int| cells[i]@)
}

/// The views of the measurements in `cells`.
pub open spec fn cell_views(cells: Seq<CellInfo>) -> Seq<CellInfoView> {
    Seq::new(cells.len(), |i: int| cells[i]@)
}

/// The mathematical content of an optional cell.
pub open spec fn option_location_view(cell: Option<CellLocationInfo>) -> Option<CellLocationView> {
    match cell {
        Some(c) => Some(c@),
        None => None,
    }
}

impl View for CellLocationResponse {
    type V = CellLocationResponseView;

    open spec fn view(&self) -> CellLocationResponseView {
        CellLocationResponseView {
            available: self.available,
            cell_info: option_location_view(self.cell_info),
            neighbor_cells: location_views(self.neighbor_cells@),
            usage_hint: self.usage_hint@,
        }
    }
}

/// `v` divided by 100, rounded towards zero.
pub open spec fn hundredth(v: int) -> int {
    if v >= 0 {
        v / 100
    } else {
        -((-v) / 100)
    }
}

/// The number that `text` spells as a `u32`.
pub open spec fn number(text: Seq<char>) -> Option<u32> {
    match parse_unsigned(text, u32::MAX as nat) {
        Some(v) => Some(v as u32),
        None => None,
    }
}

/// The level that `text` gives in hundredths, in whole units.
pub open spec fn level(text: Seq<char>) -> Option<i32> {
    match parse_signed(text, i32::MIN as int, i32::MAX as int) {
        Some(v) => Some(hundredth(v) as i32),
        None => None,
    }
}

/// The received power that `rsrp` gives in hundredths of a dBm, in whole dBm.
/// A text that is no number is read as -140 hundredths.
pub open spec fn received_power(rsrp: Seq<char>) -> i32 {
    match parse_signed(rsrp, i32::MIN as int, i32::MAX as int) {
        Some(v) => hundredth(v) as i32,
        None => hundredth(-140) as i32,
    }
}

/// The received power reported where nothing was measured.
pub open spec fn default_power() -> i32 {
    -100i32
}

/// The serving cell in the form in which it is reported: none where its
/// identifier is 0; without measurements the power is -100 dBm and nothing else is known.
pub open spec fn serving_location(
    mcc: Seq<char>,
    mnc: Seq<char>,
    tech: Seq<char>,
    cell_id: u64,
    tac: u32,
    detail: Option<CellInfoView>,
) -> Option<CellLocationView> {
    if cell_id == 0 {
        None
    } else {
        Some(
            match detail {
                Some(d) => CellLocationView {
                    mcc,
                    mnc,
                    lac: tac,
                    cid: cell_id,
                    signal_strength: received_power(d.rsrp),
                    radio_type: tech,
                    arfcn: number(d.arfcn),
                    pci: number(d.pci),
                    rsrq: level(d.rsrq),
                    sinr: level(d.sinr),
                },
                None => CellLocationView {
                    mcc,
                    mnc,
                    lac: tac,
                    cid: cell_id,
                    signal_strength: default_power(),
                    radio_type: tech,
                    arfcn: None,
                    pci: None,
                    rsrq: None,
                    sinr: None,
                },
            },
        )
    }
}

/// A neighbouring cell in the form in which it is reported: none where its
/// physical cell identifier is no number. It is filed under the tracking area of
/// the serving cell, with the identifier 0.
pub open spec fn neighbor_location(
    mcc: Seq<char>,
    mnc: Seq<char>,
    tac: u32,
    cell: CellInfoView,
) -> Option<CellLocationView> {
    match number(cell.pci) {
        Some(pci) => Some(
            CellLocationView {
                mcc,
                mnc,
                lac: tac,
                cid: 0,
                signal_strength: received_power(cell.rsrp),
                radio_type: cell.tech,
                arfcn: number(cell.arfcn),
                pci: Some(pci),
                rsrq: level(cell.rsrq),
                sinr: level(cell.sinr),
            },
        ),
        None => None,
    }
}

/// The neighbouring cells that can be reported, in their order.
pub open spec fn neighbor_locations(
    mcc: Seq<char>,
    mnc: Seq<char>,
    tac: u32,
    cells: Seq<CellInfoView>,
) -> Seq<CellLocationView>
    decreases cells.len(),
{
    if cells.len() == 0 {
        Seq::empty()
    } else {
        let init: Seq<CellLocationView> = neighbor_locations(mcc, mnc, tac, cells.drop_last());
        match neighbor_location(mcc, mnc, tac, cells.last()) {
            Some(c) => init.push(c),
            None => init,
        }
    }
}

/// The level that `text` gives in hundredths, in whole units.
pub fn read_level(text: &str) -> (r: Option<i32>)
    ensures
        r == level(text@),
{
    match parse_i32(text) {
        Some(v) => Some(v / 100),
        None => None,
    }
}

/// The received power that `rsrp` gives in hundredths of a dBm, in whole dBm.
pub fn read_received_power(rsrp: &str) -> (r: i32)
    ensures
        r == received_power(rsrp@),
{
    let hundredths: i32 = match parse_i32(rsrp) {
        Some(v) => v,
        None => -140,
    };
    hundredths / 100
}

/// The serving cell in the form in which it is reported.
pub fn serving_cell_location(
    mcc: &str,
    mnc: &str,
    serving: &ServingCell,
    detail: Option<&CellInfo>,
) -> (cell: Option<CellLocationInfo>)
    ensures
        option_location_view(cell) == serving_location(
            mcc@,
            mnc@,
            serving.tech@,
            serving.cell_id,
            serving.tac,
            match detail {
                Some(d) => Some(d@),
                None => None,
            },
        ),
{
    if serving.cell_id == 0 {
        return None;
    }
    Some(
        match detail {
            Some(d) => CellLocationInfo {
                mcc: mcc.to_string(),
                mnc: mnc.to_string(),
                lac: serving.tac,
                cid: serving.cell_id,
                signal_strength: read_received_power(d.rsrp.as_str()),
                radio_type: serving.tech.clone(),
                arfcn: parse_u32(d.arfcn.as_str()),
                pci: parse_u32(d.pci.as_str()),
                rsrq: read_level(d.rsrq.as_str()),
                sinr: read_level(d.sinr.as_str()),
            },
            None => CellLocationInfo {
                mcc: mcc.to_string(),
                mnc: mnc.to_string(),
                lac: serving.tac,
                cid: serving.cell_id,
                signal_strength: -100,
                radio_type: serving.tech.clone(),
                arfcn: None,
                pci: None,
                rsrq: None,
                sinr: None,
            },
        },
    )
}

/// A neighbouring cell in the form in which it is reported.
pub fn neighbor_cell_location(mcc: &str, mnc: &str, tac: u32, cell: &CellInfo) -> (r: Option<
    CellLocationInfo,
>)
    ensures
        option_location_view(r) == neighbor_location(mcc@, mnc@, tac, cell@),
{
    let signal_strength: i32 = read_received_power(cell.rsrp.as_str());
    let pci: u32 = match parse_u32(cell.pci.as_str()) {
        Some(p) => p,
        None => { return None; },
    };
    Some(
        CellLocationInfo {
            mcc: mcc.to_string(),
            mnc: mnc.to_string(),
            lac: tac,
            cid: 0,
            signal_strength,
            radio_type: cell.tech.clone(),
            arfcn: parse_u32(cell.arfcn.as_str()),
            pci: Some(pci),
            rsrq: read_level(cell.rsrq.as_str()),
            sinr: read_level(cell.sinr.as_str()),
        },
    )
}

/// The neighbouring cells that can be reported.
pub fn neighbor_cell_locations(mcc: &str, mnc: &str, tac: u32, cells: &Vec<CellInfo>) -> (r: Vec<
    CellLocationInfo,
>)
    ensures
        location_views(r@) == neighbor_locations(mcc@, mnc@, tac, cell_views(cells@)),
{
    let ghost all = cell_views(cells@);
    let mut out: Vec<CellLocationInfo> = Vec::new();
    let mut k: usize = 0;
    assert(all.take(0) == Seq::<CellInfoView>::empty());
    assert(location_views(out@) == Seq::<CellLocationView>::empty());
    while k < cells.len()
        invariant
            k <= cells.len(),
            all == cell_views(cells@),
            location_views(out@) == neighbor_locations(mcc@, mnc@, tac, all.take(k as int)),
        decreases cells.len() - k,
    {
        assert(all.take(k as int + 1).drop_last() == all.take(k as int));
        assert(all.take(k as int + 1).last() == cells[k as int]@);
        let ghost before = out@;
        match neighbor_cell_location(mcc, mnc, tac, &cells[k]) {
            Some(c) => {
                out.push(c);
                assert(location_views(out@) == location_views(before).push(c@));
            },
            None => {},
        }
        k += 1;
    }
    assert(all.take(cells.len() as int) == all);
    out
}

/// The half of the network code without which no cell can be reported.
#[derive(Debug, Clone, Copy, PartialEq, Eq, Structural)]
pub enum MissingCode {
    Mcc,
    Mnc,
}

/// Whether a code is there: given, and not empty.
pub open spec fn is_given(code: Option<Seq<char>>) -> bool {
    code matches Some(c) && c.len() > 0
}

/// The half of the network code that is missing, the country code first.
pub open spec fn missing_code_spec(mcc: Option<Seq<char>>, mnc: Option<Seq<char>>) -> Option<
    MissingCode,
> {
    if !is_given(mcc) {
        Some(MissingCode::Mcc)
    } else if !is_given(mnc) {
        Some(MissingCode::Mnc)
    } else {
        None
    }
}

/// The half of the network code that is missing, if one is.
pub fn missing_code(mcc: Option<&str>, mnc: Option<&str>) -> (missing: Option<MissingCode>)
    ensures
        missing == missing_code_spec(
            match mcc {
                Some(c) => Some(c@),
                None => None,
            },
            match mnc {
                Some(c) => Some(c@),
                None => None,
            },
        ),
{
    let mcc_given: bool = match mcc {
        Some(c) => !c.is_empty(),
        None => false,
    };
    let mnc_given: bool = match mnc {
        Some(c) => !c.is_empty(),
        None => false,
    };
    if !mcc_given {
        Some(MissingCode::Mcc)
    } else if !mnc_given {
        Some(MissingCode::Mnc)
    } else {
        None
    }
}

/// The message that goes with the report where a code is missing.
pub fn unavailable_message(missing: MissingCode) -> (message: &'static str)
    ensures
        message@ == unavailable_text(missing),
{
    match missing {
        MissingCode::Mcc => "Cell location unavailable: MCC not available",
        MissingCode::Mnc => "Cell location unavailable: MNC not available",
    }
}

/// The hint of a report without a network code.
pub open spec fn unregistered_hint() -> Seq<char> {
    "Network not registered or MCC/MNC not available. Please ensure device is connected to cellular network."@
}

/// The report where a code is missing: nothing is available.
pub fn unavailable_response() -> (response: CellLocationResponse)
    ensures
        response@ == (CellLocationResponseView {
            available: false,
            cell_info: None,
            neighbor_cells: Seq::empty(),
            usage_hint: unregistered_hint(),
        }),
{
    let response = CellLocationResponse {
        available: false,
        cell_info: None,
        neighbor_cells: Vec::new(),
        usage_hint: "Network not registered or MCC/MNC not available. Please ensure device is connected to cellular network.".to_string(),
    };
    assert(location_views(response.neighbor_cells@) == Seq::<CellLocationView>::empty());
    response
}

/// The network and the serving cell as a hint names them.
pub open spec fn network_line(
    operator_name: Seq<char>,
    mcc: Seq<char>,
    mnc: Seq<char>,
    cell_id: u64,
    tac: u32,
) -> Seq<char> {
    "Network: "@ + operator_name + " (MCC="@ + mcc + ", MNC="@ + mnc + "), Cell ID="@
        + decimal_digits(cell_id as nat) + ", TAC="@ + decimal_digits(tac as nat)
}

/// The hint of a report on a network type for which nothing can be measured.
pub open spec fn limited_hint(
    tech: Seq<char>,
    operator_name: Seq<char>,
    mcc: Seq<char>,
    mnc: Seq<char>,
    cell_id: u64,
    tac: u32,
) -> Seq<char> {
    "Cell location data available (limited). Unsupported network type: "@ + tech + ".\n"@
        + network_line(operator_name, mcc, mnc, cell_id, tac)
}

/// How a hint begins that names services for cell data.
pub open spec fn services_text() -> Seq<char> {
    "Cell location data available. You can use this data with geolocation APIs:\n- Google Geolocation API: https://developers.google.com/maps/documentation/geolocation/overview\n- OpenCellID: https://opencellid.org/\n- Unwired Labs: https://unwiredlabs.com/\n"@
}

/// The hint of a full report: the services, the network and the power where
/// there is a serving cell; else the remark that there is none.
pub open spec fn full_hint(
    cell: Option<CellLocationView>,
    operator_name: Seq<char>,
    mcc: Seq<char>,
    mnc: Seq<char>,
    cell_id: u64,
    tac: u32,
) -> Seq<char> {
    match cell {
        Some(c) => services_text() + network_line(operator_name, mcc, mnc, cell_id, tac)
            + ", Signal="@ + signed_decimal(c.signal_strength as int) + "dBm"@,
        None => "Cell location unavailable: No serving cell found."@,
    }
}

/// The report on a network type for which nothing can be measured.
pub open spec fn limited_report(
    operator_name: Seq<char>,
    mcc: Seq<char>,
    mnc: Seq<char>,
    tech: Seq<char>,
    cell_id: u64,
    tac: u32,
) -> CellLocationResponseView {
    CellLocationResponseView {
        available: cell_id != 0,
        cell_info: serving_location(mcc, mnc, tech, cell_id, tac, None),
        neighbor_cells: Seq::empty(),
        usage_hint: limited_hint(tech, operator_name, mcc, mnc, cell_id, tac),
    }
}

/// The full report: the serving cell with what was measured of it, and the
/// neighbouring cells.
pub open spec fn full_report(
    operator_name: Seq<char>,
    mcc: Seq<char>,
    mnc: Seq<char>,
    tech: Seq<char>,
    cell_id: u64,
    tac: u32,
    detail: Option<CellInfoView>,
    neighbors: Seq<CellInfoView>,
) -> CellLocationResponseView {
    let cell: Option<CellLocationView> = serving_location(mcc, mnc, tech, cell_id, tac, detail);
    CellLocationResponseView {
        available: cell is Some,
        cell_info: cell,
        neighbor_cells: neighbor_locations(mcc, mnc, tac, neighbors),
        usage_hint: full_hint(cell, operator_name, mcc, mnc, cell_id, tac),
    }
}

/// Appends the line that names the network and the serving cell.
fn push_network_line(
    out: &mut String,
    operator_name: &str,
    mcc: &str,
    mnc: &str,
    cell_id: u64,
    tac: u32,
)
    ensures
        final(out)@ == old(out)@ + network_line(operator_name@, mcc@, mnc@, cell_id, tac),
{
    let mut line = "Network: ".to_string();
    line.append(operator_name);
    line.append(" (MCC=");
    line.append(mcc);
    line.append(", MNC=");
    line.append(mnc);
    line.append("), Cell ID=");
    push_decimal(&mut line, cell_id);
    line.append(", TAC=");
    push_decimal(&mut line, tac as u64);
    out.append(line.as_str());
}

/// The report on a network type for which nothing can be measured.
pub fn limited_response(operator_name: &str, mcc: &str, mnc: &str, serving: &ServingCell) -> (response:
    CellLocationResponse)
    ensures
        response@ == limited_report(
            operator_name@,
            mcc@,
            mnc@,
            serving.tech@,
            serving.cell_id,
            serving.tac,
        ),
{
    let cell_info = serving_cell_location(mcc, mnc, serving, None);
    let mut usage_hint =
        "Cell location data available (limited). Unsupported network type: ".to_string();
    usage_hint.append(serving.tech.as_str());
    usage_hint.append(".\n");
    push_network_line(&mut usage_hint, operator_name, mcc, mnc, serving.cell_id, serving.tac);
    let response = CellLocationResponse {
        available: cell_info.is_some(),
        cell_info,
        neighbor_cells: Vec::new(),
        usage_hint,
    };
    assert(location_views(response.neighbor_cells@) == Seq::<CellLocationView>::empty());
    response
}

/// The full report.
pub fn full_response(
    operator_name: &str,
    mcc: &str,
    mnc: &str,
    serving: &ServingCell,
    detail: Option<&CellInfo>,
    neighbors: &Vec<CellInfo>,
) -> (response: CellLocationResponse)
    ensures
        response@ == full_report(
            operator_name@,
            mcc@,
            mnc@,
            serving.tech@,
            serving.cell_id,
            serving.tac,
            match detail {
                Some(d) => Some(d@),
                None => None,
            },
            cell_views(neighbors@),
        ),
{
    let cell_info = serving_cell_location(mcc, mnc, serving, detail);
    let neighbor_cells = neighbor_cell_locations(mcc, mnc, serving.tac, neighbors);
    let usage_hint: String = match &cell_info {
        Some(c) => {
            let mut hint = "Cell location data available. You can use this data with geolocation APIs:\n- Google Geolocation API: https://developers.google.com/maps/documentation/geolocation/overview\n- OpenCellID: https://opencellid.org/\n- Unwired Labs: https://unwiredlabs.com/\n".to_string();
            push_network_line(&mut hint, operator_name, mcc, mnc, serving.cell_id, serving.tac);
            hint.append(", Signal=");
            push_signed_decimal(&mut hint, c.signal_strength as i64);
            hint.append("dBm");
            hint
        },
        None => "Cell location unavailable: No serving cell found.".to_string(),
    };
    CellLocationResponse { available: cell_info.is_some(), cell_info, neighbor_cells, usage_hint }
}

/// An answer to the question for the cells around the device: the report, and
/// the message that goes with it.
#[derive(Debug, Clone, PartialEq, Eq)]
pub struct LocationReply {
    pub message: String,
    pub response: CellLocationResponse,
}

/// The mathematical content of a [`LocationReply`].
pub struct LocationReplyView {
    pub message: Seq<char>,
    pub response: CellLocationResponseView,
}

impl View for LocationReply {
    type V = LocationReplyView;

    open spec fn view(&self) -> LocationReplyView {
        LocationReplyView { message: self.message@, response: self.response@ }
    }
}

/// The mathematical content of an optional answer.
pub open spec fn option_reply_view(reply: Option<LocationReply>) -> Option<LocationReplyView> {
    match reply {
        Some(r) => Some(r@),
        None => None,
    }
}

/// The message that goes with the report where a code is missing.
pub open spec fn unavailable_text(missing: MissingCode) -> Seq<char> {
    match missing {
        MissingCode::Mcc => "Cell location unavailable: MCC not available"@,
        MissingCode::Mnc => "Cell location unavailable: MNC not available"@,
    }
}

/// The answer that is due as soon as the network code is known: where a half of
/// it is missing, nothing is available, and no cell needs to be asked for.
pub open spec fn reply_without_network_code_spec(
    mcc: Option<Seq<char>>,
    mnc: Option<Seq<char>>,
) -> Option<LocationReplyView> {
    match missing_code_spec(mcc, mnc) {
        Some(missing) => Some(
            LocationReplyView {
                message: unavailable_text(missing),
                response: CellLocationResponseView {
                    available: false,
                    cell_info: None,
                    neighbor_cells: Seq::empty(),
                    usage_hint: unregistered_hint(),
                },
            },
        ),
        None => None,
    }
}

/// The answer that is due as soon as the serving cell is known: where cells of
/// its network type cannot be measured, the limited report, and nothing needs
/// to be measured.
pub open spec fn reply_without_measurements_spec(
    operator_name: Seq<char>,
    mcc: Seq<char>,
    mnc: Seq<char>,
    tech: Seq<char>,
    cell_id: u64,
    tac: u32,
    measurable: bool,
) -> Option<LocationReplyView> {
    if measurable {
        None
    } else {
        Some(
            LocationReplyView {
                message: "Success (limited info)"@,
                response: limited_report(operator_name, mcc, mnc, tech, cell_id, tac),
            },
        )
    }
}

/// The answer that is due as soon as the network code is known, if one is.
pub fn reply_without_network_code(mcc: Option<&str>, mnc: Option<&str>) -> (reply: Option<
    LocationReply,
>)
    ensures
        option_reply_view(reply) == reply_without_network_code_spec(
            match mcc {
                Some(c) => Some(c@),
                None => None,
            },
            match mnc {
                Some(c) => Some(c@),
                None => None,
            },
        ),
{
    match missing_code(mcc, mnc) {
        Some(missing) => Some(
            LocationReply {
                message: unavailable_message(missing).to_string(),
                response: unavailable_response(),
            },
        ),
        None => None,
    }
}

/// The answer that is due as soon as the serving cell is known, if one is.
/// `measurable` says whether cells of its network type can be measured.
pub fn reply_without_measurements(
    operator_name: &str,
    mcc: &str,
    mnc: &str,
    serving: &ServingCell,
    measurable: bool,
) -> (reply: Option<LocationReply>)
    ensures
        option_reply_view(reply) == reply_without_measurements_spec(
            operator_name@,
            mcc@,
            mnc@,
            serving.tech@,
            serving.cell_id,
            serving.tac,
            measurable,
        ),
{
    if measurable {
        return None;
    }
    Some(
        LocationReply {
            message: "Success (limited info)".to_string(),
            response: limited_response(operator_name, mcc, mnc, serving),
        },
    )
}

/// The answer once the cells were measured, as far as they could be: the full
/// report.
pub fn reply_with_measurements(
    operator_name: &str,
    mcc: &str,
    mnc: &str,
    serving: &ServingCell,
    detail: Option<&CellInfo>,
    neighbors: &Vec<CellInfo>,
) -> (reply: LocationReply)
    ensures
        reply.message@ == "Success"@,
        reply.response@ == full_report(
            operator_name@,
            mcc@,
            mnc@,
            serving.tech@,
            serving.cell_id,
            serving.tac,
            match detail {
                Some(d) => Some(d@),
                None => None,
            },
            cell_views(neighbors@),
        ),
{
    LocationReply {
        message: "Success".to_string(),
        response: full_response(operator_name, mcc, mnc, serving, detail, neighbors),
    }
}

} // verus!
