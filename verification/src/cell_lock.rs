//! Locking the modem to one cell: the commands that do it, the order in which
//! they are sent, and the reading of the modem's answer to a query.
//!
//! A lock is set or cleared in engineering mode. A plan lists the commands of
//! one such visit in their order. Whoever talks to the modem sends them one by
//! one and stops at the first that fails; where the failed step says so, the
//! modem is sent back to normal operation before the failure is reported.

use crate::decimal::{decimal_digits, parse_unsigned, parse_unsigned_range, push_decimal};
use crate::text::{
    chars_of, line_bounds, lines, range_starts_with, split, split_range, starts_with, trim,
    trim_range,
};
use vstd::prelude::*;
use vstd::string::StringExecFns;

verus! {

/// The number under which the modem knows LTE.
pub const FORCEFRQ_TYPE_LTE: u8 = 12;

/// The number under which the modem knows NR.
pub const FORCEFRQ_TYPE_NR: u8 = 16;

/// The name of a radio access technology by its number.
pub open spec fn rat_name(rat: u8) -> Seq<char> {
    if rat == 12 {
        "LTE"@
    } else if rat == 16 {
        "NR"@
    } else {
        "Unknown("@ + decimal_digits(rat as nat) + ")"@
    }
}

/// The name of a radio access technology by its number.
pub fn get_rat_name(rat: u8) -> (name: String)
    ensures
        name@ == rat_name(rat),
{
    if rat == 12 {
        "LTE".to_string()
    } else if rat == 16 {
        "NR".to_string()
    } else {
        let mut name = "Unknown(".to_string();
        push_decimal(&mut name, rat as u64);
        name.append(")");
        name
    }
}

/// The technology that a request means: 12 and 16 stand for themselves, 1 and 2
/// for LTE, and everything else for NR.
pub open spec fn forcefrq_type_spec(rat: u8) -> u8 {
    if rat == 12 || rat == 16 {
        rat
    } else if rat == 1 || rat == 2 {
        12
    } else {
        16
    }
}

/// The technology that a request means.
pub fn forcefrq_type(rat: u8) -> (kind: u8)
    ensures
        kind == forcefrq_type_spec(rat),
        kind == FORCEFRQ_TYPE_LTE || kind == FORCEFRQ_TYPE_NR,
{
    if rat == FORCEFRQ_TYPE_LTE || rat == FORCEFRQ_TYPE_NR {
        rat
    } else if rat == 1 || rat == 2 {
        FORCEFRQ_TYPE_LTE
    } else {
        FORCEFRQ_TYPE_NR
    }
}

/// The command that asks whether a cell is locked for technology `kind`.
pub fn query_command(kind: u8) -> (command: String)
    ensures
        command@ == "AT+SPFORCEFRQ="@ + decimal_digits(kind as nat) + ",3"@,
{
    let mut command = "AT+SPFORCEFRQ=".to_string();
    push_decimal(&mut command, kind as u64);
    command.append(",3");
    command
}

/// The command that clears the lock for technology `kind`.
pub fn clear_command(kind: u8) -> (command: String)
    ensures
        command@ == clear_command_text(kind),
{
    let mut command = "AT+SPFORCEFRQ=".to_string();
    push_decimal(&mut command, kind as u64);
    command.append(",0");
    command
}

/// The command that locks technology `kind` to the cell with this frequency
/// number and this physical cell identifier.
pub fn lock_command(kind: u8, arfcn: u32, pci: u16) -> (command: String)
    ensures
        command@ == lock_command_text(kind, arfcn, pci),
{
    let mut command = "AT+SPFORCEFRQ=".to_string();
    push_decimal(&mut command, kind as u64);
    command.append(",2,");
    push_decimal(&mut command, arfcn as u64);
    command.append(",");
    push_decimal(&mut command, pci as u64);
    command
}

/// What the modem reports of the lock for one technology.
#[derive(Debug, Clone, PartialEq, Eq)]
pub struct CellLockRatStatus {
    pub rat: u8,
    pub rat_name: String,
    pub enabled: bool,
    pub lock_type: u8,
    pub pci: Option<u16>,
    pub arfcn: Option<u32>,
}

/// The mathematical content of a [`CellLockRatStatus`].
pub struct CellLockView {
    pub rat: u8,
    pub rat_name: Seq<char>,
    pub enabled: bool,
    pub lock_type: u8,
    pub pci: Option<u16>,
    pub arfcn: Option<u32>,
}

impl View for CellLockRatStatus {
    type V = CellLockView;

    open spec fn view(&self) -> CellLockView {
        CellLockView {
            rat: self.rat,
            rat_name: self.rat_name@,
            enabled: self.enabled,
            lock_type: self.lock_type,
            pci: self.pci,
            arfcn: self.arfcn,
        }
    }
}

/// How the line of an answer begins that speaks of technology `rat`.
pub open spec fn answer_prefix(rat: u8) -> Seq<char> {
    "+SPFORCEFRQ: "@ + decimal_digits(rat as nat) + ",3"@
}

/// The first of `lines` that begins with `prefix`.
pub open spec fn first_with_prefix(lines: Seq<Seq<char>>, prefix: Seq<char>) -> Option<Seq<char>>
    decreases lines.len(),
{
    if lines.len() == 0 {
        None
    } else if starts_with(lines.first(), prefix) {
        Some(lines.first())
    } else {
        first_with_prefix(lines.drop_first(), prefix)
    }
}

/// `s` without the commas at its beginning.
pub open spec fn skip_commas(s: Seq<char>) -> Seq<char>
    decreases s.len(),
{
    if s.len() > 0 && s.first() == ',' {
        skip_commas(s.drop_first())
    } else {
        s
    }
}

/// The report that no cell is locked for technology `rat`.
pub open spec fn unlocked(rat: u8) -> CellLockView {
    CellLockView {
        rat,
        rat_name: rat_name(rat),
        enabled: false,
        lock_type: 0,
        pci: None,
        arfcn: None,
    }
}

/// A number that was read within the range of `u32`, as a `u32`.
pub open spec fn option_u32(n: Option<nat>) -> Option<u32> {
    match n {
        Some(v) => Some(v as u32),
        None => None,
    }
}

/// A number that was read within the range of `u16`, as a `u16`.
pub open spec fn option_u16(n: Option<nat>) -> Option<u16> {
    match n {
        Some(v) => Some(v as u16),
        None => None,
    }
}

/// What the rest of an answer line says, behind the prefix and any commas: the
/// frequency number, a comma, and the cell identifier. The lock counts as
/// enabled where both are numbers.
pub open spec fn locked(rat: u8, data: Seq<char>) -> CellLockView {
    let parts: Seq<Seq<char>> = split(data, ',');
    let arfcn: Option<u32> = option_u32(parse_unsigned(trim(parts[0]), u32::MAX as nat));
    let pci: Option<u16> = if parts.len() > 1 {
        option_u16(parse_unsigned(trim(parts[1]), u16::MAX as nat))
    } else {
        None
    };
    CellLockView {
        rat,
        rat_name: rat_name(rat),
        enabled: arfcn is Some && pci is Some,
        lock_type: 3,
        pci,
        arfcn,
    }
}

/// What the modem's answer to a lock query says of technology `rat`. The first
/// line that begins with the prefix for `rat` counts; without such a line, or
/// with nothing behind the prefix, no cell is locked.
pub open spec fn lock_status(response: Seq<char>, rat: u8) -> CellLockView {
    match first_with_prefix(lines(response), answer_prefix(rat)) {
        Some(line) => {
            let data: Seq<char> = skip_commas(line.skip(answer_prefix(rat).len() as int));
            if data.len() == 0 {
                unlocked(rat)
            } else {
                locked(rat, data)
            }
        },
        None => unlocked(rat),
    }
}

/// The report that no cell is locked for technology `rat`.
pub fn unlocked_status(rat: u8) -> (status: CellLockRatStatus)
    ensures
        status@ == unlocked(rat),
{
    CellLockRatStatus {
        rat,
        rat_name: get_rat_name(rat),
        enabled: false,
        lock_type: 0,
        pci: None,
        arfcn: None,
    }
}

/// Reads what stands behind the prefix in `s[from..to]`.
fn read_lock_data(s: &Vec<char>, from: usize, to: usize, rat: u8) -> (status: CellLockRatStatus)
    requires
        from <= to <= s.len(),
    ensures
        ({
            let data = skip_commas(s@.subrange(from as int, to as int));
            status@ == if data.len() == 0 {
                unlocked(rat)
            } else {
                locked(rat, data)
            }
        }),
{
    let ghost rest = s@.subrange(from as int, to as int);
    let mut start: usize = from;
    assert(rest.skip(0) == rest);
    while start < to && s[start] == ','
        invariant
            from <= start <= to <= s.len(),
            rest == s@.subrange(from as int, to as int),
            skip_commas(rest) == skip_commas(rest.skip(start - from)),
        decreases to - start,
    {
        assert(rest.skip(start - from).drop_first() == rest.skip(start - from + 1));
        start += 1;
    }
    assert(rest.skip(start - from) == s@.subrange(start as int, to as int));
    if start == to {
        return unlocked_status(rat);
    }
    let ghost data = s@.subrange(start as int, to as int);
    let parts = split_range(s, start, to, ',');
    proof {
        crate::text::lemma_split_len(data, ',');
    }
    let (a0, a1) = parts[0];
    let (b0, b1) = trim_range(s, a0, a1);
    let arfcn: Option<u32> = match parse_unsigned_range(s, b0, b1, 0xFFFF_FFFF) {
        Some(v) => Some(v as u32),
        None => None,
    };
    let pci: Option<u16> = if parts.len() > 1 {
        let (c0, c1) = parts[1];
        let (d0, d1) = trim_range(s, c0, c1);
        match parse_unsigned_range(s, d0, d1, 0xFFFF) {
            Some(v) => Some(v as u16),
            None => None,
        }
    } else {
        None
    };
    CellLockRatStatus {
        rat,
        rat_name: get_rat_name(rat),
        enabled: arfcn.is_some() && pci.is_some(),
        lock_type: 3,
        pci,
        arfcn,
    }
}

/// Reads the modem's answer to a lock query for technology `rat`.
///
/// An answer without a lock looks like `+SPFORCEFRQ: 16,3`, one with a lock like
/// `+SPFORCEFRQ: 16,3,633984,597`.
pub fn parse_spforcefrq_query_response(response: &str, rat: u8) -> (status: CellLockRatStatus)
    ensures
        status@ == lock_status(response@, rat),
{
    let mut prefix_text = "+SPFORCEFRQ: ".to_string();
    push_decimal(&mut prefix_text, rat as u64);
    prefix_text.append(",3");
    let prefix = chars_of(prefix_text.as_str());
    let s = chars_of(response);
    let bounds = line_bounds(&s);
    let ghost all = lines(s@);
    let mut k: usize = 0;
    assert(all.skip(0) == all);
    while k < bounds.len()
        invariant
            k <= bounds.len(),
            bounds.len() == all.len(),
            all == lines(s@),
            s@ == response@,
            prefix@ == answer_prefix(rat),
            forall|i: int|
                0 <= i < bounds.len() ==> (#[trigger] bounds[i]).0 <= bounds[i].1 <= s.len()
                    && s@.subrange(bounds[i].0 as int, bounds[i].1 as int) == all[i],
            first_with_prefix(all, prefix@) == first_with_prefix(all.skip(k as int), prefix@),
        decreases bounds.len() - k,
    {
        let (from, to) = bounds[k];
        assert(all.skip(k as int).first() == all[k as int]);
        assert(all.skip(k as int).drop_first() == all.skip(k as int + 1));
        if range_starts_with(&s, from, to, &prefix) {
            let ghost line = s@.subrange(from as int, to as int);
            assert(line.skip(prefix.len() as int) == s@.subrange(
                from + prefix.len() as int,
                to as int,
            ));
            return read_lock_data(&s, from + prefix.len(), to, rat);
        }
        k += 1;
    }
    unlocked_status(rat)
}

/// The text of the command that clears the lock for technology `kind`.
pub open spec fn clear_command_text(kind: u8) -> Seq<char> {
    "AT+SPFORCEFRQ="@ + decimal_digits(kind as nat) + ",0"@
}

/// The text of the command that locks technology `kind` to a cell.
pub open spec fn lock_command_text(kind: u8, arfcn: u32, pci: u16) -> Seq<char> {
    "AT+SPFORCEFRQ="@ + decimal_digits(kind as nat) + ",2,"@ + decimal_digits(arfcn as nat)
        + ","@ + decimal_digits(pci as nat)
}

/// The command that puts the modem into engineering mode.
pub open spec fn enter_command_text() -> Seq<char> {
    "AT+SFUN=5"@
}

/// The command that sends the modem back to normal operation.
pub open spec fn restore_command_text() -> Seq<char> {
    "AT+SFUN=4"@
}

/// The command that sends the modem back to normal operation.
pub fn restore_command() -> (command: &'static str)
    ensures
        command@ == restore_command_text(),
{
    "AT+SFUN=4"
}

/// One command of a plan.
#[derive(Debug, Clone, PartialEq, Eq)]
pub struct PlanStep {
    pub command: String,
    /// What the command is sent for.
    pub description: String,
    /// How the report of a failure of this command begins; what the modem said
    /// follows.
    pub failure: String,
    /// Whether the modem is sent back to normal operation when this command fails.
    pub restore_on_failure: bool,
}

/// The mathematical content of a [`PlanStep`].
pub struct PlanStepView {
    pub command: Seq<char>,
    pub description: Seq<char>,
    pub failure: Seq<char>,
    pub restore_on_failure: bool,
}

impl View for PlanStep {
    type V = PlanStepView;

    open spec fn view(&self) -> PlanStepView {
        PlanStepView {
            command: self.command@,
            description: self.description@,
            failure: self.failure@,
            restore_on_failure: self.restore_on_failure,
        }
    }
}

/// The views of the steps in `plan`.
pub open spec fn plan_views(plan: Seq<PlanStep>) -> Seq<PlanStepView> {
    Seq::new(plan.len(), |i: int| plan[i]@)
}

/// A step whose failure is reported under its description and the word for failure.
pub open spec fn step(command: Seq<char>, description: Seq<char>, restore: bool) -> PlanStepView {
    PlanStepView {
        command,
        description,
        failure: description + "失败: "@,
        restore_on_failure: restore,
    }
}

/// A step of the plan that clears every lock: its failure is reported as a
/// failure of the unlocking, with the description of the step.
pub open spec fn unlock_all_step(command: Seq<char>, description: Seq<char>, restore: bool) -> PlanStepView {
    PlanStepView {
        command,
        description,
        failure: "解锁失败: "@ + description + ": "@,
        restore_on_failure: restore,
    }
}

/// The plan that locks technology `kind` to a cell: enter engineering mode,
/// clear the lock for NR, clear the lock for LTE, set the lock, return to normal
/// operation. Whichever of the first four fails, the modem is sent back to
/// normal operation.
pub open spec fn lock_plan_spec(kind: u8, arfcn: u32, pci: u16) -> Seq<PlanStepView> {
    seq![
        step(enter_command_text(), "进入工程模式"@, true),
        step(clear_command_text(16), "清空 NR 锁定"@, true),
        step(clear_command_text(12), "清空 LTE 锁定"@, true),
        step(lock_command_text(kind, arfcn, pci), "设置锁定"@, true),
        step(restore_command_text(), "恢复正常模式"@, false),
    ]
}

/// The plan that clears the lock for technology `kind`: enter engineering mode,
/// clear the lock, return to normal operation. The modem is sent back to normal
/// operation where clearing fails.
pub open spec fn unlock_plan_spec(kind: u8) -> Seq<PlanStepView> {
    seq![
        step(enter_command_text(), "进入工程模式"@, false),
        step(clear_command_text(kind), "清空锁定"@, true),
        step(restore_command_text(), "恢复正常模式"@, false),
    ]
}

/// The plan that clears the locks for both technologies. The modem is sent back
/// to normal operation where any step but the last fails.
pub open spec fn unlock_all_plan_spec() -> Seq<PlanStepView> {
    seq![
        unlock_all_step(enter_command_text(), "进入工程模式"@, true),
        unlock_all_step(clear_command_text(16), "清空 NR 锁定"@, true),
        unlock_all_step(clear_command_text(12), "清空 LTE 锁定"@, true),
        unlock_all_step(restore_command_text(), "恢复正常模式"@, false),
    ]
}

/// The plan for a request, for the technology that the request means: to lock
/// where it enables, which takes the frequency number and the cell identifier,
/// and to unlock where it does not. None where a request to lock lacks one of
/// the two.
pub open spec fn request_plan_spec(
    rat: u8,
    enable: bool,
    arfcn: Option<u32>,
    pci: Option<u16>,
) -> Option<Seq<PlanStepView>> {
    if !enable {
        Some(unlock_plan_spec(forcefrq_type_spec(rat)))
    } else {
        match (arfcn, pci) {
            (Some(a), Some(p)) => Some(lock_plan_spec(forcefrq_type_spec(rat), a, p)),
            _ => None,
        }
    }
}

fn make_step(command: String, description: &str, restore: bool) -> (s: PlanStep)
    ensures
        s@ == step(command@, description@, restore),
{
    let mut failure = description.to_string();
    failure.append("失败: ");
    PlanStep { command, description: description.to_string(), failure, restore_on_failure: restore }
}

fn make_unlock_all_step(command: String, description: &str, restore: bool) -> (s: PlanStep)
    ensures
        s@ == unlock_all_step(command@, description@, restore),
{
    let mut failure = "解锁失败: ".to_string();
    failure.append(description);
    failure.append(": ");
    PlanStep { command, description: description.to_string(), failure, restore_on_failure: restore }
}

/// The plan that locks technology `kind` to the cell with this frequency number
/// and this physical cell identifier.
pub fn lock_plan(kind: u8, arfcn: u32, pci: u16) -> (plan: Vec<PlanStep>)
    ensures
        plan_views(plan@) == lock_plan_spec(kind, arfcn, pci),
{
    let mut plan: Vec<PlanStep> = Vec::new();
    plan.push(make_step("AT+SFUN=5".to_string(), "进入工程模式", true));
    plan.push(make_step(clear_command(FORCEFRQ_TYPE_NR), "清空 NR 锁定", true));
    plan.push(make_step(clear_command(FORCEFRQ_TYPE_LTE), "清空 LTE 锁定", true));
    plan.push(make_step(lock_command(kind, arfcn, pci), "设置锁定", true));
    plan.push(make_step("AT+SFUN=4".to_string(), "恢复正常模式", false));
    assert(plan_views(plan@) =~= lock_plan_spec(kind, arfcn, pci));
    plan
}

/// The plan that clears the lock for technology `kind`.
pub fn unlock_plan(kind: u8) -> (plan: Vec<PlanStep>)
    ensures
        plan_views(plan@) == unlock_plan_spec(kind),
{
    let mut plan: Vec<PlanStep> = Vec::new();
    plan.push(make_step("AT+SFUN=5".to_string(), "进入工程模式", false));
    plan.push(make_step(clear_command(kind), "清空锁定", true));
    plan.push(make_step("AT+SFUN=4".to_string(), "恢复正常模式", false));
    assert(plan_views(plan@) =~= unlock_plan_spec(kind));
    plan
}

/// The plan that clears the locks for both technologies.
pub fn unlock_all_plan() -> (plan: Vec<PlanStep>)
    ensures
        plan_views(plan@) == unlock_all_plan_spec(),
{
    let mut plan: Vec<PlanStep> = Vec::new();
    plan.push(make_unlock_all_step("AT+SFUN=5".to_string(), "进入工程模式", true));
    plan.push(make_unlock_all_step(clear_command(FORCEFRQ_TYPE_NR), "清空 NR 锁定", true));
    plan.push(make_unlock_all_step(clear_command(FORCEFRQ_TYPE_LTE), "清空 LTE 锁定", true));
    plan.push(make_unlock_all_step("AT+SFUN=4".to_string(), "恢复正常模式", false));
    assert(plan_views(plan@) =~= unlock_all_plan_spec());
    plan
}

/// The views of an optional plan.
pub open spec fn option_plan_views(plan: Option<Vec<PlanStep>>) -> Option<Seq<PlanStepView>> {
    match plan {
        Some(p) => Some(plan_views(p@)),
        None => None,
    }
}

/// The plan for a request to lock or unlock a cell; `None` where a request to
/// lock names no frequency number or no cell identifier.
pub fn plan_cell_lock(rat: u8, enable: bool, arfcn: Option<u32>, pci: Option<u16>) -> (plan: Option<
    Vec<PlanStep>,
>)
    ensures
        option_plan_views(plan) == request_plan_spec(rat, enable, arfcn, pci),
{
    let kind = forcefrq_type(rat);
    if !enable {
        return Some(unlock_plan(kind));
    }
    match (arfcn, pci) {
        (Some(a), Some(p)) => Some(lock_plan(kind, a, p)),
        _ => None,
    }
}

/// Every plan ends with the return to normal operation, and the modem is sent
/// back there where a step that clears or sets a lock fails.
pub proof fn lemma_plans_return_to_normal_operation(kind: u8, arfcn: u32, pci: u16)
    ensures
        lock_plan_spec(kind, arfcn, pci).last().command == restore_command_text(),
        unlock_plan_spec(kind).last().command == restore_command_text(),
        unlock_all_plan_spec().last().command == restore_command_text(),
        forall|i: int| 1 <= i < 4 ==> (#[trigger] lock_plan_spec(kind, arfcn, pci)[i]).restore_on_failure,
        unlock_plan_spec(kind)[1].restore_on_failure,
        forall|i: int| 1 <= i < 3 ==> (#[trigger] unlock_all_plan_spec()[i]).restore_on_failure,
{
}

/// What the modem reports of the locks for both technologies.
#[derive(Debug, Clone, PartialEq, Eq)]
pub struct CellLockStatus {
    /// The report for NR, then the report for LTE.
    pub rat_status: Vec<CellLockRatStatus>,
    /// Whether one of the two locks is enabled.
    pub any_locked: bool,
}

/// What an answer says of technology `rat`; an answer that never came says that
/// no cell is locked.
pub open spec fn answered_status(answer: Option<Seq<char>>, rat: u8) -> CellLockView {
    match answer {
        Some(a) => lock_status(a, rat),
        None => unlocked(rat),
    }
}

/// The views of the reports in `reports`.
pub open spec fn status_views(reports: Seq<CellLockRatStatus>) -> Seq<CellLockView> {
    Seq::new(reports.len(), |i: int| reports[i]@)
}

/// Puts the reports for both technologies together. `nr_answer` and
/// `lte_answer` are the modem's answers to the two queries, `None` where a query
/// failed.
pub fn cell_lock_status(nr_answer: Option<&str>, lte_answer: Option<&str>) -> (status:
    CellLockStatus)
    ensures
        status_views(status.rat_status@) == seq![
            answered_status(
                match nr_answer {
                    Some(a) => Some(a@),
                    None => None,
                },
                16,
            ),
            answered_status(
                match lte_answer {
                    Some(a) => Some(a@),
                    None => None,
                },
                12,
            ),
        ],
        status.any_locked == (status.rat_status[0].enabled || status.rat_status[1].enabled),
{
    let nr = match nr_answer {
        Some(a) => parse_spforcefrq_query_response(a, FORCEFRQ_TYPE_NR),
        None => unlocked_status(FORCEFRQ_TYPE_NR),
    };
    let lte = match lte_answer {
        Some(a) => parse_spforcefrq_query_response(a, FORCEFRQ_TYPE_LTE),
        None => unlocked_status(FORCEFRQ_TYPE_LTE),
    };
    let any_locked: bool = nr.enabled || lte.enabled;
    let mut rat_status: Vec<CellLockRatStatus> = Vec::new();
    rat_status.push(nr);
    rat_status.push(lte);
    assert(status_views(rat_status@) =~= seq![nr@, lte@]);
    CellLockStatus { rat_status, any_locked }
}

} // verus!
