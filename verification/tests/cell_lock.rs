use udx710_backend::cell_lock::{
    cell_lock_status, clear_command, forcefrq_type, get_rat_name, lock_command, lock_plan,
    parse_spforcefrq_query_response, plan_cell_lock, query_command, restore_command,
    unlock_all_plan, unlock_plan, unlocked_status, CellLockRatStatus, PlanStep,
    FORCEFRQ_TYPE_LTE, FORCEFRQ_TYPE_NR,
};
use udx710_backend::usb::{get_mode_name, is_valid_usb_mode};

fn unlocked(rat: u8, name: &str) -> CellLockRatStatus {
    CellLockRatStatus {
        rat,
        rat_name: name.to_string(),
        enabled: false,
        lock_type: 0,
        pci: None,
        arfcn: None,
    }
}

#[test]
fn rat_names() {
    assert_eq!(get_rat_name(12), "LTE");
    assert_eq!(get_rat_name(16), "NR");
    assert_eq!(get_rat_name(0), "Unknown(0)");
    assert_eq!(get_rat_name(7), "Unknown(7)");
    assert_eq!(get_rat_name(100), "Unknown(100)");
    assert_eq!(get_rat_name(255), "Unknown(255)");
}

#[test]
fn usb_mode_names() {
    assert_eq!(get_mode_name(Some(1)), "CDC-NCM");
    assert_eq!(get_mode_name(Some(2)), "CDC-ECM");
    assert_eq!(get_mode_name(Some(3)), "RNDIS");
    assert_eq!(get_mode_name(Some(0)), "Unknown");
    assert_eq!(get_mode_name(Some(4)), "Unknown");
    assert_eq!(get_mode_name(None), "Unknown");
}

#[test]
fn usb_modes_one_to_three_are_valid() {
    assert!(!is_valid_usb_mode(0));
    assert!(is_valid_usb_mode(1) && is_valid_usb_mode(2) && is_valid_usb_mode(3));
    assert!(!is_valid_usb_mode(4) && !is_valid_usb_mode(255));
}

#[test]
fn request_numbers_map_to_a_technology() {
    assert_eq!(forcefrq_type(12), FORCEFRQ_TYPE_LTE);
    assert_eq!(forcefrq_type(16), FORCEFRQ_TYPE_NR);
    assert_eq!(forcefrq_type(1), 12);
    assert_eq!(forcefrq_type(2), 12);
    for rat in [0u8, 3, 4, 5, 6, 7, 8, 13, 255] {
        assert_eq!(forcefrq_type(rat), 16);
    }
}

#[test]
fn commands() {
    assert_eq!(query_command(16), "AT+SPFORCEFRQ=16,3");
    assert_eq!(query_command(12), "AT+SPFORCEFRQ=12,3");
    assert_eq!(clear_command(16), "AT+SPFORCEFRQ=16,0");
    assert_eq!(clear_command(12), "AT+SPFORCEFRQ=12,0");
    assert_eq!(lock_command(16, 633984, 597), "AT+SPFORCEFRQ=16,2,633984,597");
    assert_eq!(lock_command(12, 0, 0), "AT+SPFORCEFRQ=12,2,0,0");
    assert_eq!(lock_command(12, u32::MAX, u16::MAX), "AT+SPFORCEFRQ=12,2,4294967295,65535");
}

#[test]
fn unlocked_report() {
    assert_eq!(unlocked_status(16), unlocked(16, "NR"));
    assert_eq!(unlocked_status(12), unlocked(12, "LTE"));
    assert_eq!(unlocked_status(3), unlocked(3, "Unknown(3)"));
}

#[test]
fn answer_without_lock() {
    assert_eq!(parse_spforcefrq_query_response("+SPFORCEFRQ: 16,3", 16), unlocked(16, "NR"));
    assert_eq!(
        parse_spforcefrq_query_response("\r\n+SPFORCEFRQ: 16,3\r\n\r\nOK\r\n", 16),
        unlocked(16, "NR")
    );
    assert_eq!(parse_spforcefrq_query_response("+SPFORCEFRQ: 12,3,,,", 12), unlocked(12, "LTE"));
}

#[test]
fn answer_with_lock() {
    assert_eq!(
        parse_spforcefrq_query_response("+SPFORCEFRQ: 16,3,633984,597", 16),
        CellLockRatStatus {
            rat: 16,
            rat_name: "NR".to_string(),
            enabled: true,
            lock_type: 3,
            pci: Some(597),
            arfcn: Some(633984),
        }
    );
    assert_eq!(
        parse_spforcefrq_query_response("AT+SPFORCEFRQ=12,3\r\n+SPFORCEFRQ: 12,3, 1850 ,\t42\r\nOK", 12),
        CellLockRatStatus {
            rat: 12,
            rat_name: "LTE".to_string(),
            enabled: true,
            lock_type: 3,
            pci: Some(42),
            arfcn: Some(1850),
        }
    );
}

#[test]
fn answer_for_another_technology_or_none() {
    assert_eq!(
        parse_spforcefrq_query_response("+SPFORCEFRQ: 12,3,1850,42", 16),
        unlocked(16, "NR")
    );
    assert_eq!(parse_spforcefrq_query_response("", 16), unlocked(16, "NR"));
    assert_eq!(parse_spforcefrq_query_response("ERROR", 12), unlocked(12, "LTE"));
    assert_eq!(
        parse_spforcefrq_query_response(" +SPFORCEFRQ: 16,3,633984,597", 16),
        unlocked(16, "NR")
    );
    assert_eq!(parse_spforcefrq_query_response("+SPFORCEFRQ: 5,3,1,2", 5).rat_name, "Unknown(5)");
    assert!(parse_spforcefrq_query_response("+SPFORCEFRQ: 5,3,1,2", 5).enabled);
}

#[test]
fn first_matching_line_counts() {
    let response = "+SPFORCEFRQ: 16,3\n+SPFORCEFRQ: 16,3,633984,597\n";
    assert_eq!(parse_spforcefrq_query_response(response, 16), unlocked(16, "NR"));
    let response = "+SPFORCEFRQ: 12,3,1,2\n+SPFORCEFRQ: 16,3,633984,597\n+SPFORCEFRQ: 16,3,1,1";
    let status = parse_spforcefrq_query_response(response, 16);
    assert_eq!((status.arfcn, status.pci), (Some(633984), Some(597)));
}

#[test]
fn lock_with_unreadable_numbers_is_not_enabled() {
    let only_arfcn = parse_spforcefrq_query_response("+SPFORCEFRQ: 16,3,633984", 16);
    assert_eq!(
        only_arfcn,
        CellLockRatStatus {
            rat: 16,
            rat_name: "NR".to_string(),
            enabled: false,
            lock_type: 3,
            pci: None,
            arfcn: Some(633984),
        }
    );
    let bad_pci = parse_spforcefrq_query_response("+SPFORCEFRQ: 16,3,633984,70000", 16);
    assert_eq!((bad_pci.enabled, bad_pci.arfcn, bad_pci.pci), (false, Some(633984), None));
    let bad_arfcn = parse_spforcefrq_query_response("+SPFORCEFRQ: 16,3,x,597", 16);
    assert_eq!((bad_arfcn.enabled, bad_arfcn.arfcn, bad_arfcn.pci), (false, None, Some(597)));
    assert_eq!(bad_arfcn.lock_type, 3);
    let empty_arfcn = parse_spforcefrq_query_response("+SPFORCEFRQ: 16,3,633984,,597", 16);
    assert_eq!((empty_arfcn.enabled, empty_arfcn.arfcn, empty_arfcn.pci), (false, Some(633984), None));
    let carriage = parse_spforcefrq_query_response("+SPFORCEFRQ: 16,3,633984,597\r", 16);
    assert_eq!((carriage.enabled, carriage.pci), (true, Some(597)));
    let longer = parse_spforcefrq_query_response("+SPFORCEFRQ: 16,35,7", 16);
    assert_eq!((longer.enabled, longer.arfcn, longer.pci, longer.lock_type), (true, Some(5), Some(7), 3));
}

fn commands_of(plan: &[PlanStep]) -> Vec<&str> {
    plan.iter().map(|s| s.command.as_str()).collect()
}

#[test]
fn lock_plan_order() {
    let plan = lock_plan(16, 633984, 597);
    assert_eq!(
        commands_of(&plan),
        ["AT+SFUN=5", "AT+SPFORCEFRQ=16,0", "AT+SPFORCEFRQ=12,0", "AT+SPFORCEFRQ=16,2,633984,597", "AT+SFUN=4"]
    );
    assert_eq!(
        plan.iter().map(|s| s.restore_on_failure).collect::<Vec<_>>(),
        [true, true, true, true, false]
    );
    assert_eq!(
        plan.iter().map(|s| s.failure.as_str()).collect::<Vec<_>>(),
        ["进入工程模式失败: ", "清空 NR 锁定失败: ", "清空 LTE 锁定失败: ", "设置锁定失败: ", "恢复正常模式失败: "]
    );
    assert_eq!(plan[0].description, "进入工程模式");
    assert_eq!(commands_of(&lock_plan(12, 1850, 42))[3], "AT+SPFORCEFRQ=12,2,1850,42");
}

#[test]
fn unlock_plan_order() {
    let plan = unlock_plan(12);
    assert_eq!(commands_of(&plan), ["AT+SFUN=5", "AT+SPFORCEFRQ=12,0", "AT+SFUN=4"]);
    assert_eq!(
        plan.iter().map(|s| s.restore_on_failure).collect::<Vec<_>>(),
        [false, true, false]
    );
    assert_eq!(
        plan.iter().map(|s| s.failure.as_str()).collect::<Vec<_>>(),
        ["进入工程模式失败: ", "清空锁定失败: ", "恢复正常模式失败: "]
    );
}

#[test]
fn unlock_all_plan_order() {
    let plan = unlock_all_plan();
    assert_eq!(
        commands_of(&plan),
        ["AT+SFUN=5", "AT+SPFORCEFRQ=16,0", "AT+SPFORCEFRQ=12,0", "AT+SFUN=4"]
    );
    assert_eq!(
        plan.iter().map(|s| s.restore_on_failure).collect::<Vec<_>>(),
        [true, true, true, false]
    );
    assert_eq!(
        plan.iter().map(|s| s.description.as_str()).collect::<Vec<_>>(),
        ["进入工程模式", "清空 NR 锁定", "清空 LTE 锁定", "恢复正常模式"]
    );
    assert_eq!(plan[1].failure, "解锁失败: 清空 NR 锁定: ");
    assert_eq!(restore_command(), "AT+SFUN=4");
}

#[test]
fn request_to_lock_needs_frequency_and_cell() {
    assert_eq!(plan_cell_lock(16, true, Some(633984), Some(597)), Some(lock_plan(16, 633984, 597)));
    assert_eq!(plan_cell_lock(1, true, Some(1850), Some(42)), Some(lock_plan(12, 1850, 42)));
    assert_eq!(plan_cell_lock(7, true, Some(1), Some(2)), Some(lock_plan(16, 1, 2)));
    assert_eq!(plan_cell_lock(16, true, None, Some(597)), None);
    assert_eq!(plan_cell_lock(16, true, Some(633984), None), None);
    assert_eq!(plan_cell_lock(16, true, None, None), None);
}

#[test]
fn request_to_unlock_needs_nothing_more() {
    assert_eq!(plan_cell_lock(12, false, None, None), Some(unlock_plan(12)));
    assert_eq!(plan_cell_lock(2, false, Some(1), None), Some(unlock_plan(12)));
    assert_eq!(plan_cell_lock(0, false, Some(1), Some(2)), Some(unlock_plan(16)));
}

#[test]
fn status_of_both_technologies() {
    let both = cell_lock_status(Some("+SPFORCEFRQ: 16,3,633984,597"), Some("+SPFORCEFRQ: 12,3"));
    assert_eq!(both.rat_status.len(), 2);
    assert_eq!(both.rat_status[0].rat, 16);
    assert!(both.rat_status[0].enabled);
    assert_eq!(both.rat_status[1], unlocked(12, "LTE"));
    assert!(both.any_locked);
    let lte = cell_lock_status(None, Some("+SPFORCEFRQ: 12,3,1850,42"));
    assert_eq!(lte.rat_status[0], unlocked(16, "NR"));
    assert_eq!(lte.rat_status[1].arfcn, Some(1850));
    assert!(lte.any_locked);
    let none = cell_lock_status(None, None);
    assert_eq!(none.rat_status, vec![unlocked(16, "NR"), unlocked(12, "LTE")]);
    assert!(!none.any_locked);
    let answer_for_other = cell_lock_status(Some("+SPFORCEFRQ: 12,3,1850,42"), Some("ERROR"));
    assert!(!answer_for_other.any_locked);
}
