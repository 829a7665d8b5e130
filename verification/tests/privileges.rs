use mousekeys::privileges::{
    denial, detail_message, error_message, kernel_logger_arguments, kernel_message, kmsg_line,
    logger_arguments, solution_message, stderr_lines, stdout_lines, syslog_arguments,
    PrivilegeCheck,
};

fn check(outcomes: [bool; 4]) -> PrivilegeCheck {
    let mut check = PrivilegeCheck::first();
    for ok in outcomes {
        check = check.next(ok);
    }
    check
}

#[test]
fn privileges_need_every_attempt_to_work() {
    assert_eq!(check([true; 4]), PrivilegeCheck::Granted);
    for i in 0..4 {
        let mut outcomes = [true; 4];
        outcomes[i] = false;
        assert_eq!(check(outcomes), PrivilegeCheck::Denied);
    }
    assert_eq!(PrivilegeCheck::first().next(true), PrivilegeCheck::FindDevice);
    assert_eq!(PrivilegeCheck::FindDevice.next(true), PrivilegeCheck::OpenDevice);
    assert_eq!(PrivilegeCheck::OpenDevice.next(true), PrivilegeCheck::GrabDevice);
    assert_eq!(PrivilegeCheck::Granted.next(false), PrivilegeCheck::Granted);
    assert_eq!(PrivilegeCheck::Denied.next(true), PrivilegeCheck::Denied);
}

#[test]
fn what_is_said_without_privileges() {
    assert_eq!(
        error_message(),
        "ERROR: This program requires root privileges to access keyboard devices and create virtual input devices."
    );
    assert_eq!(solution_message(), "Please run with: sudo ./mousekeys");
    assert_eq!(
        detail_message(),
        "Unable to access /dev/input devices or grab keyboard devices."
    );
    assert_eq!(stderr_lines(), vec![error_message(), solution_message(), detail_message()]);
    assert_eq!(stdout_lines(), vec![error_message(), solution_message()]);
    assert_eq!(
        denial(),
        "Insufficient privileges: Unable to access /dev/input devices or grab keyboard devices."
    );
}

#[test]
fn what_is_logged() {
    assert_eq!(kernel_message("no", "do"), "mousekeys: no do");
    assert_eq!(kmsg_line("oops"), "<3>mousekeys: oops");
    assert_eq!(logger_arguments("p", "m"), vec!["-t", "mousekeys", "-p", "p", "m"]);
    assert_eq!(
        kernel_logger_arguments("m"),
        vec!["-t", "mousekeys", "-p", "daemon.err", "m"]
    );
    let (first, second) = syslog_arguments("e", "s");
    assert_eq!(first, vec!["-t", "mousekeys", "-p", "daemon.err", "e"]);
    assert_eq!(second, vec!["-t", "mousekeys", "-p", "daemon.info", "s"]);
}
