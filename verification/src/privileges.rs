//! Finding out whether the daemon may use the input devices, and what it says
//! and logs if it may not.

use vstd::prelude::*;
use vstd::string::*;
use crate::config::texts;

verus! {

/// The next thing to try in order to find out what the daemon may do.
#[derive(Debug, Clone, Copy, PartialEq, Eq, Structural)]
pub enum PrivilegeCheck {
    /// Read the directory of the input devices.
    ListDevices,
    /// Find a device in it that delivers events.
    FindDevice,
    OpenDevice,
    GrabDevice,
    Granted,
    Denied,
}

impl PrivilegeCheck {
    /// What follows on this, which worked or did not. Every one of the things
    /// has to work.
    pub open spec fn after(self, worked: bool) -> PrivilegeCheck {
        match self {
            PrivilegeCheck::Granted => PrivilegeCheck::Granted,
            PrivilegeCheck::Denied => PrivilegeCheck::Denied,
            _ => if !worked {
                PrivilegeCheck::Denied
            } else if self is ListDevices {
                PrivilegeCheck::FindDevice
            } else if self is FindDevice {
                PrivilegeCheck::OpenDevice
            } else if self is OpenDevice {
                PrivilegeCheck::GrabDevice
            } else {
                PrivilegeCheck::Granted
            },
        }
    }

    pub fn first() -> (check: PrivilegeCheck)
        ensures
            check == PrivilegeCheck::ListDevices,
    {
        PrivilegeCheck::ListDevices
    }

    pub fn next(self, worked: bool) -> (check: PrivilegeCheck)
        ensures
            check == self.after(worked),
    {
        match self {
            PrivilegeCheck::Granted => PrivilegeCheck::Granted,
            PrivilegeCheck::Denied => PrivilegeCheck::Denied,
            PrivilegeCheck::ListDevices => if worked {
                PrivilegeCheck::FindDevice
            } else {
                PrivilegeCheck::Denied
            },
            PrivilegeCheck::FindDevice => if worked {
                PrivilegeCheck::OpenDevice
            } else {
                PrivilegeCheck::Denied
            },
            PrivilegeCheck::OpenDevice => if worked {
                PrivilegeCheck::GrabDevice
            } else {
                PrivilegeCheck::Denied
            },
            PrivilegeCheck::GrabDevice => if worked {
                PrivilegeCheck::Granted
            } else {
                PrivilegeCheck::Denied
            },
        }
    }
}

/// What is wrong, in the words for the user.
pub open spec fn error_text() -> Seq<char> {
    "ERROR: This program requires root privileges to access keyboard devices and create virtual input devices."@
}

/// What the user can do about it.
pub open spec fn solution_text() -> Seq<char> {
    "Please run with: sudo ./mousekeys"@
}

/// What was tried.
pub open spec fn detail_text() -> Seq<char> {
    "Unable to access /dev/input devices or grab keyboard devices."@
}

pub fn error_message() -> (message: &'static str)
    ensures
        message@ == error_text(),
{
    "ERROR: This program requires root privileges to access keyboard devices and create virtual input devices."
}

pub fn solution_message() -> (message: &'static str)
    ensures
        message@ == solution_text(),
{
    "Please run with: sudo ./mousekeys"
}

pub fn detail_message() -> (message: &'static str)
    ensures
        message@ == detail_text(),
{
    "Unable to access /dev/input devices or grab keyboard devices."
}

/// What goes to the standard error stream if the daemon may not use the
/// devices, line by line.
pub fn stderr_lines() -> (lines: Vec<&'static str>)
    ensures
        lines@.map_values(|line: &'static str| line@) == seq![
            error_text(),
            solution_text(),
            detail_text(),
        ],
{
    let lines = vec![error_message(), solution_message(), detail_message()];
    assert(lines@.map_values(|line: &'static str| line@) =~= seq![
        error_text(),
        solution_text(),
        detail_text(),
    ]);
    lines
}

/// What goes to the standard output stream then, line by line.
pub fn stdout_lines() -> (lines: Vec<&'static str>)
    ensures
        lines@.map_values(|line: &'static str| line@) == seq![error_text(), solution_text()],
{
    let lines = vec![error_message(), solution_message()];
    assert(lines@.map_values(|line: &'static str| line@) =~= seq![error_text(), solution_text()]);
    lines
}

/// What the daemon gives up with then.
pub fn denial() -> (message: String)
    ensures
        message@ == "Insufficient privileges: "@ + detail_text(),
{
    let mut message = String::new();
    message.append("Insufficient privileges: ");
    message.append(detail_message());
    assert(message@ =~= "Insufficient privileges: "@ + detail_text());
    message
}

/// The one line in which the error and its solution go to the kernel log.
pub fn kernel_message(error: &str, solution: &str) -> (message: String)
    ensures
        message@ == "mousekeys: "@ + error@ + " "@ + solution@,
{
    let mut message = String::new();
    message.append("mousekeys: ");
    message.append(error);
    message.append(" ");
    message.append(solution);
    assert(message@ =~= "mousekeys: "@ + error@ + " "@ + solution@);
    message
}

/// `message` in the form that the kernel log takes, marked as an error.
pub fn kmsg_line(message: &str) -> (line: String)
    ensures
        line@ == "<3>mousekeys: "@ + message@,
{
    let mut line = String::new();
    line.append("<3>mousekeys: ");
    line.append(message);
    assert(line@ =~= "<3>mousekeys: "@ + message@);
    line
}

/// The arguments with which the `logger` program logs `message`.
pub open spec fn logger_call(priority: Seq<char>, message: Seq<char>) -> Seq<Seq<char>> {
    seq!["-t"@, "mousekeys"@, "-p"@, priority, message]
}

pub fn logger_arguments(priority: &str, message: &str) -> (arguments: Vec<String>)
    ensures
        texts(arguments@) == logger_call(priority@, message@),
{
    let arguments = vec![
        "-t".to_owned(),
        "mousekeys".to_owned(),
        "-p".to_owned(),
        priority.to_owned(),
        message.to_owned(),
    ];
    assert(texts(arguments@) =~= logger_call(priority@, message@));
    arguments
}

/// The arguments for the `logger` program with which `message` goes to the
/// kernel log.
pub fn kernel_logger_arguments(message: &str) -> (arguments: Vec<String>)
    ensures
        texts(arguments@) == logger_call("daemon.err"@, message@),
{
    logger_arguments("daemon.err", message)
}

/// The arguments for the two calls of the `logger` program with which the
/// error and its solution go to the system log.
pub fn syslog_arguments(error: &str, solution: &str) -> (calls: (Vec<String>, Vec<String>))
    ensures
        texts(calls.0@) == logger_call("daemon.err"@, error@),
        texts(calls.1@) == logger_call("daemon.info"@, solution@),
{
    (logger_arguments("daemon.err", error), logger_arguments("daemon.info", solution))
}

/// Where the check stands once `done` things were tried, if each of them works
/// or not as `works` says.
pub open spec fn check_after(works: spec_fn(PrivilegeCheck) -> bool, done: nat) -> PrivilegeCheck
    decreases done,
{
    if done == 0 {
        PrivilegeCheck::ListDevices
    } else {
        let check = check_after(works, (done - 1) as nat);
        check.after(works(check))
    }
}

/// The daemon may use the devices exactly if there is one that it can find,
/// open and grab; four attempts settle it.
pub proof fn law_privileges_need_everything(works: spec_fn(PrivilegeCheck) -> bool)
    ensures
        check_after(works, 4) == if works(PrivilegeCheck::ListDevices) && works(
            PrivilegeCheck::FindDevice,
        ) && works(PrivilegeCheck::OpenDevice) && works(PrivilegeCheck::GrabDevice) {
            PrivilegeCheck::Granted
        } else {
            PrivilegeCheck::Denied
        },
{
    reveal_with_fuel(check_after, 5);
}

/// The attempts come in this order, each only if those before it worked: list
/// the devices, find one, open it, grab it.
pub proof fn law_attempts_in_turn(works: spec_fn(PrivilegeCheck) -> bool, done: nat)
    requires
        done <= 4,
    ensures
        check_after(works, done) is ListDevices <==> done == 0,
        check_after(works, done) is FindDevice <==> done == 1 && works(PrivilegeCheck::ListDevices),
        check_after(works, done) is OpenDevice <==> done == 2 && works(PrivilegeCheck::ListDevices)
            && works(PrivilegeCheck::FindDevice),
        check_after(works, done) is GrabDevice <==> done == 3 && works(PrivilegeCheck::ListDevices)
            && works(PrivilegeCheck::FindDevice) && works(PrivilegeCheck::OpenDevice),
        check_after(works, done) is Granted <==> done == 4 && works(PrivilegeCheck::ListDevices)
            && works(PrivilegeCheck::FindDevice) && works(PrivilegeCheck::OpenDevice) && works(
            PrivilegeCheck::GrabDevice,
        ),
        PrivilegeCheck::Granted.after(true) is Granted && PrivilegeCheck::Granted.after(
            false,
        ) is Granted,
        PrivilegeCheck::Denied.after(true) is Denied && PrivilegeCheck::Denied.after(false) is Denied,
{
    reveal_with_fuel(check_after, 5);
}

/// The `logger` program is given the tag, the priority and the message, in
/// full and in this order.
pub proof fn law_logger_is_told_everything(priority: Seq<char>, message: Seq<char>)
    ensures
        logger_call(priority, message).len() == 5,
        logger_call(priority, message)[0] == "-t"@,
        logger_call(priority, message)[1] == "mousekeys"@,
        logger_call(priority, message)[2] == "-p"@,
        logger_call(priority, message)[3] == priority,
        logger_call(priority, message)[4] == message,
{
}

/// A failure at any attempt means that the daemon may not use the devices, and
/// success leads to the next attempt.
pub proof fn law_failure_means_denial(check: PrivilegeCheck)
    requires
        !(check is Granted),
    ensures
        check.after(false) is Denied,
        PrivilegeCheck::ListDevices.after(true) is FindDevice,
        PrivilegeCheck::FindDevice.after(true) is OpenDevice,
        PrivilegeCheck::OpenDevice.after(true) is GrabDevice,
        PrivilegeCheck::GrabDevice.after(true) is Granted,
{
}

} // verus!
