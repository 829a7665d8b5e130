//! What the daemon does with the events of the keyboard that it has grabbed,
//! and how it moves from one keyboard, and from one session, to the next.

use vstd::prelude::*;
use vstd::string::*;
use crate::buttons::{
    does_as_asked, enabled_under, handle_key_press, press_effect, selected, MouseKeyState, PressAction, PressEffect,
};
use crate::config::Config;
use crate::events::{InputEvent, EV_KEY, PRESSED, RELEASED};
use crate::keys::{
    is_mouse_key, moves_mouse, steers_mouse, works_button, KEY_LEFTCTRL, KEY_LEFTSHIFT, KEY_NUMLOCK,
    KEY_RIGHTCTRL, KEY_RIGHTSHIFT,
};
use crate::motion::{
    law_motion_stays_consistent, ModifierChange, ModifierKey, Modifiers, Motion, MouseMoveState,
};

verus! {

/// What an event means to the daemon.
#[derive(Debug, Clone, Copy, PartialEq, Eq, Structural)]
pub enum EventClass {
    /// A modifier goes down or up.
    Modifier(ModifierChange),
    /// A key that steers the mouse, at a time when it does.
    MouseKey,
    /// NumLock goes down.
    NumLock,
    /// Nothing in particular.
    Other,
}

/// The modifier that the key `code` is.
pub open spec fn modifier_of(code: u16) -> Option<ModifierKey> {
    if code == KEY_LEFTSHIFT {
        Some(ModifierKey::LeftShift)
    } else if code == KEY_RIGHTSHIFT {
        Some(ModifierKey::RightShift)
    } else if code == KEY_LEFTCTRL {
        Some(ModifierKey::LeftCtrl)
    } else if code == KEY_RIGHTCTRL {
        Some(ModifierKey::RightCtrl)
    } else {
        None
    }
}

/// What `event` means while the numpad steers the mouse, or does not.
pub open spec fn class_of(event: InputEvent, mousekeys_enabled: bool) -> EventClass {
    let goes = event.value == PRESSED || event.value == RELEASED;
    if event.event_type != EV_KEY {
        EventClass::Other
    } else if modifier_of(event.code) is Some && goes {
        EventClass::Modifier(
            ModifierChange { key: modifier_of(event.code)->0, down: event.value == PRESSED },
        )
    } else if steers_mouse(event.code) && mousekeys_enabled {
        EventClass::MouseKey
    } else if event.code == KEY_NUMLOCK && event.value == PRESSED {
        EventClass::NumLock
    } else {
        EventClass::Other
    }
}

/// The modifier that the key `code` is.
pub fn modifier_key(code: u16) -> (key: Option<ModifierKey>)
    ensures
        key == modifier_of(code),
{
    if code == KEY_LEFTSHIFT {
        Some(ModifierKey::LeftShift)
    } else if code == KEY_RIGHTSHIFT {
        Some(ModifierKey::RightShift)
    } else if code == KEY_LEFTCTRL {
        Some(ModifierKey::LeftCtrl)
    } else if code == KEY_RIGHTCTRL {
        Some(ModifierKey::RightCtrl)
    } else {
        None
    }
}

pub fn classify_event(event: &InputEvent, mousekeys_enabled: bool) -> (class: EventClass)
    ensures
        class == class_of(*event, mousekeys_enabled),
{
    if event.event_type != EV_KEY {
        return EventClass::Other;
    }
    let code: u16 = event.code;
    let value: i32 = event.value;
    if value == PRESSED || value == RELEASED {
        if let Some(key) = modifier_key(code) {
            return EventClass::Modifier(ModifierChange { key, down: value == PRESSED });
        }
    }
    if is_mouse_key(code) && mousekeys_enabled {
        return EventClass::MouseKey;
    }
    if code == KEY_NUMLOCK && value == PRESSED {
        return EventClass::NumLock;
    }
    EventClass::Other
}

/// The next thing to do about an event. What is shared with the movement of
/// the mouse may be in use at that moment; a step that needs it then fails.
#[derive(Debug, Clone, Copy, PartialEq, Eq, Structural)]
pub enum EventStep {
    /// Take over the change of a modifier.
    SetModifier(ModifierChange),
    /// Pass the modifiers on to the movement, and bring the mouse to a halt.
    SyncModifiers,
    /// Steer the mouse.
    SteerMouse,
    /// Hand the event on to the virtual keyboard.
    Forward,
    Finished,
}

impl EventStep {
    /// What an event of this class begins with.
    pub open spec fn begin(class: EventClass) -> EventStep {
        match class {
            EventClass::Modifier(change) => EventStep::SetModifier(change),
            EventClass::MouseKey => EventStep::SteerMouse,
            EventClass::NumLock => EventStep::Forward,
            EventClass::Other => EventStep::Forward,
        }
    }

    /// What follows on this step, which succeeded or did not.
    pub open spec fn after(self, succeeded: bool) -> EventStep {
        match self {
            EventStep::SetModifier(_) => if succeeded {
                EventStep::SyncModifiers
            } else {
                EventStep::Forward
            },
            EventStep::SyncModifiers => EventStep::Forward,
            EventStep::SteerMouse => EventStep::Finished,
            EventStep::Forward => EventStep::Finished,
            EventStep::Finished => EventStep::Finished,
        }
    }

    pub fn first(class: EventClass) -> (step: EventStep)
        ensures
            step == EventStep::begin(class),
    {
        match class {
            EventClass::Modifier(change) => EventStep::SetModifier(change),
            EventClass::MouseKey => EventStep::SteerMouse,
            EventClass::NumLock => EventStep::Forward,
            EventClass::Other => EventStep::Forward,
        }
    }

    pub fn next(self, succeeded: bool) -> (step: EventStep)
        ensures
            step == self.after(succeeded),
    {
        match self {
            EventStep::SetModifier(_) => if succeeded {
                EventStep::SyncModifiers
            } else {
                EventStep::Forward
            },
            EventStep::SyncModifiers => EventStep::Forward,
            EventStep::SteerMouse => EventStep::Finished,
            EventStep::Forward => EventStep::Finished,
            EventStep::Finished => EventStep::Finished,
        }
    }
}

/// What has to be done about an event of a key that steers the mouse.
#[derive(Debug)]
pub struct MouseKeyOutcome {
    pub action: PressAction,
    /// Whether the mouse must start from a halt.
    pub halt: bool,
}

/// The movement keys after the key `code` sent `value`.
pub open spec fn motion_after(motion: Motion, modifiers: Modifiers, code: u16, value: i32) -> Motion {
    let motion = motion.with_modifiers(modifiers);
    if value == PRESSED {
        motion.after_press(code)
    } else if value == RELEASED {
        motion.after_release(code)
    } else {
        motion
    }
}

/// Handles the event that the key `code` sent `value`, for a key that steers
/// the mouse. Keys act when they go down. Going up only ends a movement, and
/// repeats do nothing.
pub fn handle_mouse_key(
    state: &mut MouseKeyState,
    motion: &mut MouseMoveState,
    modifiers: Modifiers,
    code: u16,
    value: i32,
    config: &Config,
) -> (outcome: MouseKeyOutcome)
    ensures
        final(motion)@ == motion_after(old(motion)@, modifiers, code, value),
        old(motion)@.consistent() ==> final(motion)@.consistent(),
        *final(state) == (MouseKeyState {
            active_button: if value == PRESSED {
                selected(old(state).active_button, code)
            } else {
                old(state).active_button
            },
            ..*old(state)
        }),
        outcome.action@ == if value == PRESSED {
            press_effect(old(state).active_button, code, config@.double_click_delay)
        } else {
            PressEffect::Nothing
        },
        outcome.halt == (value == PRESSED && moves_mouse(code)),
        value == 1 ==> does_as_asked(
            outcome.action,
            old(state).active_button.code(),
            code,
            config.double_click_delay,
        ),
        value != 1 ==> outcome.action is Nothing && *final(state) == *old(state),
        final(motion)@.modifiers == modifiers,
        forall|other: u16|
            #![trigger final(motion)@.pressed.contains(other)]
            final(motion)@.pressed.contains(other) <==> if other != code {
                old(motion)@.pressed.contains(other)
            } else {
                (value == 1 && moves_mouse(code)) || (value != 0 && old(motion)@.pressed.contains(
                    code,
                ))
            },
{
    motion.set_modifiers(modifiers);
    if value == PRESSED {
        let action = handle_key_press(state, code, config);
        let halt: bool = motion.press(code);
        MouseKeyOutcome { action, halt }
    } else {
        if value == RELEASED {
            motion.release(code);
        }
        MouseKeyOutcome { action: PressAction::Nothing, halt: false }
    }
}

/// Takes over what the NumLock light showed at `now`, or that it could not be
/// read. If the numpad does not steer the mouse after that, every key is let
/// go of. Returns whether the mouse must come to a halt.
pub fn handle_numlock(
    state: &mut MouseKeyState,
    motion: &mut MouseMoveState,
    lit: Option<bool>,
    now: u128,
) -> (halt: bool)
    ensures
        halt == (lit is Some),
        *final(state) == (MouseKeyState {
            mousekeys_enabled: match lit {
                Some(on) => enabled_under(*old(state), on),
                None => old(state).mousekeys_enabled,
            },
            last_numlock_check: now,
            ..*old(state)
        }),
        final(motion)@ == old(motion)@.settled(final(state).mousekeys_enabled),
        final(state).mousekeys_enabled ==> final(motion)@ == old(motion)@,
        final(motion)@.modifiers == old(motion)@.modifiers,
        lit matches Some(on) ==> (final(state).mousekeys_enabled <==> on == old(
            state,
        ).mouse_enabled_when_numlock_on),
        !final(state).mousekeys_enabled ==> final(motion)@.pressed == Set::<u16>::empty()
            && !final(motion)@.active,
        old(motion)@.consistent() ==> final(motion)@.consistent(),
{
    let halt: bool = state.numlock_checked(lit, now);
    if !state.mousekeys_enabled {
        motion.clear();
    }
    halt
}

/// Lets go of every key of the keyboard that was in use, now that another is.
pub fn handle_keyboard_change(motion: &mut MouseMoveState, modifiers: &mut Modifiers)
    ensures
        final(motion)@ == Motion::at_rest(),
        *final(modifiers) == Modifiers::none(),
        final(motion)@.pressed == Set::<u16>::empty() && !final(motion)@.active,
        final(motion)@.modifiers == *final(modifiers),
        !final(modifiers).left_shift && !final(modifiers).right_shift,
        !final(modifiers).left_ctrl && !final(modifiers).right_ctrl,
{
    modifiers.clear();
    motion.clear();
    motion.set_modifiers(*modifiers);
    assert(motion@ =~= Motion::at_rest());
}

/// The next thing to do when the daemon changes from one keyboard to another.
#[derive(Debug, Clone, Copy, PartialEq, Eq, Structural)]
pub enum SwitchStep {
    UngrabOld,
    OpenNew,
    UnblockNew,
    GrabNew,
    OpenOld,
    UnblockOld,
    GrabOld,
    Done(SwitchResult),
}

/// How a change of keyboards came out.
#[derive(Debug, Clone, Copy, PartialEq, Eq, Structural)]
pub enum SwitchResult {
    /// The new keyboard is grabbed.
    Switched,
    /// The new keyboard could not be opened.
    NotOpened,
    /// The new keyboard could not be made non-blocking.
    NotUnblocked,
    /// The new keyboard could not be grabbed, the old one was grabbed again.
    Reverted,
    /// The new keyboard could not be grabbed, nor could the old one.
    NotReverted,
}

impl SwitchStep {
    /// What to do after this step, which succeeded or did not.
    pub open spec fn after(self, succeeded: bool) -> SwitchStep {
        match self {
            SwitchStep::UngrabOld => SwitchStep::OpenNew,
            SwitchStep::OpenNew => if succeeded {
                SwitchStep::UnblockNew
            } else {
                SwitchStep::Done(SwitchResult::NotOpened)
            },
            SwitchStep::UnblockNew => if succeeded {
                SwitchStep::GrabNew
            } else {
                SwitchStep::Done(SwitchResult::NotUnblocked)
            },
            SwitchStep::GrabNew => if succeeded {
                SwitchStep::Done(SwitchResult::Switched)
            } else {
                SwitchStep::OpenOld
            },
            SwitchStep::OpenOld => if succeeded {
                SwitchStep::UnblockOld
            } else {
                SwitchStep::Done(SwitchResult::NotReverted)
            },
            SwitchStep::UnblockOld => if succeeded {
                SwitchStep::GrabOld
            } else {
                SwitchStep::Done(SwitchResult::NotReverted)
            },
            SwitchStep::GrabOld => if succeeded {
                SwitchStep::Done(SwitchResult::Reverted)
            } else {
                SwitchStep::Done(SwitchResult::NotReverted)
            },
            SwitchStep::Done(result) => SwitchStep::Done(result),
        }
    }

    pub fn first() -> (step: SwitchStep)
        ensures
            step == SwitchStep::UngrabOld,
    {
        SwitchStep::UngrabOld
    }

    pub fn next(self, succeeded: bool) -> (step: SwitchStep)
        ensures
            step == self.after(succeeded),
    {
        match self {
            SwitchStep::UngrabOld => SwitchStep::OpenNew,
            SwitchStep::OpenNew => if succeeded {
                SwitchStep::UnblockNew
            } else {
                SwitchStep::Done(SwitchResult::NotOpened)
            },
            SwitchStep::UnblockNew => if succeeded {
                SwitchStep::GrabNew
            } else {
                SwitchStep::Done(SwitchResult::NotUnblocked)
            },
            SwitchStep::GrabNew => if succeeded {
                SwitchStep::Done(SwitchResult::Switched)
            } else {
                SwitchStep::OpenOld
            },
            SwitchStep::OpenOld => if succeeded {
                SwitchStep::UnblockOld
            } else {
                SwitchStep::Done(SwitchResult::NotReverted)
            },
            SwitchStep::UnblockOld => if succeeded {
                SwitchStep::GrabOld
            } else {
                SwitchStep::Done(SwitchResult::NotReverted)
            },
            SwitchStep::GrabOld => if succeeded {
                SwitchStep::Done(SwitchResult::Reverted)
            } else {
                SwitchStep::Done(SwitchResult::NotReverted)
            },
            SwitchStep::Done(result) => SwitchStep::Done(result),
        }
    }
}

/// What a change of keyboards entails.
#[derive(Debug, Clone, Copy, PartialEq, Eq, Structural)]
pub struct SwitchFollowUp {
    /// Whether the new keyboard is now the one in use.
    pub uses_new: bool,
    /// Whether every key is let go of, and the mouse is halted.
    pub clears_keys: bool,
    /// Whether the keyboard is read before anything else is done.
    pub reads: bool,
}

/// Only a change that came off puts the new keyboard in use, and only that
/// lets go of the keys. Where the new keyboard could not be made non-blocking
/// the turn is over; otherwise it goes on with reading.
pub open spec fn follow_up(result: SwitchResult) -> SwitchFollowUp {
    SwitchFollowUp {
        uses_new: result is Switched,
        clears_keys: result is Switched,
        reads: !(result is NotUnblocked),
    }
}

pub fn after_switch(result: SwitchResult) -> (next: SwitchFollowUp)
    ensures
        next == follow_up(result),
{
    let switched: bool = match result {
        SwitchResult::Switched => true,
        _ => false,
    };
    let reads: bool = match result {
        SwitchResult::NotUnblocked => false,
        _ => true,
    };
    SwitchFollowUp { uses_new: switched, clears_keys: switched, reads }
}

/// Whether NumLock went down among the events of a batch so far: before, or
/// with the event of this class.
pub fn numlock_noticed(before: bool, class: EventClass) -> (noticed: bool)
    ensures
        noticed == (before || class is NumLock),
{
    match class {
        EventClass::NumLock => true,
        _ => before,
    }
}

/// Whether NumLock went down among events of these classes, as it is noticed
/// from event to event.
pub open spec fn noticed_in(classes: Seq<EventClass>) -> bool
    decreases classes.len(),
{
    if classes.len() == 0 {
        false
    } else {
        noticed_in(classes.drop_last()) || classes.last() is NumLock
    }
}

/// NumLock is noticed wherever in a batch it goes down.
pub proof fn law_numlock_counts_anywhere(classes: Seq<EventClass>)
    ensures
        noticed_in(classes) <==> exists|i: int|
            0 <= i < classes.len() && #[trigger] classes[i] is NumLock,
    decreases classes.len(),
{
    if classes.len() > 0 {
        let front = classes.drop_last();
        law_numlock_counts_anywhere(front);
        if noticed_in(front) {
            let i = choose|i: int| 0 <= i < front.len() && #[trigger] front[i] is NumLock;
            assert(classes[i] is NumLock);
        }
        if classes.last() is NumLock {
            assert(classes[classes.len() - 1] is NumLock);
        }
        if exists|i: int| 0 <= i < classes.len() && #[trigger] classes[i] is NumLock {
            let i = choose|i: int| 0 <= i < classes.len() && #[trigger] classes[i] is NumLock;
            if i < front.len() {
                assert(front[i] is NumLock);
            }
        }
    }
}

/// How an attempt to read the keyboard came out.
#[derive(Debug, Clone, Copy, PartialEq, Eq, Structural)]
pub enum ReadOutcome {
    /// There were events.
    Batch,
    /// There is nothing to read yet.
    WouldBlock,
    /// The keyboard cannot be read.
    Failed,
}

/// How a session ended.
#[derive(Debug, Clone, Copy, PartialEq, Eq, Structural)]
pub enum SessionEnd {
    /// The daemon was told to stop.
    Stopped,
    /// The keyboard could not be read.
    ReadError,
    /// The keyboard is gone.
    Disconnected,
}

/// The next thing to do in a session.
#[derive(Debug, Clone, Copy, PartialEq, Eq, Structural)]
pub enum SessionStep {
    /// See whether the daemon was told to stop.
    CheckStop,
    /// See whether there is another keyboard to use, and change to it.
    CheckSwitch,
    /// Read the keyboard.
    Read,
    /// Wait for so many milliseconds.
    Wait(u64),
    /// Handle the events that were read, until the daemon is told to stop, and
    /// then NumLock.
    HandleBatch,
    /// See whether the keyboard is still there.
    CheckDevice,
    Ended(SessionEnd),
}

/// What a step of a session came to.
#[derive(Debug, Clone, Copy, PartialEq, Eq, Structural)]
pub struct StepReport {
    /// Whether the daemon was told to stop.
    pub stop: bool,
    /// How a change of keyboards came out, if there was one.
    pub switch: Option<SwitchResult>,
    /// How reading came out.
    pub read: ReadOutcome,
    /// Whether the keyboard is there.
    pub device_present: bool,
}

impl SessionStep {
    /// What follows on this step. Of the report only the part that belongs to
    /// the step counts.
    pub open spec fn after(self, report: StepReport) -> SessionStep {
        match self {
            SessionStep::CheckStop => if report.stop {
                SessionStep::Ended(SessionEnd::Stopped)
            } else {
                SessionStep::CheckSwitch
            },
            SessionStep::CheckSwitch => match report.switch {
                Some(result) => if follow_up(result).reads {
                    SessionStep::Read
                } else {
                    SessionStep::CheckStop
                },
                None => SessionStep::Read,
            },
            SessionStep::Read => match report.read {
                ReadOutcome::Batch => SessionStep::HandleBatch,
                ReadOutcome::WouldBlock => SessionStep::Wait(5),
                ReadOutcome::Failed => SessionStep::Ended(SessionEnd::ReadError),
            },
            SessionStep::Wait(_) => SessionStep::CheckStop,
            SessionStep::HandleBatch => SessionStep::CheckDevice,
            SessionStep::CheckDevice => if report.device_present {
                SessionStep::CheckStop
            } else {
                SessionStep::Ended(SessionEnd::Disconnected)
            },
            SessionStep::Ended(end) => SessionStep::Ended(end),
        }
    }

    pub fn first() -> (step: SessionStep)
        ensures
            step == SessionStep::CheckStop,
    {
        SessionStep::CheckStop
    }

    pub fn next(self, report: StepReport) -> (step: SessionStep)
        ensures
            step == self.after(report),
    {
        match self {
            SessionStep::CheckStop => if report.stop {
                SessionStep::Ended(SessionEnd::Stopped)
            } else {
                SessionStep::CheckSwitch
            },
            SessionStep::CheckSwitch => match report.switch {
                Some(result) => if after_switch(result).reads {
                    SessionStep::Read
                } else {
                    SessionStep::CheckStop
                },
                None => SessionStep::Read,
            },
            SessionStep::Read => match report.read {
                ReadOutcome::Batch => SessionStep::HandleBatch,
                ReadOutcome::WouldBlock => SessionStep::Wait(5),
                ReadOutcome::Failed => SessionStep::Ended(SessionEnd::ReadError),
            },
            SessionStep::Wait(_) => SessionStep::CheckStop,
            SessionStep::HandleBatch => SessionStep::CheckDevice,
            SessionStep::CheckDevice => if report.device_present {
                SessionStep::CheckStop
            } else {
                SessionStep::Ended(SessionEnd::Disconnected)
            },
            SessionStep::Ended(end) => SessionStep::Ended(end),
        }
    }
}

impl SessionEnd {
    /// The error that the session ends with, where `path` is that of the
    /// keyboard and `cause` is what reading it failed with.
    pub open spec fn error(self, path: Seq<char>, cause: Seq<char>) -> Option<Seq<char>> {
        match self {
            SessionEnd::Stopped => None,
            SessionEnd::ReadError => Some("Keyboard read error: "@ + cause),
            SessionEnd::Disconnected => Some("Keyboard device disconnected: "@ + path),
        }
    }

    pub fn error_message(&self, path: &str, cause: &str) -> (message: Option<String>)
        ensures
            match message {
                Some(text) => self.error(path@, cause@) == Some(text@),
                None => self.error(path@, cause@) is None,
            },
    {
        let mut text = String::new();
        match self {
            SessionEnd::Stopped => {
                return None;
            },
            SessionEnd::ReadError => {
                text.append("Keyboard read error: ");
                text.append(cause);
                assert(text@ =~= "Keyboard read error: "@ + cause@);
            },
            SessionEnd::Disconnected => {
                text.append("Keyboard device disconnected: ");
                text.append(path);
                assert(text@ =~= "Keyboard device disconnected: "@ + path@);
            },
        }
        Some(text)
    }
}

/// Where a session stands once `done` steps were taken, if each of them comes
/// to what `reports` says of it.
pub open spec fn session_after(reports: spec_fn(nat) -> StepReport, done: nat) -> SessionStep
    decreases done,
{
    if done == 0 {
        SessionStep::CheckStop
    } else {
        session_after(reports, (done - 1) as nat).after(reports((done - 1) as nat))
    }
}

/// What makes a session end in this way when this step comes to this.
pub open spec fn ends_with(step: SessionStep, report: StepReport, end: SessionEnd) -> bool {
    match end {
        SessionEnd::Stopped => step is CheckStop && report.stop,
        SessionEnd::ReadError => step is Read && report.read is Failed,
        SessionEnd::Disconnected => step is CheckDevice && !report.device_present,
    }
}

/// A session that has ended, ended with a step that is a reason for it: it
/// ends without an error exactly if the daemon was told to stop, and with one
/// exactly if the keyboard could not be read or was gone.
pub proof fn law_sessions_end_for_a_reason(
    reports: spec_fn(nat) -> StepReport,
    done: nat,
    end: SessionEnd,
    path: Seq<char>,
    cause: Seq<char>,
)
    ensures
        session_after(reports, done) == SessionStep::Ended(end) <==> exists|n: nat|
            n < done && ends_with(#[trigger] session_after(reports, n), reports(n), end),
        end.error(path, cause) is None <==> end is Stopped,
    decreases done,
{
    if done > 0 {
        let last = (done - 1) as nat;
        law_sessions_end_for_a_reason(reports, last, end, path, cause);
        let step = session_after(reports, last);
        if session_after(reports, done) == SessionStep::Ended(end) {
            if step == SessionStep::Ended(end) {
                let n = choose|n: nat|
                    n < last && ends_with(#[trigger] session_after(reports, n), reports(n), end);
                assert(n < done && ends_with(session_after(reports, n), reports(n), end));
            } else {
                assert(ends_with(step, reports(last), end));
            }
        }
        if exists|n: nat|
            n < done && ends_with(#[trigger] session_after(reports, n), reports(n), end) {
            let n = choose|n: nat|
                n < done && ends_with(#[trigger] session_after(reports, n), reports(n), end);
            if n < last {
                assert(session_after(reports, last) == SessionStep::Ended(end));
            }
        }
    }
}

/// Nothing to read, a change of keyboards, and whatever is done about events
/// never end a session.
pub proof fn law_sessions_go_on(step: SessionStep, report: StepReport)
    requires
        step is CheckSwitch || step is Wait || step is HandleBatch || (step is Read
            && !(report.read is Failed)),
    ensures
        !(step.after(report) is Ended),
{
}

/// What to do when a session is over.
#[derive(Debug, Clone, Copy, PartialEq, Eq, Structural)]
pub enum NextRun {
    Stop,
    /// Start another session after so many seconds.
    RestartAfter(u64),
}

/// A session that ended normally is the last one. After one that failed
/// another is tried, when the delay that the settings ask for is over.
pub fn after_session(ended_normally: bool, config: &Config) -> (next: NextRun)
    ensures
        next == if ended_normally {
            NextRun::Stop
        } else {
            NextRun::RestartAfter(config@.reconnect_delay)
        },
{
    if ended_normally {
        NextRun::Stop
    } else {
        NextRun::RestartAfter(config.reconnect_delay)
    }
}

/// Of all events, exactly those of the keys that steer the mouse are held
/// back, and those only while the numpad does steer it.
pub proof fn law_what_is_held_back(event: InputEvent, mousekeys_enabled: bool)
    ensures
        class_of(event, mousekeys_enabled) is MouseKey <==> event.event_type == EV_KEY
            && steers_mouse(event.code) && mousekeys_enabled,
{
}

/// The steps that are taken for an event of this class, in order, if each of
/// them succeeds or not as `succeeds` says.
pub open spec fn steps_from(step: EventStep, succeeds: spec_fn(EventStep) -> bool) -> Seq<EventStep>
    decreases
            (match step {
                EventStep::SetModifier(_) => 3nat,
                EventStep::SyncModifiers => 2nat,
                EventStep::Finished => 0nat,
                _ => 1nat,
            }),
{
    if step is Finished {
        Seq::empty()
    } else {
        seq![step] + steps_from(step.after(succeeds(step)), succeeds)
    }
}

/// Whatever is in use at the moment, an event is handed on once, as the last
/// thing that is done about it, or else it steers the mouse and nothing more.
pub proof fn law_events_are_handed_on_once(
    class: EventClass,
    succeeds: spec_fn(EventStep) -> bool,
)
    ensures
        ({
            let steps = steps_from(EventStep::begin(class), succeeds);
            if class is MouseKey {
                steps == seq![EventStep::SteerMouse]
            } else {
                &&& steps.len() > 0
                &&& steps.last() == EventStep::Forward
                &&& forall|i: int|
                    0 <= i < steps.len() - 1 ==> #[trigger] steps[i] != EventStep::Forward
                        && steps[i] != EventStep::SteerMouse
            }
        }),
{
    reveal_with_fuel(steps_from, 5);
    let step = EventStep::begin(class);
    let steps = steps_from(step, succeeds);
    if class is MouseKey {
        assert(steps =~= seq![EventStep::SteerMouse]);
    } else if step is Forward {
        assert(steps =~= seq![EventStep::Forward]);
    } else if succeeds(step) {
        assert(steps =~= seq![step, EventStep::SyncModifiers, EventStep::Forward]);
    } else {
        assert(steps =~= seq![step, EventStep::Forward]);
    }
}

/// While the numpad does not steer the mouse, the keyboard works as any
/// other: every event goes on.
pub proof fn law_disabled_numpad_is_a_keyboard(event: InputEvent)
    ensures
        !(class_of(event, false) is MouseKey),
{
}

/// Modifiers and NumLock are noticed whether or not the numpad steers the
/// mouse.
pub proof fn law_modifiers_are_always_noticed(event: InputEvent, change: ModifierChange)
    ensures
        class_of(event, true) == EventClass::Modifier(change) <==> class_of(event, false)
            == EventClass::Modifier(change),
        class_of(event, true) is NumLock <==> class_of(event, false) is NumLock,
{
}

/// What happens in a session, as far as steering the mouse goes.
pub enum Happening {
    /// The keyboard delivers an event, and nothing that it needs is in use.
    Event(InputEvent),
    /// The NumLock light is looked at: it is lit, or not, or cannot be read.
    NumLockLook(Option<bool>),
    /// The keyboard is changed for another.
    KeyboardChange,
}

/// How things stand in a session, as far as steering the mouse goes.
pub struct Situation {
    /// Whether the numpad steers the mouse.
    pub enabled: bool,
    pub modifiers: Modifiers,
    pub motion: Motion,
}

impl Situation {
    /// How things stand at the start, where the numpad is to steer the mouse
    /// while NumLock is on, or while it is off, as `when_on` says.
    pub open spec fn begin(when_on: bool) -> Situation {
        Situation { enabled: when_on, modifiers: Modifiers::none(), motion: Motion::at_rest() }
    }

    /// How things stand after that.
    pub open spec fn after(self, happening: Happening, when_on: bool) -> Situation {
        match happening {
            Happening::Event(e) => match class_of(e, self.enabled) {
                EventClass::Modifier(change) => {
                    let modifiers = self.modifiers.changed(change);
                    Situation { modifiers, motion: self.motion.with_modifiers(modifiers), ..self }
                },
                EventClass::MouseKey => Situation {
                    motion: motion_after(self.motion, self.modifiers, e.code, e.value),
                    ..self
                },
                _ => self,
            },
            Happening::NumLockLook(lit) => {
                let enabled = match lit {
                    Some(on) => on == when_on,
                    None => self.enabled,
                };
                Situation { enabled, motion: self.motion.settled(enabled), ..self }
            },
            Happening::KeyboardChange => Situation {
                modifiers: Modifiers::none(),
                motion: Motion::at_rest(),
                ..self
            },
        }
    }
}

/// How things stand after all this happened, one thing after the other.
pub open spec fn situation_after(happenings: Seq<Happening>, when_on: bool) -> Situation
    decreases happenings.len(),
{
    if happenings.len() == 0 {
        Situation::begin(when_on)
    } else {
        situation_after(happenings.drop_last(), when_on).after(happenings.last(), when_on)
    }
}

/// The last time that the key `code` of the keyboard in use went down or up,
/// it went down.
pub open spec fn last_went_down(happenings: Seq<Happening>, code: u16) -> bool
    decreases happenings.len(),
{
    if happenings.len() == 0 {
        false
    } else {
        let before = last_went_down(happenings.drop_last(), code);
        match happenings.last() {
            Happening::Event(e) => if e.event_type == EV_KEY && e.code == code && e.value
                == PRESSED {
                true
            } else if e.event_type == EV_KEY && e.code == code && e.value == RELEASED {
                false
            } else {
                before
            },
            Happening::NumLockLook(_) => before,
            Happening::KeyboardChange => false,
        }
    }
}

/// The key `code` went down while the numpad steered the mouse, and since then
/// it has not gone up, the numpad has steered the mouse all along, and the
/// keyboard has not been changed.
pub open spec fn is_held_down(happenings: Seq<Happening>, when_on: bool, code: u16) -> bool
    decreases happenings.len(),
{
    if happenings.len() == 0 {
        false
    } else {
        let front = happenings.drop_last();
        let before = is_held_down(front, when_on, code);
        match happenings.last() {
            Happening::Event(e) => if !situation_after(front, when_on).enabled {
                false
            } else if e.event_type == EV_KEY && e.code == code && e.value == PRESSED {
                true
            } else if e.event_type == EV_KEY && e.code == code && e.value == RELEASED {
                false
            } else {
                before
            },
            Happening::NumLockLook(_) => before && situation_after(happenings, when_on).enabled,
            Happening::KeyboardChange => false,
        }
    }
}

/// Whatever happens, and whether or not the numpad steers the mouse, Shift is
/// held exactly while one of the two Shift keys of the keyboard in use is
/// down, and Ctrl exactly while one of its two Ctrl keys is.
pub proof fn law_modifiers_are_held_while_a_key_is_down(
    happenings: Seq<Happening>,
    when_on: bool,
)
    ensures
        ({
            let modifiers = situation_after(happenings, when_on).modifiers;
            &&& modifiers.left_shift <==> last_went_down(happenings, KEY_LEFTSHIFT)
            &&& modifiers.right_shift <==> last_went_down(happenings, KEY_RIGHTSHIFT)
            &&& modifiers.left_ctrl <==> last_went_down(happenings, KEY_LEFTCTRL)
            &&& modifiers.right_ctrl <==> last_went_down(happenings, KEY_RIGHTCTRL)
            &&& modifiers.shift() <==> last_went_down(happenings, KEY_LEFTSHIFT)
                || last_went_down(happenings, KEY_RIGHTSHIFT)
            &&& modifiers.ctrl() <==> last_went_down(happenings, KEY_LEFTCTRL) || last_went_down(
                happenings,
                KEY_RIGHTCTRL,
            )
        }),
    decreases happenings.len(),
{
    if happenings.len() > 0 {
        law_modifiers_are_held_while_a_key_is_down(happenings.drop_last(), when_on);
    }
}

/// Whatever happens, the mouse is to move exactly while a movement key is
/// held, and the modifiers that go with the movement are those that are held.
/// While the numpad does not steer the mouse, no key is held and the mouse is
/// not to move.
pub proof fn law_mouse_rests_while_off(happenings: Seq<Happening>, when_on: bool)
    ensures
        ({
            let now = situation_after(happenings, when_on);
            &&& now.motion.consistent()
            &&& now.motion.modifiers == now.modifiers
            &&& !now.enabled ==> now.motion.pressed == Set::<u16>::empty() && !now.motion.active
        }),
    decreases happenings.len(),
{
    if happenings.len() > 0 {
        law_mouse_rests_while_off(happenings.drop_last(), when_on);
        let before = situation_after(happenings.drop_last(), when_on);
        law_motion_stays_consistent(before.motion, 0);
        match happenings.last() {
            Happening::Event(e) => {
                assert(before.motion.with_modifiers(before.modifiers).consistent());
                law_motion_stays_consistent(
                    before.motion.with_modifiers(before.modifiers),
                    e.code,
                );
                if let EventClass::Modifier(change) = class_of(e, before.enabled) {
                    assert(before.motion.with_modifiers(
                        before.modifiers.changed(change),
                    ).consistent());
                }
            },
            _ => {},
        }
    }
}

/// Whatever happens, a key counts as held exactly if it is a movement key and
/// went down while the numpad steered the mouse, and neither going up, nor the
/// numpad being turned off, nor a change of keyboards has ended that. So a key
/// that counts as held is down.
pub proof fn law_held_keys_are_those_down(
    happenings: Seq<Happening>,
    when_on: bool,
    code: u16,
)
    ensures
        situation_after(happenings, when_on).motion.pressed.contains(code) <==> moves_mouse(code)
            && is_held_down(happenings, when_on, code),
        situation_after(happenings, when_on).motion.pressed.contains(code) ==> last_went_down(
            happenings,
            code,
        ),
    decreases happenings.len(),
{
    if happenings.len() > 0 {
        law_held_keys_are_those_down(happenings.drop_last(), when_on, code);
        law_mouse_rests_while_off(happenings.drop_last(), when_on);
    }
}

/// The numpad is to steer the mouse at the start, and no look at the NumLock
/// light changes that.
pub open spec fn always_steers(happenings: Seq<Happening>, when_on: bool) -> bool {
    &&& when_on
    &&& forall|i: int|
        0 <= i < happenings.len() ==> #[trigger] happenings[i] != Happening::NumLockLook(
            Some(false),
        )
}

/// While the numpad steers the mouse all along, a key counts as held exactly
/// if it is a movement key and is down.
pub proof fn law_steering_numpad_holds_what_is_down(
    happenings: Seq<Happening>,
    when_on: bool,
    code: u16,
)
    requires
        always_steers(happenings, when_on),
    ensures
        situation_after(happenings, when_on).enabled,
        situation_after(happenings, when_on).motion.pressed.contains(code) <==> moves_mouse(code)
            && last_went_down(happenings, code),
    decreases happenings.len(),
{
    if happenings.len() > 0 {
        let front = happenings.drop_last();
        assert forall|i: int| 0 <= i < front.len() implies #[trigger] front[i]
            != Happening::NumLockLook(Some(false)) by {
            assert(front[i] == happenings[i]);
        }
        law_steering_numpad_holds_what_is_down(front, when_on, code);
        assert(happenings.last() == happenings[happenings.len() - 1]);
    }
}

/// A key that goes on repeating changes nothing but which modifiers go with
/// the movement, and no key that steers the mouse does anything to both the
/// buttons and the movement.
pub proof fn law_one_key_one_effect(
    motion: Motion,
    state: MouseKeyState,
    modifiers: Modifiers,
    code: u16,
    value: i32,
    delay: u64,
)
    ensures
        value != PRESSED && value != RELEASED ==> motion_after(motion, modifiers, code, value)
            == motion.with_modifiers(modifiers),
        motion.consistent() && value == PRESSED && motion_after(motion, modifiers, code, value)
            != motion.with_modifiers(modifiers) ==> press_effect(
            state.active_button,
            code,
            delay,
        ) is Nothing && selected(state.active_button, code) == state.active_button,
{
}

/// Where a change of keyboards stands once `done` steps were taken, if the
/// outcome of each step is as `succeeds` says.
pub open spec fn switch_after(succeeds: spec_fn(SwitchStep) -> bool, done: nat) -> SwitchStep
    decreases done,
{
    if done == 0 {
        SwitchStep::UngrabOld
    } else {
        let step = switch_after(succeeds, (done - 1) as nat);
        step.after(succeeds(step))
    }
}

/// A change of keyboards is over after seven steps at most. It ends on the
/// new keyboard exactly if that could be opened, made non-blocking and
/// grabbed; and on the old one again exactly if only the grabbing failed, and
/// all three worked with the old one.
pub proof fn law_switch_comes_to_an_end(succeeds: spec_fn(SwitchStep) -> bool)
    ensures
        ({
            let new_ready = succeeds(SwitchStep::OpenNew) && succeeds(SwitchStep::UnblockNew);
            let old_again = succeeds(SwitchStep::OpenOld) && succeeds(SwitchStep::UnblockOld)
                && succeeds(SwitchStep::GrabOld);
            switch_after(succeeds, 7) == SwitchStep::Done(
                if new_ready && succeeds(SwitchStep::GrabNew) {
                    SwitchResult::Switched
                } else if new_ready && old_again {
                    SwitchResult::Reverted
                } else if new_ready {
                    SwitchResult::NotReverted
                } else if succeeds(SwitchStep::OpenNew) {
                    SwitchResult::NotUnblocked
                } else {
                    SwitchResult::NotOpened
                },
            )
        }),
{
    reveal_with_fuel(switch_after, 8);
}

/// What an event means, by its type, its code and its value. The four keys
/// that are modifiers count when they go down and when they go up; NumLock
/// counts when it goes down.
pub proof fn law_classes_by_code(event: InputEvent, mousekeys_enabled: bool, change: ModifierChange)
    ensures
        class_of(event, mousekeys_enabled) == EventClass::Modifier(change) <==> {
            &&& event.event_type == 1
            &&& event.value == 0 && !change.down || event.value == 1 && change.down
            &&& event.code == match change.key {
                ModifierKey::LeftShift => 42u16,
                ModifierKey::RightShift => 54u16,
                ModifierKey::LeftCtrl => 29u16,
                ModifierKey::RightCtrl => 97u16,
            }
        },
        class_of(event, mousekeys_enabled) is NumLock <==> event.event_type == 1 && event.code == 69
            && event.value == 1,
        class_of(event, mousekeys_enabled) is MouseKey <==> mousekeys_enabled && event.event_type
            == 1 && (moves_mouse(event.code) || works_button(event.code)),
        class_of(event, mousekeys_enabled) is Other ==> event.event_type != 1 || (event.code != 69
            || event.value != 1) && ((event.code != 42 && event.code != 54 && event.code != 29
            && event.code != 97) || (event.value != 0 && event.value != 1)),
{
}

/// What each step does to how things stand, if it succeeds.
pub open spec fn step_done(now: Situation, step: EventStep, e: InputEvent) -> Situation {
    match step {
        EventStep::SetModifier(change) => Situation {
            modifiers: now.modifiers.changed(change),
            ..now
        },
        EventStep::SyncModifiers => Situation {
            motion: now.motion.with_modifiers(now.modifiers),
            ..now
        },
        EventStep::SteerMouse => Situation {
            motion: motion_after(now.motion, now.modifiers, e.code, e.value),
            ..now
        },
        EventStep::Forward => now,
        EventStep::Finished => now,
    }
}

/// How things stand after these steps, one after the other.
pub open spec fn steps_done(now: Situation, steps: Seq<EventStep>, e: InputEvent) -> Situation
    decreases steps.len(),
{
    if steps.len() == 0 {
        now
    } else {
        step_done(steps_done(now, steps.drop_last(), e), steps.last(), e)
    }
}

/// Every change of a modifier, down or up, of any of the four keys, is taken
/// over and passed on to the movement before the event is handed on. If it
/// cannot be taken over it is handed on all the same.
pub proof fn law_modifier_changes_are_taken_over(change: ModifierChange, succeeded: bool)
    ensures
        EventStep::begin(EventClass::Modifier(change)) == EventStep::SetModifier(change),
        EventStep::SetModifier(change).after(true) == EventStep::SyncModifiers,
        EventStep::SetModifier(change).after(false) == EventStep::Forward,
        EventStep::SyncModifiers.after(succeeded) == EventStep::Forward,
        EventStep::Forward.after(succeeded) == EventStep::Finished,
{
}

/// The steps that an event calls for, each of them done, bring about what the
/// event means: the modifiers and the movement are as they should be after it.
pub proof fn law_steps_bring_it_about(now: Situation, e: InputEvent, when_on: bool)
    requires
        now.motion.modifiers == now.modifiers,
    ensures
        steps_done(
            now,
            steps_from(EventStep::begin(class_of(e, now.enabled)), |step: EventStep| true),
            e,
        ) == now.after(Happening::Event(e), when_on),
{
    reveal_with_fuel(steps_from, 5);
    reveal_with_fuel(steps_done, 4);
    let class = class_of(e, now.enabled);
    let step = EventStep::begin(class);
    let steps = steps_from(step, |step: EventStep| true);
    match class {
        EventClass::Modifier(change) => {
            assert(steps =~= seq![step, EventStep::SyncModifiers, EventStep::Forward]);
            assert(steps.drop_last() =~= seq![step, EventStep::SyncModifiers]);
            assert(steps.drop_last().drop_last() =~= seq![step]);
            assert(seq![step].drop_last() =~= Seq::<EventStep>::empty());
        },
        _ => {
            assert(steps =~= seq![step]);
            assert(steps.drop_last() =~= Seq::<EventStep>::empty());
        },
    }
}

/// How things stand after all this happened, where each event is dealt with
/// step by step.
pub open spec fn situation_by_steps(happenings: Seq<Happening>, when_on: bool) -> Situation
    decreases happenings.len(),
{
    if happenings.len() == 0 {
        Situation::begin(when_on)
    } else {
        let before = situation_by_steps(happenings.drop_last(), when_on);
        match happenings.last() {
            Happening::Event(e) => steps_done(
                before,
                steps_from(EventStep::begin(class_of(e, before.enabled)), |step: EventStep| true),
                e,
            ),
            other => before.after(other, when_on),
        }
    }
}

/// Dealing with the events step by step leaves things as they should be,
/// whatever happens: in particular Shift and Ctrl are held exactly while one
/// of their keys is down, and no longer.
pub proof fn law_step_by_step(happenings: Seq<Happening>, when_on: bool)
    ensures
        situation_by_steps(happenings, when_on) == situation_after(happenings, when_on),
        ({
            let modifiers = situation_by_steps(happenings, when_on).modifiers;
            &&& modifiers.left_shift <==> last_went_down(happenings, 42)
            &&& modifiers.right_shift <==> last_went_down(happenings, 54)
            &&& modifiers.left_ctrl <==> last_went_down(happenings, 29)
            &&& modifiers.right_ctrl <==> last_went_down(happenings, 97)
        }),
    decreases happenings.len(),
{
    law_modifiers_are_held_while_a_key_is_down(happenings, when_on);
    if happenings.len() > 0 {
        let front = happenings.drop_last();
        law_step_by_step(front, when_on);
        law_mouse_rests_while_off(front, when_on);
        if let Happening::Event(e) = happenings.last() {
            law_steps_bring_it_about(situation_after(front, when_on), e, when_on);
        }
    }
}

/// What an event of a key that steers the mouse does to the movement, key by
/// key: a movement key is held once it goes down, and not once it goes up; any
/// other value changes nothing, and no other key is touched.
pub proof fn law_movement_key_by_key(
    motion: Motion,
    modifiers: Modifiers,
    code: u16,
    value: i32,
    other: u16,
)
    ensures
        ({
            let new = motion_after(motion, modifiers, code, value);
            &&& new.modifiers == modifiers
            &&& other != code ==> (new.pressed.contains(other) <==> motion.pressed.contains(other))
            &&& value == 1 ==> (new.pressed.contains(code) <==> moves_mouse(code)
                || motion.pressed.contains(code))
            &&& value == 0 ==> !new.pressed.contains(code)
            &&& value != 0 && value != 1 ==> new.pressed == motion.pressed && new.active
                == motion.active
            &&& value == 1 ==> (new.active <==> motion.active || moves_mouse(code))
            &&& motion.consistent() ==> new.consistent()
        }),
{
    if motion.consistent() {
        law_motion_stays_consistent(motion, code);
        assert(motion.with_modifiers(modifiers).consistent());
        law_motion_stays_consistent(motion.with_modifiers(modifiers), code);
    }
}

/// Only a look at the NumLock light turns the numpad on or off, and it goes by
/// the light alone, unless that cannot be read.
pub proof fn law_only_numlock_turns_the_numpad(
    now: Situation,
    e: InputEvent,
    on: bool,
    when_on: bool,
)
    ensures
        now.after(Happening::NumLockLook(Some(on)), when_on).enabled <==> on == when_on,
        now.after(Happening::NumLockLook(None), when_on).enabled == now.enabled,
        now.after(Happening::Event(e), when_on).enabled == now.enabled,
        now.after(Happening::KeyboardChange, when_on).enabled == now.enabled,
        now.after(Happening::NumLockLook(Some(on)), when_on).modifiers == now.modifiers,
        on == when_on ==> now.after(Happening::NumLockLook(Some(on)), when_on).motion
            == now.motion,
        Situation::begin(when_on).enabled == when_on,
{
}

/// Each step of a change of keyboards comes in its turn, and only if what it
/// builds on succeeded: a keyboard is opened, then made non-blocking, then
/// grabbed, and the old one is turned to only if the new one was not grabbed.
pub proof fn law_switch_steps_in_turn(succeeds: spec_fn(SwitchStep) -> bool, done: nat)
    requires
        done <= 6,
    ensures
        switch_after(succeeds, done) is UngrabOld <==> done == 0,
        switch_after(succeeds, done) is OpenNew <==> done == 1,
        switch_after(succeeds, done) is UnblockNew <==> done == 2 && succeeds(SwitchStep::OpenNew),
        switch_after(succeeds, done) is GrabNew <==> done == 3 && succeeds(SwitchStep::OpenNew)
            && succeeds(SwitchStep::UnblockNew),
        switch_after(succeeds, done) is OpenOld <==> done == 4 && succeeds(SwitchStep::OpenNew)
            && succeeds(SwitchStep::UnblockNew) && !succeeds(SwitchStep::GrabNew),
        switch_after(succeeds, done) is UnblockOld <==> done == 5 && succeeds(SwitchStep::OpenNew)
            && succeeds(SwitchStep::UnblockNew) && !succeeds(SwitchStep::GrabNew) && succeeds(
            SwitchStep::OpenOld,
        ),
        switch_after(succeeds, done) is GrabOld <==> done == 6 && succeeds(SwitchStep::OpenNew)
            && succeeds(SwitchStep::UnblockNew) && !succeeds(SwitchStep::GrabNew) && succeeds(
            SwitchStep::OpenOld,
        ) && succeeds(SwitchStep::UnblockOld),
{
    reveal_with_fuel(switch_after, 8);
}

/// The new keyboard is in use, and the keys of the old one are let go of,
/// exactly if the change came off. Only a keyboard that would block is not
/// read.
pub proof fn law_what_a_switch_entails(result: SwitchResult)
    ensures
        follow_up(result).uses_new <==> result == SwitchResult::Switched,
        follow_up(result).clears_keys <==> result == SwitchResult::Switched,
        !follow_up(result).reads <==> result == SwitchResult::NotUnblocked,
{
}

/// A session goes round: it sees whether to stop, then to another keyboard,
/// then reads. What was read is handled, whatever else is going on, and after
/// that it sees whether the keyboard is there. Where there was nothing to
/// read it waits for 5 milliseconds. Then it begins again.
pub proof fn law_every_batch_is_handled(reports: spec_fn(nat) -> StepReport, n: nat)
    ensures
        session_after(reports, 0) is CheckStop,
        session_after(reports, n) is CheckStop && !reports(n).stop ==> session_after(reports, n + 1)
            is CheckSwitch,
        session_after(reports, n) is CheckSwitch ==> (session_after(reports, n + 1) is Read
            <==> reports(n).switch != Some(SwitchResult::NotUnblocked)),
        session_after(reports, n) is CheckSwitch && reports(n).switch == Some(
            SwitchResult::NotUnblocked,
        ) ==> session_after(reports, n + 1) is CheckStop,
        session_after(reports, n) is Read && reports(n).read is Batch ==> {
            &&& session_after(reports, n + 1) is HandleBatch
            &&& session_after(reports, n + 2) is CheckDevice
            &&& session_after(reports, n + 3) is CheckStop <==> reports(n + 2).device_present
        },
        session_after(reports, n) is Read && reports(n).read is WouldBlock ==> {
            &&& session_after(reports, n + 1) == SessionStep::Wait(5)
            &&& session_after(reports, n + 2) is CheckStop
        },
        session_after(reports, n) is Read && reports(n).read is Failed ==> session_after(
            reports,
            n + 1,
        ) == SessionStep::Ended(SessionEnd::ReadError),
        session_after(reports, n) is CheckStop && reports(n).stop ==> session_after(reports, n + 1)
            == SessionStep::Ended(SessionEnd::Stopped),
        session_after(reports, n) is CheckDevice && !reports(n).device_present ==> session_after(
            reports,
            n + 1,
        ) == SessionStep::Ended(SessionEnd::Disconnected),
{
    reveal_with_fuel(session_after, 4);
    assert(session_after(reports, n + 1) == session_after(reports, n).after(reports(n)));
    assert(session_after(reports, n + 2) == session_after(reports, n + 1).after(reports(n + 1)));
    assert(session_after(reports, n + 3) == session_after(reports, n + 2).after(reports(n + 2)));
}

/// A session that was told to stop ends without an error. A read error is told
/// with its cause, and a keyboard that is gone with its path, each in full.
pub proof fn law_errors_tell_the_cause(path: Seq<char>, cause: Seq<char>)
    ensures
        SessionEnd::Stopped.error(path, cause) is None,
        SessionEnd::ReadError.error(path, cause) == Some("Keyboard read error: "@ + cause),
        SessionEnd::Disconnected.error(path, cause) == Some(
            "Keyboard device disconnected: "@ + path,
        ),
{
}

/// Whatever else a report says: being told to stop ends a session when that is
/// looked at, a batch is handled and then the keyboard is looked for, nothing
/// to read means to wait, and a keyboard that is gone or cannot be read ends
/// the session.
pub proof fn law_turns(report: StepReport, millis: u64)
    ensures
        SessionStep::CheckStop.after(report) is Ended <==> report.stop,
        SessionStep::CheckStop.after(report) is CheckSwitch <==> !report.stop,
        SessionStep::CheckSwitch.after(report) is Read <==> report.switch != Some(
            SwitchResult::NotUnblocked,
        ),
        SessionStep::CheckSwitch.after(report) is CheckStop <==> report.switch == Some(
            SwitchResult::NotUnblocked,
        ),
        SessionStep::Read.after(report) is HandleBatch <==> report.read is Batch,
        SessionStep::Read.after(report) == SessionStep::Wait(5) <==> report.read is WouldBlock,
        SessionStep::Read.after(report) is Ended <==> report.read is Failed,
        SessionStep::Wait(millis).after(report) is CheckStop,
        SessionStep::HandleBatch.after(report) is CheckDevice,
        SessionStep::CheckDevice.after(report) is CheckStop <==> report.device_present,
        SessionStep::CheckDevice.after(report) is Ended <==> !report.device_present,
{
}

/// In a change of keyboards success leads on and failure leads out: only a
/// failure to grab the new keyboard leads back to the old one, and a failure
/// to let go of the old one does not matter.
pub proof fn law_success_leads_on(succeeded: bool)
    ensures
        SwitchStep::UngrabOld.after(succeeded) is OpenNew,
        SwitchStep::OpenNew.after(succeeded) is UnblockNew <==> succeeded,
        SwitchStep::UnblockNew.after(succeeded) is GrabNew <==> succeeded,
        SwitchStep::GrabNew.after(succeeded) is OpenOld <==> !succeeded,
        SwitchStep::OpenOld.after(succeeded) is UnblockOld <==> succeeded,
        SwitchStep::UnblockOld.after(succeeded) is GrabOld <==> succeeded,
        SwitchStep::GrabNew.after(true) == SwitchStep::Done(SwitchResult::Switched),
        SwitchStep::GrabOld.after(true) == SwitchStep::Done(SwitchResult::Reverted),
        SwitchStep::OpenNew.after(false) == SwitchStep::Done(SwitchResult::NotOpened),
        SwitchStep::UnblockNew.after(false) == SwitchStep::Done(SwitchResult::NotUnblocked),
        SwitchStep::OpenOld.after(false) == SwitchStep::Done(SwitchResult::NotReverted),
        SwitchStep::UnblockOld.after(false) == SwitchStep::Done(SwitchResult::NotReverted),
        SwitchStep::GrabOld.after(false) == SwitchStep::Done(SwitchResult::NotReverted),
{
}

} // verus!
