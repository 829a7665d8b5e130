//! Watching the list of keyboards: noticing when it changes, telling the
//! user, and deciding when another keyboard should be used.

use vstd::prelude::*;
use vstd::string::*;
use crate::config::{texts, Config};
use crate::keyboards::{best_keyboard, candidates, Candidate, KeyboardCandidate};
use crate::text::{
    append_int, append_nat, decimal, is_digit, law_decimal_read_back, lemma_decimal_chars,
};

verus! {

/// What the signature of a list says of one keyboard.
pub open spec fn entry(keyboard: Candidate) -> Seq<char> {
    keyboard.path + ":"@ + decimal(keyboard.priority as int)
}

/// A text that tells lists of keyboards apart: where each keyboard is found,
/// and how good it is.
pub open spec fn signature(keyboards: Seq<Candidate>) -> Seq<char>
    decreases keyboards.len(),
{
    if keyboards.len() == 0 {
        Seq::empty()
    } else if keyboards.len() == 1 {
        entry(keyboards[0])
    } else {
        signature(keyboards.drop_last()) + "|"@ + entry(keyboards.last())
    }
}

pub fn generate_keyboard_list_signature(keyboards: &Vec<KeyboardCandidate>) -> (text: String)
    ensures
        text@ == signature(candidates(keyboards@)),
{
    let mut text = String::new();
    let mut i: usize = 0;
    let ghost all = candidates(keyboards@);
    while i < keyboards.len()
        invariant
            i <= keyboards.len(),
            all == candidates(keyboards@),
            text@ == signature(all.take(i as int)),
        decreases keyboards.len() - i,
    {
        proof {
            assert(all.take(i + 1).drop_last() == all.take(i as int));
            assert(all.take(i + 1).last() == keyboards[i as int]@);
        }
        let ghost before = text@;
        if i > 0 {
            text.append("|");
        }
        let ghost start = text@;
        text.append(keyboards[i].path.as_str());
        text.append(":");
        append_int(&mut text, keyboards[i].priority);
        assert(text@ == start + entry(keyboards[i as int]@));
        i = i + 1;
    }
    assert(all.take(i as int) == all);
    text
}

/// How a keyboard is described: its name, where it is found, and how good it
/// is.
pub open spec fn description(keyboard: Candidate) -> Seq<char> {
    keyboard.name + " ("@ + keyboard.path + ") - Priority: "@ + decimal(keyboard.priority as int)
}

/// The line about the keyboard in place `i` of the list.
pub open spec fn list_line(i: int, keyboard: Candidate) -> Seq<char> {
    "  "@ + decimal(i) + ": "@ + description(keyboard)
}

/// What the user is told about the keyboards, line by line.
pub open spec fn report(keyboards: Seq<Candidate>) -> Seq<Seq<char>> {
    if keyboards.len() == 0 {
        seq!["No suitable keyboards found"@]
    } else {
        seq!["Available keyboards:"@] + keyboards.map(|i: int, k: Candidate| list_line(i, k))
            + seq!["Best keyboard: "@ + description(keyboards.first())]
    }
}

fn append_description(out: &mut String, keyboard: &KeyboardCandidate)
    ensures
        final(out)@ == old(out)@ + description(keyboard@),
{
    out.append(keyboard.name.as_str());
    out.append(" (");
    out.append(keyboard.path.as_str());
    out.append(") - Priority: ");
    append_int(out, keyboard.priority);
    assert(out@ == old(out)@ + description(keyboard@));
}

/// What the user is told about the keyboards, line by line.
pub fn keyboard_report(keyboards: &Vec<KeyboardCandidate>) -> (lines: Vec<String>)
    ensures
        texts(lines@) == report(candidates(keyboards@)),
{
    let mut lines: Vec<String> = Vec::new();
    if keyboards.len() == 0 {
        lines.push("No suitable keyboards found".to_owned());
        assert(texts(lines@) =~= report(candidates(keyboards@)));
        return lines;
    }
    let ghost all = candidates(keyboards@);
    let ghost listed = all.map(|i: int, k: Candidate| list_line(i, k));
    lines.push("Available keyboards:".to_owned());
    assert(texts(lines@) =~= seq!["Available keyboards:"@] + listed.take(0));
    let mut i: usize = 0;
    while i < keyboards.len()
        invariant
            i <= keyboards.len(),
            all == candidates(keyboards@),
            listed == all.map(|i: int, k: Candidate| list_line(i, k)),
            texts(lines@) == seq!["Available keyboards:"@] + listed.take(i as int),
        decreases keyboards.len() - i,
    {
        let mut line = String::new();
        line.append("  ");
        append_nat(&mut line, i as u64);
        line.append(": ");
        append_description(&mut line, &keyboards[i]);
        assert(line@ == list_line(i as int, all[i as int]));
        let ghost before = texts(lines@);
        lines.push(line);
        assert(texts(lines@) =~= before.push(listed[i as int]));
        assert(listed.take(i + 1) == listed.take(i as int).push(listed[i as int]));
        i = i + 1;
    }
    assert(listed.take(i as int) == listed);
    let mut line = String::new();
    line.append("Best keyboard: ");
    append_description(&mut line, &keyboards[0]);
    let ghost before = texts(lines@);
    lines.push(line);
    assert(texts(lines@) =~= before.push("Best keyboard: "@ + description(all.first())));
    assert(texts(lines@) =~= report(all));
    lines
}

/// The report on the keyboards, if they differ from those that
/// `last_signature` was made of; it is then the signature of the new ones.
pub fn report_keyboards_if_changed(
    keyboards: &Vec<KeyboardCandidate>,
    last_signature: &mut String,
) -> (lines: Option<Vec<String>>)
    ensures
        final(last_signature)@ == signature(candidates(keyboards@)),
        match lines {
            Some(told) => old(last_signature)@ != signature(candidates(keyboards@)) && texts(told@)
                == report(candidates(keyboards@)),
            None => old(last_signature)@ == signature(candidates(keyboards@)),
        },
{
    let current = generate_keyboard_list_signature(keyboards);
    if current == *last_signature {
        None
    } else {
        *last_signature = current;
        Some(keyboard_report(keyboards))
    }
}

/// A keyboard is worth changing to: it is better, or it is another one that
/// is as good.
pub open spec fn is_better(keyboard: Candidate, current_name: Seq<char>, current_priority: i32) -> bool {
    ||| keyboard.priority > current_priority
    ||| keyboard.priority == current_priority && keyboard.name != current_name
}

pub fn is_better_keyboard(
    keyboard: &KeyboardCandidate,
    current_name: &String,
    current_priority: i32,
) -> (better: bool)
    ensures
        better == is_better(keyboard@, current_name@, current_priority),
{
    keyboard.priority > current_priority || (keyboard.priority == current_priority && !(
    keyboard.name == *current_name))
}

/// What the user is told when a better keyboard turned up.
pub open spec fn switch_notice(
    best: Candidate,
    current_name: Seq<char>,
    current_priority: i32,
    list_changed: bool,
) -> Seq<char> {
    if list_changed {
        "Switching to better keyboard: "@ + description(best) + " (was: "@ + current_name
            + " - Priority: "@ + decimal(current_priority as int) + ")"@
    } else {
        "Found better keyboard: "@ + description(best) + " (current: "@ + current_name
            + " - Priority: "@ + decimal(current_priority as int) + ")"@
    }
}

pub fn switch_message(
    best: &KeyboardCandidate,
    current_name: &String,
    current_priority: i32,
    list_changed: bool,
) -> (message: String)
    ensures
        message@ == switch_notice(best@, current_name@, current_priority, list_changed),
{
    let mut message = String::new();
    if list_changed {
        message.append("Switching to better keyboard: ");
        append_description(&mut message, best);
        message.append(" (was: ");
    } else {
        message.append("Found better keyboard: ");
        append_description(&mut message, best);
        message.append(" (current: ");
    }
    message.append(current_name.as_str());
    message.append(" - Priority: ");
    append_int(&mut message, current_priority);
    message.append(")");
    assert(message@ =~= switch_notice(best@, current_name@, current_priority, list_changed));
    message
}

/// What a scan for keyboards came to.
#[derive(Debug)]
pub struct ScanOutcome {
    /// What to tell the user about the keyboards, line by line, if they
    /// changed.
    pub report: Option<Vec<String>>,
    /// The keyboard to change to, if any, and what to tell the user about it.
    pub switch: Option<(String, KeyboardCandidate)>,
    /// Whether to go on looking out for keyboards.
    pub goes_on: bool,
}

/// Goes through the keyboards that a scan found, the best one first, while
/// the keyboard in use is the one with the given name and priority. Once a
/// better keyboard has turned up there is no more looking out.
pub fn review_scan(
    keyboards: Vec<KeyboardCandidate>,
    last_signature: &mut String,
    current_name: &String,
    current_priority: i32,
) -> (outcome: ScanOutcome)
    ensures
        final(last_signature)@ == signature(candidates(keyboards@)),
        match outcome.report {
            Some(told) => old(last_signature)@ != signature(candidates(keyboards@)) && texts(told@)
                == report(candidates(keyboards@)),
            None => old(last_signature)@ == signature(candidates(keyboards@)),
        },
        match outcome.switch {
            Some((message, keyboard)) => {
                &&& keyboards.len() > 0
                &&& keyboard == keyboards[0]
                &&& is_better(keyboard@, current_name@, current_priority)
                &&& message@ == switch_notice(
                    keyboard@,
                    current_name@,
                    current_priority,
                    outcome.report is Some,
                )
            },
            None => keyboards.len() > 0 ==> !is_better(
                keyboards[0]@,
                current_name@,
                current_priority,
            ),
        },
        outcome.goes_on <==> outcome.switch is None,
{
    let report = report_keyboards_if_changed(&keyboards, last_signature);
    let list_changed: bool = report.is_some();
    if let Some(best) = best_keyboard(keyboards) {
        if is_better_keyboard(&best, current_name, current_priority) {
            let message = switch_message(&best, current_name, current_priority, list_changed);
            return ScanOutcome { report, switch: Some((message, best)), goes_on: false };
        }
    }
    ScanOutcome { report, switch: None, goes_on: true }
}

/// Whether the next scan is due, so many nanoseconds after the last one.
pub fn scan_due(elapsed: u128, config: &Config) -> (due: bool)
    ensures
        due == (elapsed >= config@.keyboard_scan_interval * 1_000_000_000),
{
    elapsed >= config.keyboard_scan_interval as u128 * 1_000_000_000
}

/// `s` is free of `c`.
pub open spec fn is_free_of(s: Seq<char>, c: char) -> bool {
    forall|i: int| 0 <= i < s.len() ==> #[trigger] s[i] != c
}

/// A text is taken apart at the last separator in one way only.
proof fn lemma_split_at_last(
    front1: Seq<char>,
    back1: Seq<char>,
    front2: Seq<char>,
    back2: Seq<char>,
    separator: char,
)
    requires
        is_free_of(back1, separator),
        is_free_of(back2, separator),
        front1.push(separator) + back1 == front2.push(separator) + back2,
    ensures
        front1 == front2,
        back1 == back2,
{
    let whole1 = front1.push(separator) + back1;
    let whole2 = front2.push(separator) + back2;
    assert(whole1.len() == front1.len() + 1 + back1.len());
    assert(whole2.len() == front2.len() + 1 + back2.len());
    assert(whole1[front1.len() as int] == separator);
    assert(whole2[front2.len() as int] == separator);
    if front1.len() < front2.len() {
        assert(whole1[front2.len() as int] == back1[front2.len() - front1.len() - 1]);
    }
    if front2.len() < front1.len() {
        assert(whole2[front1.len() as int] == back2[front1.len() - front2.len() - 1]);
    }
    assert(front1 =~= whole1.take(front1.len() as int));
    assert(front2 =~= whole2.take(front2.len() as int));
    assert(back1 =~= whole1.skip(front1.len() as int + 1));
    assert(back2 =~= whole2.skip(front2.len() as int + 1));
}

proof fn lemma_decimal_is_free_of(n: int, c: char)
    requires
        !is_digit(c),
        c != '-',
    ensures
        is_free_of(decimal(n), c),
{
    assert forall|i: int| 0 <= i < decimal(n).len() implies #[trigger] decimal(n)[i] != c by {
        lemma_decimal_chars(n, i);
    }
}

proof fn lemma_entry(keyboard: Candidate)
    ensures
        entry(keyboard) == keyboard.path.push(':') + decimal(keyboard.priority as int),
        entry(keyboard).len() > 0,
        is_free_of(keyboard.path, '|') ==> is_free_of(entry(keyboard), '|'),
{
    reveal_strlit(":");
    lemma_decimal_is_free_of(keyboard.priority as int, '|');
    assert(entry(keyboard) =~= keyboard.path.push(':') + decimal(keyboard.priority as int));
}

proof fn lemma_entry_tells_apart(a: Candidate, b: Candidate)
    requires
        entry(a) == entry(b),
    ensures
        a.path == b.path,
        a.priority == b.priority,
{
    lemma_entry(a);
    lemma_entry(b);
    lemma_decimal_is_free_of(a.priority as int, ':');
    lemma_decimal_is_free_of(b.priority as int, ':');
    lemma_split_at_last(
        a.path,
        decimal(a.priority as int),
        b.path,
        decimal(b.priority as int),
        ':',
    );
    law_decimal_read_back(a.priority as int);
    law_decimal_read_back(b.priority as int);
}

proof fn lemma_signature_of_more(keyboards: Seq<Candidate>)
    requires
        keyboards.len() > 1,
    ensures
        signature(keyboards) == signature(keyboards.drop_last()).push('|') + entry(
            keyboards.last(),
        ),
        !is_free_of(signature(keyboards), '|'),
{
    reveal_strlit("|");
    let front = signature(keyboards.drop_last());
    assert(signature(keyboards) =~= front.push('|') + entry(keyboards.last()));
    assert(signature(keyboards)[front.len() as int] == '|');
}

/// The keyboards are in the same places in both lists, and equally good.
pub open spec fn same_places(a: Seq<Candidate>, b: Seq<Candidate>) -> bool {
    &&& a.len() == b.len()
    &&& forall|i: int|
        0 <= i < a.len() ==> (#[trigger] a[i]).path == (#[trigger] b[i]).path && a[i].priority
            == b[i].priority
}

pub open spec fn paths_are_plain(keyboards: Seq<Candidate>) -> bool {
    forall|i: int| 0 <= i < keyboards.len() ==> is_free_of((#[trigger] keyboards[i]).path, '|')
}

/// Lists with the same keyboards in the same places, equally good, have the
/// same signature, whatever the paths are and whatever the keyboards are
/// called.
pub proof fn law_same_places_same_signature(a: Seq<Candidate>, b: Seq<Candidate>)
    requires
        same_places(a, b),
    ensures
        signature(a) == signature(b),
    decreases a.len(),
{
    if a.len() > 0 {
        assert(a.last() == a[a.len() - 1] && b.last() == b[b.len() - 1]);
        assert(entry(a.last()) == entry(b.last()));
        assert(entry(a[0]) == entry(b[0]));
        law_same_places_same_signature(a.drop_last(), b.drop_last());
    }
}

/// Two lists of keyboards have the same signature exactly if the keyboards
/// are in the same places and equally good, as long as no place has the
/// separator in its path.
pub proof fn law_signature_tells_lists_apart(a: Seq<Candidate>, b: Seq<Candidate>)
    requires
        paths_are_plain(a),
        paths_are_plain(b),
    ensures
        signature(a) == signature(b) <==> same_places(a, b),
    decreases a.len(),
{
    if same_places(a, b) {
        law_same_places_same_signature(a, b);
    }
    if signature(a) == signature(b) {
        if a.len() > 1 {
            lemma_signature_of_more(a);
        }
        if b.len() > 1 {
            lemma_signature_of_more(b);
        }
        if a.len() > 0 {
            lemma_entry(a[0]);
            assert(is_free_of(a[0].path, '|'));
            lemma_entry(a.last());
            assert(is_free_of(a[a.len() - 1].path, '|'));
        }
        if b.len() > 0 {
            lemma_entry(b[0]);
            assert(is_free_of(b[0].path, '|'));
            lemma_entry(b.last());
            assert(is_free_of(b[b.len() - 1].path, '|'));
        }
        if a.len() == 1 && b.len() == 1 {
            lemma_entry_tells_apart(a[0], b[0]);
        } else if a.len() > 1 && b.len() > 1 {
            lemma_split_at_last(
                signature(a.drop_last()),
                entry(a.last()),
                signature(b.drop_last()),
                entry(b.last()),
                '|',
            );
            lemma_entry_tells_apart(a.last(), b.last());
            law_signature_tells_lists_apart(a.drop_last(), b.drop_last());
            assert forall|i: int| 0 <= i < a.len() implies (#[trigger] a[i]).path == (
            #[trigger] b[i]).path && a[i].priority == b[i].priority by {
                if i < a.len() - 1 {
                    assert(a.drop_last()[i].path == b.drop_last()[i].path);
                }
            }
        }
    }
}

/// The daemon changes neither to a worse keyboard nor to the one in use.
pub proof fn law_never_to_a_worse_keyboard(
    keyboard: Candidate,
    current_name: Seq<char>,
    current_priority: i32,
)
    ensures
        is_better(keyboard, current_name, current_priority) ==> keyboard.priority
            >= current_priority,
        keyboard.name == current_name && keyboard.priority == current_priority ==> !is_better(
            keyboard,
            current_name,
            current_priority,
        ),
{
}

/// The signature of one keyboard is its path, a colon and its priority in
/// decimal notation. Signatures of two lists, with a bar between them, are the
/// signature of the lists put together.
pub proof fn law_signatures_join(a: Seq<Candidate>, b: Seq<Candidate>, keyboard: Candidate)
    ensures
        signature(Seq::empty()) == Seq::<char>::empty(),
        signature(seq![keyboard]) == keyboard.path + seq![':'] + decimal(keyboard.priority as int),
        a.len() > 0 && b.len() > 0 ==> signature(a + b) == signature(a) + seq!['|'] + signature(b),
    decreases b.len(),
{
    reveal_strlit(":");
    reveal_strlit("|");
    assert(":"@ =~= seq![':']);
    assert("|"@ =~= seq!['|']);
    if a.len() > 0 && b.len() > 0 {
        let whole = a + b;
        let front = b.drop_last();
        assert(whole.drop_last() =~= a + front);
        assert(whole.last() == b.last());
        if b.len() == 1 {
            assert(a + front =~= a);
            assert(b[0] == b.last());
        } else {
            law_signatures_join(a, front, keyboard);
            assert(signature(whole) =~= signature(a) + seq!['|'] + signature(b));
        }
    }
}

/// A report on keyboards has a heading, a line for each keyboard in its place,
/// with its number, name, path and priority, and a line for the first one. A
/// report on none is one line.
pub proof fn law_reports(keyboards: Seq<Candidate>, i: int)
    ensures
        keyboards.len() == 0 ==> report(keyboards) == seq!["No suitable keyboards found"@],
        keyboards.len() > 0 ==> {
            &&& report(keyboards).len() == keyboards.len() + 2
            &&& report(keyboards)[0] == "Available keyboards:"@
            &&& report(keyboards).last() == "Best keyboard: "@ + keyboards[0].name + " ("@
                + keyboards[0].path + ") - Priority: "@ + decimal(keyboards[0].priority as int)
        },
        0 <= i < keyboards.len() ==> report(keyboards)[i + 1] == "  "@ + decimal(i) + ": "@
            + keyboards[i].name + " ("@ + keyboards[i].path + ") - Priority: "@ + decimal(
            keyboards[i].priority as int,
        ),
{
    if 0 <= i < keyboards.len() {
        assert(report(keyboards)[i + 1] == list_line(i, keyboards[i]));
        assert(list_line(i, keyboards[i]) =~= "  "@ + decimal(i) + ": "@ + keyboards[i].name + " ("@
            + keyboards[i].path + ") - Priority: "@ + decimal(keyboards[i].priority as int));
    }
    if keyboards.len() > 0 {
        assert(report(keyboards).last() == "Best keyboard: "@ + description(keyboards[0]));
        assert("Best keyboard: "@ + description(keyboards[0]) =~= "Best keyboard: "@
            + keyboards[0].name + " ("@ + keyboards[0].path + ") - Priority: "@ + decimal(
            keyboards[0].priority as int,
        ));
    }
}

/// A keyboard is worth changing to exactly if it is better, or as good under
/// another name; so of two keyboards of different names each is worth changing
/// to from the other only if they are equally good.
pub proof fn law_better_keyboards(one: Candidate, other: Candidate)
    ensures
        is_better(one, other.name, other.priority) <==> one.priority > other.priority || (
        one.priority == other.priority && one.name != other.name),
        is_better(one, other.name, other.priority) && is_better(other, one.name, one.priority)
            ==> one.priority == other.priority && one.name != other.name,
        one.name != other.name ==> is_better(one, other.name, other.priority) || is_better(
            other,
            one.name,
            one.priority,
        ),
{
}

/// A notice of a better keyboard names both keyboards and both priorities, and
/// begins according to whether the list changed.
pub proof fn law_notices(best: Candidate, name: Seq<char>, priority: i32)
    ensures
        switch_notice(best, name, priority, true) == "Switching to better keyboard: "@ + best.name
            + " ("@ + best.path + ") - Priority: "@ + decimal(best.priority as int) + " (was: "@
            + name + " - Priority: "@ + decimal(priority as int) + ")"@,
        switch_notice(best, name, priority, false) == "Found better keyboard: "@ + best.name + " ("@
            + best.path + ") - Priority: "@ + decimal(best.priority as int) + " (current: "@ + name
            + " - Priority: "@ + decimal(priority as int) + ")"@,
{
    assert(switch_notice(best, name, priority, true) =~= "Switching to better keyboard: "@
        + best.name + " ("@ + best.path + ") - Priority: "@ + decimal(best.priority as int)
        + " (was: "@ + name + " - Priority: "@ + decimal(priority as int) + ")"@);
    assert(switch_notice(best, name, priority, false) =~= "Found better keyboard: "@ + best.name
        + " ("@ + best.path + ") - Priority: "@ + decimal(best.priority as int) + " (current: "@
        + name + " - Priority: "@ + decimal(priority as int) + ")"@);
}

} // verus!
