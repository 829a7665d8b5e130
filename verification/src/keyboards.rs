//! Finding the keyboards among the input devices, and which of them to use.

use vstd::prelude::*;
use crate::attributes::{has_key, key_codes};
use crate::keys::{
    law_numpad_is_what_steers, numpad, numpad_keys, steers_mouse, KEY_A, KEY_KP1, KEY_KP5, KEY_NUMLOCK,
};
use crate::text::{
    all_ascii, begins_with, chars_of, contains, contains_text, law_searching_finds_parts,
    law_what_is_found_is_there, lower, occurs_at, to_lowercase,
};

verus! {

/// A keyboard that the daemon could use.
#[derive(Debug)]
pub struct KeyboardCandidate {
    pub path: String,
    pub name: String,
    /// Higher is better.
    pub priority: i32,
}

/// What a `KeyboardCandidate` says.
pub struct Candidate {
    pub path: Seq<char>,
    pub name: Seq<char>,
    pub priority: i32,
}

impl View for KeyboardCandidate {
    type V = Candidate;

    open spec fn view(&self) -> Candidate {
        Candidate { path: self.path@, name: self.name@, priority: self.priority }
    }
}

impl Clone for KeyboardCandidate {
    fn clone(&self) -> (copy: Self)
        ensures
            copy@ == self@,
    {
        KeyboardCandidate {
            path: self.path.clone(),
            name: self.name.clone(),
            priority: self.priority,
        }
    }
}

/// What each of the keyboards says.
pub open spec fn candidates(keyboards: Seq<KeyboardCandidate>) -> Seq<Candidate> {
    keyboards.map_values(|k: KeyboardCandidate| k@)
}

/// What was found out about an input device.
pub struct ProbedDevice<'a> {
    pub path: String,
    /// The name, if the device gives one.
    pub name: Option<String>,
    /// The keys that the device has, if it has any.
    pub keys: Option<&'a evdev::AttributeSetRef<evdev::KeyCode>>,
}

/// What a `ProbedDevice` says.
pub struct Probe {
    pub path: Seq<char>,
    pub name: Option<Seq<char>>,
    pub keys: Option<Set<u16>>,
}

impl<'a> View for ProbedDevice<'a> {
    type V = Probe;

    open spec fn view(&self) -> Probe {
        Probe {
            path: self.path@,
            name: match self.name {
                Some(name) => Some(name@),
                None => None,
            },
            keys: match self.keys {
                Some(keys) => Some(key_codes(keys)),
                None => None,
            },
        }
    }
}

/// What each of the devices says.
pub open spec fn probes<'a>(devices: Seq<ProbedDevice<'a>>) -> Seq<Probe> {
    devices.map_values(|d: ProbedDevice<'a>| d@)
}

/// A device with these keys is a keyboard of the kind that the daemon is for.
pub open spec fn is_keyboard(keys: Set<u16>) -> bool {
    keys.contains(KEY_A) && keys.contains(KEY_NUMLOCK)
}

/// The name, in lower case, is that of a device made up by a program.
pub open spec fn is_virtual(name_lower: Seq<char>) -> bool {
    contains_text(name_lower, "virtual"@) || contains_text(name_lower, "rust"@)
}

/// The name, in lower case, is that of a keyboard that was plugged in.
pub open spec fn is_external(name_lower: Seq<char>) -> bool {
    contains_text(name_lower, "usb"@) || contains_text(name_lower, "external"@)
}

/// The name, in lower case, is that of the keyboard of a laptop.
pub open spec fn is_built_in(name_lower: Seq<char>) -> bool {
    ||| contains_text(name_lower, "laptop"@)
    ||| contains_text(name_lower, "built-in"@)
    ||| contains_text(name_lower, "at translated"@)
    ||| contains_text(name_lower, "atkbd"@)
}

/// How many keys of the numpad are among the keys.
pub open spec fn numpad_count(keys: Set<u16>) -> nat {
    numpad().filter(|code: u16| keys.contains(code)).len()
}

/// How good a keyboard is: external ones before others and built-in ones
/// last, and the more of a numpad the better.
pub open spec fn priority(name_lower: Seq<char>, keys: Set<u16>) -> int {
    (if is_external(name_lower) {
        100int
    } else {
        0
    }) + (if contains_text(name_lower, "keyboard"@) {
        50int
    } else {
        0
    }) - (if is_built_in(name_lower) {
        50int
    } else {
        0
    }) + (if keys.contains(KEY_KP1) && keys.contains(KEY_KP5) {
        30int
    } else {
        0
    }) + numpad_count(keys) + (if numpad_count(keys) >= 12 {
        20int
    } else {
        0
    })
}

/// The name under which a device goes.
pub open spec fn name_of(device: Probe) -> Seq<char> {
    match device.name {
        Some(name) => name,
        None => "Unknown"@,
    }
}

/// The keyboard that a device is, if it is one that the daemon could use.
pub open spec fn candidate_on(device: Probe) -> Option<Candidate> {
    match device.keys {
        Some(keys) => if is_keyboard(keys) && !is_virtual(lower(name_of(device))) {
            Some(
                Candidate {
                    path: device.path,
                    name: name_of(device),
                    priority: priority(lower(name_of(device)), keys) as i32,
                },
            )
        } else {
            None
        },
        None => None,
    }
}

/// The keyboards among the devices, in their order.
pub open spec fn candidates_among(devices: Seq<Probe>) -> Seq<Candidate> {
    devices.filter_map(|d: Probe| candidate_on(d))
}

/// Those of the keyboards that have the priority `p`, in their order.
pub open spec fn of_priority(keyboards: Seq<Candidate>, p: i32) -> Seq<Candidate> {
    keyboards.filter(|k: Candidate| k.priority == p)
}

/// The keyboards stand by falling priority.
pub open spec fn is_sorted(keyboards: Seq<Candidate>) -> bool {
    forall|i: int, j: int|
        0 <= i < j < keyboards.len() ==> (#[trigger] keyboards[i]).priority >= (
        #[trigger] keyboards[j]).priority
}

/// `ranked` holds the keyboards of `found`, the best ones first, and equally
/// good ones in the order in which they were found.
pub open spec fn is_ranking(ranked: Seq<Candidate>, found: Seq<Candidate>) -> bool {
    &&& is_sorted(ranked)
    &&& forall|p: i32| #[trigger] of_priority(ranked, p) == of_priority(found, p)
}

/// Whether the file `name` in the directory of input devices is one that
/// delivers events.
pub fn is_event_node(name: &str) -> (is_node: bool)
    ensures
        is_node == occurs_at(name@, "event"@, 0),
{
    begins_with(name, "event")
}

/// The file is one that delivers events. A name that is no text says nothing.
pub open spec fn delivers_events(name: Option<String>) -> bool {
    name matches Some(text) && occurs_at(text@, "event"@, 0)
}

/// Which of the files in the directory of input devices is the first that
/// delivers events.
pub fn first_event_node(names: &Vec<Option<String>>) -> (first: Option<usize>)
    ensures
        match first {
            Some(i) => {
                &&& i < names.len()
                &&& delivers_events(names[i as int])
                &&& forall|j: int| 0 <= j < i ==> !delivers_events(#[trigger] names[j])
            },
            None => forall|j: int| 0 <= j < names.len() ==> !delivers_events(#[trigger] names[j]),
        },
{
    let mut i: usize = 0;
    while i < names.len()
        invariant
            i <= names.len(),
            forall|j: int| 0 <= j < i ==> !delivers_events(#[trigger] names[j]),
        decreases names.len() - i,
    {
        if let Some(name) = &names[i] {
            if is_event_node(name.as_str()) {
                return Some(i);
            }
        }
        i = i + 1;
    }
    None
}

/// Whether the name, in lower case, is that of a device made up by a program.
pub fn is_virtual_device(name_lower: &str) -> (made_up: bool)
    ensures
        made_up == is_virtual(name_lower@),
{
    let name = chars_of(name_lower);
    contains(&name, "virtual") || contains(&name, "rust")
}

/// How good a keyboard is that has this name, in lower case, and these keys.
pub fn calculate_keyboard_priority(
    name_lower: &str,
    keys: &evdev::AttributeSetRef<evdev::KeyCode>,
) -> (score: i32)
    ensures
        score == priority(name_lower@, key_codes(keys)),
{
    let name = chars_of(name_lower);
    let mut score: i32 = 0;
    if contains(&name, "usb") || contains(&name, "external") {
        score = score + 100;
    }
    if contains(&name, "keyboard") {
        score = score + 50;
    }
    if contains(&name, "laptop") || contains(&name, "built-in") || contains(&name, "at translated")
        || contains(&name, "atkbd") {
        score = score - 50;
    }
    if has_key(keys, KEY_KP1) && has_key(keys, KEY_KP5) {
        score = score + 30;
    }
    let count: i32 = count_numpad_keys(keys);
    score = score + count;
    if count >= 12 {
        score = score + 20;
    }
    score
}

/// How many keys of the numpad are among the keys.
fn count_numpad_keys(keys: &evdev::AttributeSetRef<evdev::KeyCode>) -> (count: i32)
    ensures
        count == numpad_count(key_codes(keys)),
        count <= 15,
{
    let all = numpad_keys();
    let ghost present = |code: u16| key_codes(keys).contains(code);
    let mut count: i32 = 0;
    let mut i: usize = 0;
    proof {
        reveal(Seq::filter);
    }
    while i < all.len()
        invariant
            i <= all.len() == 15,
            all@ == numpad(),
            present == (|code: u16| key_codes(keys).contains(code)),
            count == numpad().take(i as int).filter(present).len(),
            count <= i,
        decreases all.len() - i,
    {
        proof {
            reveal(Seq::filter);
            assert(numpad().take(i + 1).drop_last() == numpad().take(i as int));
        }
        if has_key(keys, all[i]) {
            count = count + 1;
        }
        i = i + 1;
    }
    assert(numpad().take(15) == numpad());
    count
}

/// The keyboard that a device is, if it is one that the daemon could use.
pub fn keyboard_on<'a>(device: &ProbedDevice<'a>) -> (keyboard: Option<KeyboardCandidate>)
    ensures
        match keyboard {
            Some(k) => candidate_on(device@) == Some(k@),
            None => candidate_on(device@) is None,
        },
{
    let keys = match device.keys {
        Some(keys) => keys,
        None => {
            return None;
        },
    };
    if !has_key(keys, KEY_A) || !has_key(keys, KEY_NUMLOCK) {
        return None;
    }
    let name: String = match &device.name {
        Some(name) => name.clone(),
        None => "Unknown".to_owned(),
    };
    let name_lower = to_lowercase(name.as_str());
    if is_virtual_device(name_lower.as_str()) {
        return None;
    }
    let score: i32 = calculate_keyboard_priority(name_lower.as_str(), keys);
    Some(KeyboardCandidate { path: device.path.clone(), name, priority: score })
}

proof fn lemma_nothing_of_priority(keyboards: Seq<Candidate>, p: i32)
    requires
        forall|i: int| 0 <= i < keyboards.len() ==> (#[trigger] keyboards[i]).priority != p,
    ensures
        of_priority(keyboards, p) == Seq::<Candidate>::empty(),
    decreases keyboards.len(),
{
    reveal(Seq::filter);
    if keyboards.len() > 0 {
        lemma_nothing_of_priority(keyboards.drop_last(), p);
    }
}

proof fn lemma_push_of_priority(keyboards: Seq<Candidate>, k: Candidate, p: i32)
    ensures
        of_priority(keyboards.push(k), p) == if k.priority == p {
            of_priority(keyboards, p).push(k)
        } else {
            of_priority(keyboards, p)
        },
{
    reveal(Seq::filter);
    assert(keyboards.push(k).drop_last() == keyboards);
}

proof fn lemma_insert_of_priority(
    better: Seq<Candidate>,
    worse: Seq<Candidate>,
    k: Candidate,
    p: i32,
)
    requires
        forall|i: int| 0 <= i < worse.len() ==> (#[trigger] worse[i]).priority < k.priority,
    ensures
        of_priority(better.push(k) + worse, p) == of_priority((better + worse).push(k), p),
{
    let pred = |c: Candidate| c.priority == p;
    Seq::filter_distributes_over_add(better.push(k), worse, pred);
    Seq::filter_distributes_over_add(better, worse, pred);
    lemma_push_of_priority(better, k, p);
    lemma_push_of_priority(better + worse, k, p);
    let before = of_priority(better, p);
    let after = of_priority(worse, p);
    assert(of_priority(better + worse, p) == before + after);
    if p == k.priority {
        lemma_nothing_of_priority(worse, p);
        assert(before.push(k) + after =~= (before + after).push(k));
    }
}

/// A keyboard that goes before exactly those that are worse is in its place.
proof fn lemma_insert_ranks(ranked: Seq<Candidate>, at: int, k: Candidate)
    requires
        is_sorted(ranked),
        0 <= at <= ranked.len(),
        forall|i: int| 0 <= i < at ==> (#[trigger] ranked[i]).priority >= k.priority,
        forall|i: int| at <= i < ranked.len() ==> (#[trigger] ranked[i]).priority < k.priority,
    ensures
        is_ranking(ranked.insert(at, k), ranked.push(k)),
{
    let new = ranked.insert(at, k);
    let better = ranked.subrange(0, at);
    let worse = ranked.subrange(at, ranked.len() as int);
    assert(new =~= better.push(k) + worse);
    assert(ranked =~= better + worse);
    assert forall|p: i32| #[trigger] of_priority(new, p) == of_priority(ranked.push(k), p) by {
        lemma_insert_of_priority(better, worse, k, p);
    }
    assert forall|i: int, j: int| 0 <= i < j < new.len() implies (#[trigger] new[i]).priority >= (
    #[trigger] new[j]).priority by {
        let x = if i < at {
            ranked[i]
        } else if i == at {
            k
        } else {
            ranked[i - 1]
        };
        let y = if j < at {
            ranked[j]
        } else if j == at {
            k
        } else {
            ranked[j - 1]
        };
        assert(new[i] == x && new[j] == y);
    }
}

/// Puts a keyboard in its place among the ranked ones, behind those that are
/// as good.
fn insert_ranked(ranked: &mut Vec<KeyboardCandidate>, keyboard: KeyboardCandidate)
    requires
        is_sorted(candidates(old(ranked)@)),
    ensures
        is_ranking(candidates(final(ranked)@), candidates(old(ranked)@).push(keyboard@)),
{
    let ghost before = candidates(ranked@);
    let mut at: usize = 0;
    while at < ranked.len() && ranked[at].priority >= keyboard.priority
        invariant
            at <= ranked.len(),
            ranked@ == old(ranked)@,
            before == candidates(ranked@),
            forall|i: int| 0 <= i < at ==> (#[trigger] before[i]).priority >= keyboard.priority,
        decreases ranked.len() - at,
    {
        assert(before[at as int] == ranked[at as int]@);
        at = at + 1;
    }
    proof {
        assert forall|i: int| at <= i < before.len() implies (#[trigger] before[i]).priority
            < keyboard.priority by {
            assert(before[at as int] == ranked[at as int]@);
            assert(before[at as int].priority >= before[i].priority || i == at);
        }
        lemma_insert_ranks(before, at as int, keyboard@);
    }
    ranked.insert(at, keyboard);
    assert(candidates(ranked@) == before.insert(at as int, keyboard@));
}

/// The keyboards among the devices that the daemon could use, the best one
/// first.
pub fn find_all_keyboards<'a>(devices: &Vec<ProbedDevice<'a>>) -> (keyboards: Vec<
    KeyboardCandidate,
>)
    ensures
        is_ranking(candidates(keyboards@), candidates_among(probes(devices@))),
        forall|i: int, j: int|
            0 <= i < j < keyboards.len() ==> (#[trigger] keyboards[i]).priority >= (
            #[trigger] keyboards[j]).priority,
        forall|i: int|
            0 <= i < devices.len() && is_usable((#[trigger] devices[i])@) ==> exists|j: int|
                0 <= j < keyboards.len() && describes(#[trigger] keyboards[j]@, devices[i]@),
        forall|j: int|
            0 <= j < keyboards.len() ==> comes_from((#[trigger] keyboards[j])@, probes(devices@)),
{
    let mut ranked: Vec<KeyboardCandidate> = Vec::new();
    let mut i: usize = 0;
    assert(candidates(ranked@) == Seq::<Candidate>::empty());
    assert(probes(devices@).take(0) == Seq::<Probe>::empty());
    while i < devices.len()
        invariant
            i <= devices.len(),
            is_ranking(
                candidates(ranked@),
                candidates_among(probes(devices@).take(i as int)),
            ),
        decreases devices.len() - i,
    {
        let ghost found = candidates_among(probes(devices@).take(i as int));
        let ghost before = candidates(ranked@);
        proof {
            assert(probes(devices@).take(i + 1).drop_last() == probes(devices@).take(i as int));
        }
        if let Some(keyboard) = keyboard_on(&devices[i]) {
            let ghost k = keyboard@;
            insert_ranked(&mut ranked, keyboard);
            proof {
                assert(candidates_among(probes(devices@).take(i + 1)) == found + seq![k]);
                assert(found + seq![k] == found.push(k));
                assert forall|p: i32| #[trigger]
                    of_priority(candidates(ranked@), p) == of_priority(found.push(k), p) by {
                    lemma_push_of_priority(before, k, p);
                    lemma_push_of_priority(found, k, p);
                    assert(of_priority(before, p) == of_priority(found, p));
                }
            }
        }
        i = i + 1;
    }
    assert(probes(devices@).take(i as int) == probes(devices@));
    proof {
        let all = probes(devices@);
        let found = candidates_among(all);
        assert forall|i: int, j: int| 0 <= i < j < ranked.len() implies (
        #[trigger] ranked[i]).priority >= (#[trigger] ranked[j]).priority by {
            assert(candidates(ranked@)[i].priority >= candidates(ranked@)[j].priority);
        }
        assert forall|i: int|
            0 <= i < devices.len() && is_usable((#[trigger] devices[i])@) implies exists|j: int|
            0 <= j < ranked.len() && describes(#[trigger] ranked[j]@, devices[i]@) by {
            assert(all[i] == devices[i]@);
            let k = law_every_keyboard_is_found(all, i);
            law_ranking_keeps_keyboards(candidates(ranked@), found, k);
            let j = choose|j: int|
                0 <= j < candidates(ranked@).len() && candidates(ranked@)[j] == k;
            assert(ranked[j]@ == k);
        }
        assert forall|j: int| 0 <= j < ranked.len() implies comes_from(
            (#[trigger] ranked[j])@,
            all,
        ) by {
            let k = ranked[j]@;
            assert(candidates(ranked@)[j] == k);
            law_ranking_keeps_keyboards(candidates(ranked@), found, k);
            let i = law_nothing_else_is_found(all, k);
            assert(is_usable(all[i]) && describes(k, all[i]));
        }
    }
    ranked
}

/// The keyboard to use, of those that were found, the best one first.
pub fn best_keyboard(keyboards: Vec<KeyboardCandidate>) -> (best: Option<KeyboardCandidate>)
    ensures
        best == if keyboards.len() > 0 {
            Some(keyboards[0])
        } else {
            None
        },
{
    let mut keyboards = keyboards;
    if keyboards.len() == 0 {
        None
    } else {
        Some(keyboards.remove(0))
    }
}

/// What the daemon gives a session up with when there is no keyboard to use.
pub fn no_keyboard_message() -> (message: &'static str)
    ensures
        message@ == "No suitable keyboard found"@,
{
    "No suitable keyboard found"
}

/// The name of the keyboard that the daemon makes up.
pub open spec fn own_keyboard_name() -> Seq<char> {
    "Rust Virtual Keyboard"@
}

/// The name of the mouse that the daemon makes up.
pub open spec fn own_mouse_name() -> Seq<char> {
    "Rust Virtual Mouse"@
}

pub fn virtual_keyboard_name() -> (name: &'static str)
    ensures
        name@ == own_keyboard_name(),
{
    "Rust Virtual Keyboard"
}

pub fn virtual_mouse_name() -> (name: &'static str)
    ensures
        name@ == own_mouse_name(),
{
    "Rust Virtual Mouse"
}

/// The daemon never takes the devices that it made up itself for keyboards to
/// use.
pub proof fn law_own_devices_are_passed_over(device: Probe)
    requires
        device.name == Some(own_keyboard_name()) || device.name == Some(own_mouse_name()),
    ensures
        candidate_on(device) is None,
{
    reveal_strlit("Rust Virtual Keyboard");
    reveal_strlit("Rust Virtual Mouse");
    reveal_strlit("rust");
    let name = name_of(device);
    assert(all_ascii(name));
    assert(lower(name).subrange(0, 4) =~= "rust"@);
    assert(occurs_at(lower(name), "rust"@, 0));
}

/// How many of the codes are in `more` but not in `keys`.
pub open spec fn count_added(codes: Seq<u16>, keys: Set<u16>, more: Set<u16>) -> nat {
    codes.filter(|code: u16| more.contains(code) && !keys.contains(code)).len()
}

proof fn lemma_counts_add_up(codes: Seq<u16>, keys: Set<u16>, more: Set<u16>)
    requires
        keys.subset_of(more),
    ensures
        codes.filter(|code: u16| more.contains(code)).len() == codes.filter(
            |code: u16| keys.contains(code),
        ).len() + count_added(codes, keys, more),
        codes.filter(|code: u16| more.contains(code)).len() <= codes.len(),
        count_added(codes, keys, more) == 0 ==> forall|i: int|
            0 <= i < codes.len() && more.contains(#[trigger] codes[i]) ==> keys.contains(codes[i]),
    decreases codes.len(),
{
    reveal(Seq::filter);
    if codes.len() > 0 {
        let front = codes.drop_last();
        lemma_counts_add_up(front, keys, more);
        if count_added(codes, keys, more) == 0 {
            assert forall|i: int|
                0 <= i < codes.len() && more.contains(#[trigger] codes[i]) implies keys.contains(
                codes[i],
            ) by {
                if i < front.len() {
                    assert(codes[i] == front[i]);
                }
            }
        }
    }
}

/// A priority is never below -50 nor above 215.
pub proof fn law_priority_is_bounded(name_lower: Seq<char>, keys: Set<u16>)
    ensures
        -50 <= priority(name_lower, keys) <= 215,
{
    lemma_counts_add_up(numpad(), keys, keys);
}

/// Each key of the numpad that a keyboard has more than another of the same
/// name makes it better by at least one, and keys beside the numpad make no
/// difference.
pub proof fn law_more_keys_are_better(name_lower: Seq<char>, keys: Set<u16>, more: Set<u16>)
    requires
        keys.subset_of(more),
    ensures
        priority(name_lower, more) >= priority(name_lower, keys) + count_added(
            numpad(),
            keys,
            more,
        ),
        count_added(numpad(), keys, more) == 0 ==> priority(name_lower, more) == priority(
            name_lower,
            keys,
        ),
{
    lemma_counts_add_up(numpad(), keys, more);
    assert(numpad()[0] == KEY_KP1 && numpad()[4] == KEY_KP5);
}

/// An external keyboard is preferred over a built-in one, whatever keys the
/// two have.
pub proof fn law_external_before_built_in(
    external: Seq<char>,
    external_keys: Set<u16>,
    built_in: Seq<char>,
    built_in_keys: Set<u16>,
)
    requires
        is_external(external),
        !is_built_in(external),
        is_built_in(built_in),
        !is_external(built_in),
    ensures
        priority(external, external_keys) > priority(built_in, built_in_keys),
{
    lemma_counts_add_up(numpad(), external_keys, external_keys);
    lemma_counts_add_up(numpad(), built_in_keys, built_in_keys);
}

proof fn lemma_of_priority_contains(keyboards: Seq<Candidate>, k: Candidate)
    ensures
        keyboards.contains(k) <==> of_priority(keyboards, k.priority).contains(k),
{
    let pred = |c: Candidate| c.priority == k.priority;
    if keyboards.contains(k) {
        let i = choose|i: int| 0 <= i < keyboards.len() && keyboards[i] == k;
        keyboards.lemma_filter_contains(pred, i);
    }
    if of_priority(keyboards, k.priority).contains(k) {
        keyboards.lemma_filter_contains_rev(pred, k);
    }
}

/// A ranking holds the keyboards that were found, and no others.
pub proof fn law_ranking_keeps_keyboards(ranked: Seq<Candidate>, found: Seq<Candidate>, k: Candidate)
    requires
        is_ranking(ranked, found),
    ensures
        ranked.contains(k) <==> found.contains(k),
{
    lemma_of_priority_contains(ranked, k);
    lemma_of_priority_contains(found, k);
    assert(of_priority(ranked, k.priority) == of_priority(found, k.priority));
}

/// The first keyboard of a ranking is as good as any that was found, and of
/// those that are as good it was found first.
pub proof fn law_best_keyboard_is_first(ranked: Seq<Candidate>, found: Seq<Candidate>, k: Candidate)
    requires
        is_ranking(ranked, found),
        found.contains(k),
    ensures
        ranked.len() > 0,
        ranked.first().priority >= k.priority,
        of_priority(found, ranked.first().priority).first() == ranked.first(),
{
    law_ranking_keeps_keyboards(ranked, found, k);
    let best = ranked.first();
    let rest = ranked.drop_first();
    assert(ranked == seq![best] + rest);
    let pred = |c: Candidate| c.priority == best.priority;
    Seq::filter_distributes_over_add(seq![best], rest, pred);
    lemma_push_of_priority(Seq::empty(), best, best.priority);
    assert(Seq::<Candidate>::empty().push(best) == seq![best]);
    assert(of_priority(ranked, best.priority) == of_priority(found, best.priority));
}

proof fn lemma_last_in_its_priority(keyboards: Seq<Candidate>)
    requires
        keyboards.len() > 0,
    ensures
        of_priority(keyboards, keyboards.last().priority) == of_priority(
            keyboards.drop_last(),
            keyboards.last().priority,
        ).push(keyboards.last()),
        forall|p: i32|
            p != keyboards.last().priority ==> #[trigger] of_priority(keyboards, p)
                == of_priority(keyboards.drop_last(), p),
{
    let k = keyboards.last();
    assert(keyboards == keyboards.drop_last().push(k));
    lemma_push_of_priority(keyboards.drop_last(), k, k.priority);
    assert forall|p: i32| p != k.priority implies #[trigger] of_priority(keyboards, p)
        == of_priority(keyboards.drop_last(), p) by {
        lemma_push_of_priority(keyboards.drop_last(), k, p);
    }
}

proof fn lemma_worst_priority(a: Seq<Candidate>, b: Seq<Candidate>)
    requires
        is_sorted(b),
        a.len() > 0,
        forall|p: i32| #[trigger] of_priority(a, p) == of_priority(b, p),
    ensures
        b.len() > 0,
        b.last().priority <= a.last().priority,
{
    let k = a.last();
    lemma_of_priority_contains(a, k);
    lemma_of_priority_contains(b, k);
    assert(a[a.len() - 1] == k);
    assert(of_priority(a, k.priority) == of_priority(b, k.priority));
    let i = choose|i: int| 0 <= i < b.len() && b[i] == k;
    assert(i == b.len() - 1 || b[i].priority >= b[b.len() - 1].priority);
}

proof fn lemma_same_by_priority(a: Seq<Candidate>, b: Seq<Candidate>)
    requires
        is_sorted(a),
        is_sorted(b),
        forall|p: i32| #[trigger] of_priority(a, p) == of_priority(b, p),
    ensures
        a == b,
    decreases a.len(),
{
    if a.len() == 0 {
        if b.len() > 0 {
            lemma_worst_priority(b, a);
        }
    } else {
        lemma_worst_priority(a, b);
        lemma_worst_priority(b, a);
        let p = a.last().priority;
        lemma_last_in_its_priority(a);
        lemma_last_in_its_priority(b);
        assert(of_priority(a, p) == of_priority(b, p));
        assert(of_priority(a, p).last() == a.last());
        assert(of_priority(b, p).last() == b.last());
        assert(of_priority(a, p).drop_last() == of_priority(a.drop_last(), p));
        assert(of_priority(b, p).drop_last() == of_priority(b.drop_last(), p));
        assert forall|q: i32| #[trigger]
            of_priority(a.drop_last(), q) == of_priority(b.drop_last(), q) by {
            assert(of_priority(a, q) == of_priority(b, q));
        }
        lemma_same_by_priority(a.drop_last(), b.drop_last());
        assert(a == a.drop_last().push(a.last()));
        assert(b == b.drop_last().push(b.last()));
    }
}

/// There is one way only to rank the keyboards that were found.
pub proof fn law_ranking_is_unique(
    ranked: Seq<Candidate>,
    other: Seq<Candidate>,
    found: Seq<Candidate>,
)
    requires
        is_ranking(ranked, found),
        is_ranking(other, found),
    ensures
        ranked == other,
{
    assert forall|p: i32| #[trigger] of_priority(ranked, p) == of_priority(other, p) by {
        assert(of_priority(ranked, p) == of_priority(found, p));
        assert(of_priority(other, p) == of_priority(found, p));
    }
    lemma_same_by_priority(ranked, other);
}

/// The name of the device, in lower case, or that of a device without a name.
pub open spec fn goes_by(device: Probe) -> Seq<char> {
    lower(
        match device.name {
            Some(name) => name,
            None => "Unknown"@,
        },
    )
}

/// The device has the keys A and NumLock, and its name has neither of the
/// words in it that tell a device made up by a program.
pub open spec fn is_usable(device: Probe) -> bool {
    &&& device.keys matches Some(keys) && keys.contains(30) && keys.contains(69)
    &&& !contains_text(goes_by(device), "virtual"@)
    &&& !contains_text(goes_by(device), "rust"@)
}

/// The keyboard has the path, the name and the priority of the device.
pub open spec fn describes(keyboard: Candidate, device: Probe) -> bool {
    &&& keyboard.path == device.path
    &&& keyboard.name == match device.name {
        Some(name) => name,
        None => "Unknown"@,
    }
    &&& device.keys matches Some(keys) && keyboard.priority as int == priority(
        goes_by(device),
        keys,
    )
}

/// The keyboard is one of the usable devices.
pub open spec fn comes_from(keyboard: Candidate, devices: Seq<Probe>) -> bool {
    exists|i: int|
        0 <= i < devices.len() && is_usable(#[trigger] devices[i]) && describes(
            keyboard,
            devices[i],
        )
}

/// A device is a keyboard that the daemon could use exactly if it has the keys
/// and not the name of a made-up one; the keyboard then has its path, its name
/// and its priority.
pub proof fn law_usable_devices_are_keyboards(device: Probe)
    ensures
        candidate_on(device) is Some <==> is_usable(device),
        candidate_on(device) matches Some(k) ==> describes(k, device),
{
    if let Some(keys) = device.keys {
        law_priority_is_bounded(goes_by(device), keys);
    }
}

/// Every usable device is found, wherever it stands among however many.
pub proof fn law_every_keyboard_is_found(devices: Seq<Probe>, i: int) -> (keyboard: Candidate)
    requires
        0 <= i < devices.len(),
        is_usable(devices[i]),
    ensures
        describes(keyboard, devices[i]),
        candidates_among(devices).contains(keyboard),
    decreases devices.len(),
{
    law_usable_devices_are_keyboards(devices[i]);
    let k = candidate_on(devices[i])->0;
    let front = devices.drop_last();
    let found = candidates_among(devices);
    if i < front.len() {
        assert(front[i] == devices[i]);
        let earlier = law_every_keyboard_is_found(front, i);
        let before = candidates_among(front);
        let j = choose|j: int| 0 <= j < before.len() && before[j] == earlier;
        assert(found[j] == earlier);
        earlier
    } else {
        assert(found == candidates_among(front) + seq![k]);
        assert(found[found.len() - 1] == k);
        k
    }
}

/// Every keyboard that is found is one of the usable devices.
pub proof fn law_nothing_else_is_found(devices: Seq<Probe>, keyboard: Candidate) -> (i: int)
    requires
        candidates_among(devices).contains(keyboard),
    ensures
        0 <= i < devices.len(),
        is_usable(devices[i]),
        describes(keyboard, devices[i]),
    decreases devices.len(),
{
    let found = candidates_among(devices);
    let j = choose|j: int| 0 <= j < found.len() && found[j] == keyboard;
    let front = devices.drop_last();
    let before = candidates_among(front);
    law_usable_devices_are_keyboards(devices.last());
    if j < before.len() {
        assert(before[j] == keyboard);
        law_nothing_else_is_found(front, keyboard)
    } else {
        devices.len() - 1
    }
}

/// Searching one lot of devices and then another finds what searching both
/// together does, in the same order, and each usable device once.
pub proof fn law_search_in_two_parts(first: Seq<Probe>, second: Seq<Probe>, device: Probe)
    ensures
        candidates_among(first + second) == candidates_among(first) + candidates_among(second),
        candidates_among(seq![device]).len() == if is_usable(device) {
            1nat
        } else {
            0nat
        },
        candidates_among(Seq::empty()).len() == 0,
    decreases second.len(),
{
    law_usable_devices_are_keyboards(device);
    Seq::<Probe>::lemma_filter_map_singleton(device, |d: Probe| candidate_on(d));
    if second.len() == 0 {
        assert(first + second =~= first);
        assert(candidates_among(first) + candidates_among(second) =~= candidates_among(first));
    } else {
        assert((first + second).drop_last() =~= first + second.drop_last());
        law_search_in_two_parts(first, second.drop_last(), device);
        assert(candidates_among(first + second) =~= candidates_among(first) + candidates_among(
            second,
        ));
    }
}

/// In a ranking no keyboard stands before a better one, and those of each
/// priority are those that were found, as often and in the same order.
pub proof fn law_rankings(ranked: Seq<Candidate>, found: Seq<Candidate>, i: int, j: int, p: i32)
    requires
        is_ranking(ranked, found),
        0 <= i < j < ranked.len(),
    ensures
        ranked[i].priority >= ranked[j].priority,
        ranked.filter(|k: Candidate| k.priority == p) == found.filter(
            |k: Candidate| k.priority == p,
        ),
{
    assert(of_priority(ranked, p) == of_priority(found, p));
}

/// What keyboards and devices are said to be is what stands in their fields,
/// one by one.
pub proof fn law_keyboards_are_their_fields<'a>(
    keyboards: Seq<KeyboardCandidate>,
    devices: Seq<ProbedDevice<'a>>,
    i: int,
)
    ensures
        candidates(keyboards).len() == keyboards.len(),
        probes(devices).len() == devices.len(),
        0 <= i < keyboards.len() ==> {
            &&& candidates(keyboards)[i].path == keyboards[i].path@
            &&& candidates(keyboards)[i].name == keyboards[i].name@
            &&& candidates(keyboards)[i].priority == keyboards[i].priority
        },
        0 <= i < devices.len() ==> {
            &&& probes(devices)[i].path == devices[i].path@
            &&& devices[i].name matches Some(name) ==> probes(devices)[i].name == Some(name@)
            &&& devices[i].name is None ==> probes(devices)[i].name is None
            &&& devices[i].keys matches Some(keys) ==> probes(devices)[i].keys == Some(
                key_codes(keys),
            )
            &&& devices[i].keys is None ==> probes(devices)[i].keys is None
        },
{
}

proof fn lemma_count_of_one(codes: Seq<u16>, keys: Set<u16>, code: u16)
    requires
        codes.no_duplicates(),
        !keys.contains(code),
    ensures
        count_added(codes, keys, keys.insert(code)) == if codes.contains(code) {
            1nat
        } else {
            0nat
        },
    decreases codes.len(),
{
    reveal(Seq::filter);
    if codes.len() > 0 {
        let front = codes.drop_last();
        assert forall|i: int, j: int| 0 <= i < front.len() && 0 <= j < front.len() && i
            != j implies front[i] != front[j] by {
            assert(codes[i] != codes[j]);
        }
        lemma_count_of_one(front, keys, code);
        if codes.contains(code) {
            let i = choose|i: int| 0 <= i < codes.len() && codes[i] == code;
            if i < front.len() {
                assert(front[i] == code);
                assert(codes.last() != code);
            } else {
                assert(!front.contains(code)) by {
                    if front.contains(code) {
                        let j = choose|j: int| 0 <= j < front.len() && front[j] == code;
                        assert(codes[j] == codes[i]);
                    }
                }
            }
        } else {
            assert(codes[codes.len() - 1] != code);
            if front.contains(code) {
                let j = choose|j: int| 0 <= j < front.len() && front[j] == code;
                assert(codes[j] == code);
            }
        }
    }
}

/// Keys of the numpad are counted one by one: none among no keys, and each
/// that comes to others adds one, while other keys add nothing.
pub proof fn law_numpad_is_counted(keys: Set<u16>, code: u16)
    requires
        !keys.contains(code),
    ensures
        numpad_count(Set::empty()) == 0,
        numpad_count(keys.insert(code)) == numpad_count(keys) + if steers_mouse(code) {
            1nat
        } else {
            0nat
        },
{
    law_numpad_is_what_steers(code);
    lemma_counts_add_up(numpad(), keys, keys.insert(code));
    lemma_count_of_one(numpad(), keys, code);
    lemma_nothing_counts(numpad());
}

proof fn lemma_nothing_counts(codes: Seq<u16>)
    ensures
        codes.filter(|code: u16| Set::<u16>::empty().contains(code)).len() == 0,
    decreases codes.len(),
{
    reveal(Seq::filter);
    if codes.len() > 0 {
        lemma_nothing_counts(codes.drop_last());
    }
}

/// `name` has `word` somewhere in it.
pub open spec fn has_word(name: Seq<char>, word: Seq<char>) -> bool {
    exists|before: Seq<char>, after: Seq<char>| name == #[trigger] (before + word + after)
}

proof fn lemma_has_word(name: Seq<char>, word: Seq<char>)
    ensures
        has_word(name, word) <==> contains_text(name, word),
{
    law_what_is_found_is_there(name, word);
    if has_word(name, word) {
        let (before, after) = choose|before: Seq<char>, after: Seq<char>|
            name == #[trigger] (before + word + after);
        law_searching_finds_parts(before, word, after);
    }
}

/// What a name counts for: 100 for either word for an external keyboard, 50
/// for the word keyboard, and minus 50 for any of the words for a built-in
/// one, wherever the words stand in the name. It counts the same with all
/// keys, and nothing counts beside the name and the keys.
pub proof fn law_names_count(name: Seq<char>, keys: Set<u16>, others: Set<u16>)
    ensures
        priority(name, keys) - priority(Seq::empty(), keys) == (if has_word(name, "usb"@)
            || has_word(name, "external"@) {
            100int
        } else {
            0
        }) + (if has_word(name, "keyboard"@) {
            50int
        } else {
            0
        }) - (if has_word(name, "laptop"@) || has_word(name, "built-in"@) || has_word(
            name,
            "at translated"@,
        ) || has_word(name, "atkbd"@) {
            50int
        } else {
            0
        }),
        priority(name, keys) - priority(name, others) == priority(Seq::empty(), keys) - priority(
            Seq::empty(),
            others,
        ),
{
    lemma_has_word(name, "usb"@);
    lemma_has_word(name, "external"@);
    lemma_has_word(name, "keyboard"@);
    lemma_has_word(name, "laptop"@);
    lemma_has_word(name, "built-in"@);
    lemma_has_word(name, "at translated"@);
    lemma_has_word(name, "atkbd"@);
    lemma_empty_name();
}

proof fn lemma_empty_name()
    ensures
        !contains_text(Seq::empty(), "usb"@),
        !contains_text(Seq::empty(), "external"@),
        !contains_text(Seq::empty(), "keyboard"@),
        !contains_text(Seq::empty(), "laptop"@),
        !contains_text(Seq::empty(), "built-in"@),
        !contains_text(Seq::empty(), "at translated"@),
        !contains_text(Seq::empty(), "atkbd"@),
{
    reveal_strlit("usb");
    reveal_strlit("external");
    reveal_strlit("keyboard");
    reveal_strlit("laptop");
    reveal_strlit("built-in");
    reveal_strlit("at translated");
    reveal_strlit("atkbd");
}

/// What keys count for: a keyboard without a name and without keys has the
/// priority 0. A key that comes to others adds 1 if it is one of the numpad,
/// 20 if it is the twelfth of them, and 30 if it makes the pair of 1 and 5
/// complete; any other key adds nothing.
pub proof fn law_keys_count(name: Seq<char>, keys: Set<u16>, code: u16)
    requires
        !keys.contains(code),
    ensures
        priority(Seq::empty(), Set::empty()) == 0,
        priority(name, keys.insert(code)) - priority(name, keys) == (if steers_mouse(code) {
            1int
        } else {
            0
        }) + (if steers_mouse(code) && numpad_count(keys) == 11 {
            20int
        } else {
            0
        }) + (if (code == KEY_KP1 && keys.contains(KEY_KP5)) || (code == KEY_KP5 && keys.contains(
            KEY_KP1,
        )) {
            30int
        } else {
            0
        }),
{
    law_numpad_is_counted(keys, code);
    lemma_empty_name();
}

/// A device is made up by a program if its name has either of the two words
/// anywhere in it.
pub proof fn law_made_up_names(name: Seq<char>)
    ensures
        is_virtual(name) <==> has_word(name, "virtual"@) || has_word(name, "rust"@),
{
    lemma_has_word(name, "virtual"@);
    lemma_has_word(name, "rust"@);
}

/// A file delivers events exactly if its name is a text that starts with the
/// word for it, whatever follows.
pub proof fn law_event_nodes(text: String, rest: Seq<char>)
    ensures
        !delivers_events(None),
        text@ == "event"@ + rest ==> delivers_events(Some(text)),
        delivers_events(Some(text)) ==> text@ == "event"@ + text@.skip("event"@.len() as int),
{
    if text@ == "event"@ + rest {
        assert(text@.subrange(0, "event"@.len() as int) =~= "event"@);
    }
    if delivers_events(Some(text)) {
        assert(text@ =~= text@.subrange(0, "event"@.len() as int) + text@.skip(
            "event"@.len() as int,
        ));
    }
}

/// A device with a name and keys is a keyboard that the daemon could use
/// exactly if A and NumLock are among the keys and neither of the two words
/// stands anywhere in its name in lower case. The keyboard then has the path
/// and the name as they are, and the priority that goes with the name and the
/// keys.
pub proof fn law_named_devices(path: Seq<char>, name: Seq<char>, keys: Set<u16>)
    ensures
        ({
            let device = Probe { path, name: Some(name), keys: Some(keys) };
            &&& candidate_on(device) is Some <==> {
                &&& keys.contains(30)
                &&& keys.contains(69)
                &&& !exists|before: Seq<char>, after: Seq<char>|
                    lower(name) == #[trigger] (before + "virtual"@ + after)
                &&& !exists|before: Seq<char>, after: Seq<char>|
                    lower(name) == #[trigger] (before + "rust"@ + after)
            }
            &&& candidate_on(device) matches Some(k) ==> {
                &&& k.path == path
                &&& k.name == name
                &&& k.priority as int == priority(lower(name), keys)
            }
        }),
{
    lemma_has_word(lower(name), "virtual"@);
    lemma_has_word(lower(name), "rust"@);
    law_priority_is_bounded(lower(name), keys);
}

/// A device without a name goes by the name Unknown, and one without keys is
/// no keyboard.
pub proof fn law_nameless_devices(path: Seq<char>, name: Option<Seq<char>>, keys: Set<u16>)
    ensures
        candidate_on(Probe { path, name: None, keys: Some(keys) }) == candidate_on(
            Probe { path, name: Some("Unknown"@), keys: Some(keys) },
        ),
        candidate_on(Probe { path, name, keys: None }) is None,
{
}

/// A search finds, of each lot of devices put together, what it finds of each
/// alone, in order; and of a single device what that is.
pub proof fn law_search_one_by_one(devices: Seq<Probe>, device: Probe)
    ensures
        candidates_among(devices.push(device)) == match candidate_on(device) {
            Some(k) => candidates_among(devices).push(k),
            None => candidates_among(devices),
        },
        candidates_among(Seq::empty()) == Seq::<Candidate>::empty(),
{
    assert(devices.push(device).drop_last() =~= devices);
}

} // verus!
