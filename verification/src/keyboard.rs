//! The keyboard. wtype speaks the virtual-keyboard protocol and comes first; ydotool goes through
//! uinput and is the fallback.
use crate::keymap::{
    code_of, keycode, keysym, keysym_of, lemma_code_names_key, lemma_named_key_has_code,
    lemma_names_are_not_empty, name_of,
};
use crate::platform::{
    command_line, fails_with, lemma_fails_with, Command, CommandLine, NovaError, OutputView, Reason,
};
use crate::script::{
    after_reply, guarded, lemma_attempt_ends_or_goes_on, next_request, no_steps, push_step,
    step_views, Progress, ReplyView, RequestView, Step, StepView,
};
use crate::text::{
    all_digits, append_digits, digits, fields, is_digit, lemma_digits_read_back, lemma_fields_next,
    lemma_fields_single, number, same_text, texts,
};
use vstd::prelude::*;
use vstd::string::*;

verus! {

/* ── Typing ─────────────────────────────────────────────────────── */

/// The script that types a text.
pub open spec fn type_script(text: Seq<char>) -> Seq<StepView> {
    seq![
        StepView::Attempt(command_line("wtype"@, seq![text])),
        StepView::NeedYdotool,
        StepView::Run(command_line("ydotool"@, seq!["type"@, "--key-delay"@, "12"@, text])),
    ]
}

/// Types a text.
pub fn type_text(text: &str) -> (steps: Vec<Step>)
    ensures
        step_views(steps@) == type_script(text@),
{
    let first = Command::new("wtype").arg(text);
    assert(first@.args =~= seq![text@]);
    let fallback = Command::new("ydotool").arg("type").arg("--key-delay").arg("12").arg(text);
    assert(fallback@.args =~= seq!["type"@, "--key-delay"@, "12"@, text@]);
    let mut steps = no_steps();
    push_step(&mut steps, Step::Attempt(first));
    push_step(&mut steps, Step::NeedYdotool);
    push_step(&mut steps, Step::Run(fallback));
    assert(step_views(steps@) =~= type_script(text@));
    steps
}

/* ── Key combos ─────────────────────────────────────────────────── */

/// Whether a key is a modifier.
pub open spec fn is_modifier(name: Seq<char>) -> bool {
    name == "ctrl"@ || name == "alt"@ || name == "shift"@ || name == "super"@
}

/// The modifiers of a combo, in order.
pub open spec fn modifiers(parts: Seq<Seq<char>>) -> Seq<Seq<char>> {
    parts.filter(|p: Seq<char>| is_modifier(p))
}

/// The keys of a combo that are no modifiers, in order.
pub open spec fn plain_keys(parts: Seq<Seq<char>>) -> Seq<Seq<char>> {
    parts.filter(|p: Seq<char>| !is_modifier(p))
}

/// What wtype calls a modifier.
pub open spec fn wtype_modifier(name: Seq<char>) -> Seq<char> {
    if name == "super"@ {
        "logo"@
    } else {
        name
    }
}

/// Each of the names, with a flag in front of it.
pub open spec fn flagged(flag: Seq<char>, names: Seq<Seq<char>>) -> Seq<Seq<char>> {
    Seq::new(
        2 * names.len(),
        |i: int|
            if i % 2 == 0 {
                flag
            } else {
                names[i / 2]
            },
    )
}

/// The arguments of wtype for a combo: modifiers down, keys tapped, modifiers up in reverse order.
pub open spec fn wtype_args(mods: Seq<Seq<char>>, keys: Seq<Seq<char>>) -> Seq<Seq<char>> {
    let names = mods.map_values(|m: Seq<char>| wtype_modifier(m));
    flagged("-M"@, names) + flagged("-k"@, keys.map_values(|k: Seq<char>| keysym_of(k))) + flagged(
        "-m"@,
        names.reverse(),
    )
}

/// A key going down or up.
pub struct KeyEvent {
    pub code: u16,
    pub down: bool,
}

/// A key going down or up, as ydotool reads it.
pub open spec fn event_text(event: KeyEvent) -> Seq<char> {
    digits(event.code as nat) + if event.down {
        ":1"@
    } else {
        ":0"@
    }
}

/// The code of a key that has one.
pub open spec fn known_code(name: Seq<char>) -> u16 {
    code_of(name)->0
}

/// The key events of a combo: modifiers down, keys tapped, modifiers up in reverse order.
pub open spec fn key_events(mods: Seq<Seq<char>>, keys: Seq<Seq<char>>) -> Seq<KeyEvent> {
    mods.map_values(|m: Seq<char>| KeyEvent { code: known_code(m), down: true }) + Seq::new(
        2 * keys.len(),
        |i: int| KeyEvent { code: known_code(keys[i / 2]), down: i % 2 == 0 },
    ) + mods.reverse().map_values(|m: Seq<char>| KeyEvent { code: known_code(m), down: false })
}

/// Whether every key of a combo has a code.
pub open spec fn all_known(keys: Seq<Seq<char>>) -> bool {
    forall|i: int| 0 <= i < keys.len() ==> code_of(#[trigger] keys[i]) is Some
}

/// The first key of a combo that has no code.
pub open spec fn first_unknown(keys: Seq<Seq<char>>) -> Seq<char>
    decreases keys.len(),
{
    if keys.len() == 0 || code_of(keys[0]) is None {
        keys[0]
    } else {
        first_unknown(keys.skip(1))
    }
}

/// The failure for a key without a code.
pub open spec fn unknown_key(name: Seq<char>) -> Reason {
    Reason::Message("unknown key `"@ + name + "`"@)
}

/// What is left to do with ydotool for a combo: send its key events, or fail at the first key that
/// has no code.
pub open spec fn ydotool_step(mods: Seq<Seq<char>>, keys: Seq<Seq<char>>) -> StepView {
    if all_known(keys) {
        StepView::Run(
            command_line(
                "ydotool"@,
                seq!["key"@] + key_events(mods, keys).map_values(|e: KeyEvent| event_text(e)),
            ),
        )
    } else {
        StepView::Fail(unknown_key(first_unknown(keys)))
    }
}

/// The script that presses a combo.
pub open spec fn press_script(parts: Seq<Seq<char>>) -> Seq<StepView> {
    if parts.len() == 0 {
        seq![StepView::Fail(Reason::Message("empty key combo"@))]
    } else {
        seq![
            StepView::Attempt(
                command_line("wtype"@, wtype_args(modifiers(parts), plain_keys(parts))),
            ),
            StepView::NeedYdotool,
            ydotool_step(modifiers(parts), plain_keys(parts)),
        ]
    }
}

fn modifier(name: &str) -> (yes: bool)
    ensures
        yes == is_modifier(name@),
{
    same_text(name, "ctrl") || same_text(name, "alt") || same_text(name, "shift") || same_text(
        name,
        "super",
    )
}

/// Parts a combo into modifiers and other keys.
fn partition(parts: &Vec<String>) -> (split: (Vec<String>, Vec<String>))
    ensures
        texts(split.0@) == modifiers(texts(parts@)),
        texts(split.1@) == plain_keys(texts(parts@)),
{
    let mut mods: Vec<String> = Vec::new();
    let mut keys: Vec<String> = Vec::new();
    let ghost all = texts(parts@);
    let mut i: usize = 0;
    proof {
        reveal(Seq::filter);
        assert(all.take(0) =~= Seq::<Seq<char>>::empty());
        assert(texts(mods@) =~= modifiers(all.take(0)));
        assert(texts(keys@) =~= plain_keys(all.take(0)));
    }
    while i < parts.len()
        invariant
            i <= parts@.len(),
            all == texts(parts@),
            texts(mods@) == modifiers(all.take(i as int)),
            texts(keys@) == plain_keys(all.take(i as int)),
        decreases parts.len() - i,
    {
        let ghost (old_mods, old_keys) = (mods@, keys@);
        proof {
            reveal(Seq::filter);
            assert(all.take(i + 1).drop_last() =~= all.take(i as int));
            assert(all.take(i + 1).last() == parts@[i as int]@);
        }
        if modifier(parts[i].as_str()) {
            mods.push(parts[i].clone());
            assert(texts(mods@) =~= texts(old_mods).push(parts@[i as int]@));
        } else {
            keys.push(parts[i].clone());
            assert(texts(keys@) =~= texts(old_keys).push(parts@[i as int]@));
        }
        i = i + 1;
    }
    assert(all.take(i as int) =~= all);
    (mods, keys)
}

proof fn lemma_flagged_push(flag: Seq<char>, names: Seq<Seq<char>>, i: int)
    requires
        0 <= i < names.len(),
    ensures
        flagged(flag, names.take(i + 1)) == flagged(flag, names.take(i)).push(flag).push(names[i]),
{
    assert(flagged(flag, names.take(i + 1)) =~= flagged(flag, names.take(i)).push(flag).push(
        names[i],
    ));
}

fn wtype_name<'a>(name: &'a str) -> (called: &'a str)
    ensures
        called@ == wtype_modifier(name@),
{
    if same_text(name, "super") {
        "logo"
    } else {
        name
    }
}

/// The wtype command for a combo, such as `wtype -M ctrl -M shift -k s -m shift -m ctrl`.
fn wtype_command(mods: &Vec<String>, keys: &Vec<String>) -> (command: Command)
    ensures
        command@ == command_line("wtype"@, wtype_args(texts(mods@), texts(keys@))),
{
    let ghost names = texts(mods@).map_values(|m: Seq<char>| wtype_modifier(m));
    let ghost symbols = texts(keys@).map_values(|k: Seq<char>| keysym_of(k));
    let mut command = Command::new("wtype");
    let mut i: usize = 0;
    assert(command@.args =~= flagged("-M"@, names.take(0)));
    while i < mods.len()
        invariant
            i <= mods@.len(),
            names == texts(mods@).map_values(|m: Seq<char>| wtype_modifier(m)),
            command@ == command_line("wtype"@, flagged("-M"@, names.take(i as int))),
        decreases mods.len() - i,
    {
        proof {
            lemma_flagged_push("-M"@, names, i as int);
        }
        command = command.arg("-M").arg(wtype_name(mods[i].as_str()));
        i = i + 1;
    }
    assert(names.take(i as int) =~= names);
    let ghost pressed = flagged("-M"@, names);
    let mut j: usize = 0;
    assert(command@.args =~= pressed + flagged("-k"@, symbols.take(0)));
    while j < keys.len()
        invariant
            j <= keys@.len(),
            symbols == texts(keys@).map_values(|k: Seq<char>| keysym_of(k)),
            command@ == command_line(
                "wtype"@,
                pressed + flagged("-k"@, symbols.take(j as int)),
            ),
        decreases keys.len() - j,
    {
        let ghost before = command@.args;
        proof {
            lemma_flagged_push("-k"@, symbols, j as int);
        }
        command = command.arg("-k").arg(keysym(keys[j].as_str()));
        j = j + 1;
        assert(command@.args =~= pressed + flagged("-k"@, symbols.take(j as int)));
    }
    assert(symbols.take(j as int) =~= symbols);
    let ghost tapped = pressed + flagged("-k"@, symbols);
    let ghost back = names.reverse();
    let mut left: usize = mods.len();
    assert(command@.args =~= tapped + flagged("-m"@, back.take(0)));
    while left > 0
        invariant
            left <= mods@.len(),
            names == texts(mods@).map_values(|m: Seq<char>| wtype_modifier(m)),
            back == names.reverse(),
            command@ == command_line(
                "wtype"@,
                tapped + flagged("-m"@, back.take(mods@.len() - left)),
            ),
        decreases left,
    {
        proof {
            lemma_flagged_push("-m"@, back, mods@.len() - left);
        }
        command = command.arg("-m").arg(wtype_name(mods[left - 1].as_str()));
        left = left - 1;
        assert(command@.args =~= tapped + flagged("-m"@, back.take(mods@.len() - left)));
    }
    assert(back.take(mods@.len() - left) =~= back);
    command
}

fn event_of(code: u16, down: bool) -> (text: String)
    ensures
        text@ == event_text(KeyEvent { code, down }),
{
    let mut text = String::new();
    append_digits(&mut text, code as u128);
    if down {
        text.append(":1");
    } else {
        text.append(":0");
    }
    assert(text@ =~= event_text(KeyEvent { code, down }));
    text
}

/// Every modifier has a code.
pub proof fn lemma_modifiers_known(name: Seq<char>)
    requires
        is_modifier(name),
    ensures
        code_of(name) is Some,
{
}

proof fn lemma_filtered_are_modifiers(parts: Seq<Seq<char>>)
    ensures
        forall|i: int|
            0 <= i < modifiers(parts).len() ==> is_modifier(#[trigger] modifiers(parts)[i]),
        forall|i: int|
            0 <= i < plain_keys(parts).len() ==> !is_modifier(#[trigger] plain_keys(parts)[i]),
    decreases parts.len(),
{
    reveal(Seq::filter);
    if parts.len() > 0 {
        lemma_filtered_are_modifiers(parts.drop_last());
    }
}

fn unknown(name: &str) -> (error: NovaError)
    ensures
        error@ == unknown_key(name@),
{
    let mut words = "unknown key `".to_owned();
    words.append(name);
    words.append("`");
    NovaError::Message(words)
}

/// The step that sends the key events of a combo with ydotool, which wants explicit press and
/// release pairs.
fn ydotool_events(mods: &Vec<String>, keys: &Vec<String>) -> (step: Step)
    requires
        forall|i: int| 0 <= i < mods@.len() ==> is_modifier((#[trigger] mods@[i])@),
    ensures
        step@ == ydotool_step(texts(mods@), texts(keys@)),
{
    let ghost m = texts(mods@);
    let ghost k = texts(keys@);
    let ghost downs = m.map_values(
        |m: Seq<char>| event_text(KeyEvent { code: known_code(m), down: true }),
    );
    let ghost taps = Seq::new(
        2 * k.len(),
        |i: int| event_text(KeyEvent { code: known_code(k[i / 2]), down: i % 2 == 0 }),
    );
    let ghost ups = m.reverse().map_values(
        |m: Seq<char>| event_text(KeyEvent { code: known_code(m), down: false }),
    );
    let mut command = Command::new("ydotool").arg("key");
    let mut down: Vec<u16> = Vec::new();
    let mut i: usize = 0;
    assert(command@.args =~= seq!["key"@] + downs.take(0));
    while i < mods.len()
        invariant
            i <= mods@.len(),
            forall|i: int| 0 <= i < mods@.len() ==> is_modifier((#[trigger] mods@[i])@),
            m == texts(mods@),
            downs == m.map_values(
                |m: Seq<char>| event_text(KeyEvent { code: known_code(m), down: true }),
            ),
            command@ == command_line("ydotool"@, seq!["key"@] + downs.take(i as int)),
            down@.len() == i,
            forall|j: int| 0 <= j < i ==> #[trigger] down@[j] == known_code(m[j]),
        decreases mods.len() - i,
    {
        proof {
            lemma_modifiers_known(mods@[i as int]@);
        }
        match keycode(mods[i].as_str()) {
            Some(code) => {
                command.push(event_of(code, true));
                down.push(code);
            },
            None => {
                assert(false);
            },
        }
        i = i + 1;
        assert(command@.args =~= seq!["key"@] + downs.take(i as int));
    }
    assert(downs.take(i as int) =~= downs);
    let mut j: usize = 0;
    assert(command@.args =~= seq!["key"@] + downs + taps.take(0));
    assert(k.skip(0) =~= k);
    while j < keys.len()
        invariant
            j <= keys@.len(),
            k == texts(keys@),
            taps == Seq::new(
                2 * k.len(),
                |i: int| event_text(KeyEvent { code: known_code(k[i / 2]), down: i % 2 == 0 }),
            ),
            forall|i: int| 0 <= i < j ==> code_of(#[trigger] k[i]) is Some,
            first_unknown(k) == first_unknown(k.skip(j as int)),
            command@ == command_line("ydotool"@, seq!["key"@] + downs + taps.take(2 * j)),
            m == texts(mods@),
        decreases keys.len() - j,
    {
        assert(k.skip(j as int)[0] == k[j as int]);
        assert(k.skip(j as int).skip(1) =~= k.skip(j + 1));
        match keycode(keys[j].as_str()) {
            Some(code) => {
                command.push(event_of(code, true));
                command.push(event_of(code, false));
            },
            None => {
                assert(code_of(k[j as int]) is None);
                return Step::Fail(unknown(keys[j].as_str()));
            },
        }
        j = j + 1;
        assert(taps[2 * j - 2] == event_text(KeyEvent { code: known_code(k[j - 1]), down: true }));
        assert(taps[2 * j - 1] == event_text(KeyEvent { code: known_code(k[j - 1]), down: false }));
        assert(command@.args =~= seq!["key"@] + downs + taps.take(2 * j));
    }
    assert(taps.take(2 * j) =~= taps);
    let mut left: usize = down.len();
    assert(command@.args =~= seq!["key"@] + downs + taps + ups.take(0));
    while left > 0
        invariant
            left <= down@.len(),
            down@.len() == m.len(),
            forall|j: int| 0 <= j < m.len() ==> #[trigger] down@[j] == known_code(m[j]),
            ups == m.reverse().map_values(
                |m: Seq<char>| event_text(KeyEvent { code: known_code(m), down: false }),
            ),
            command@ == command_line(
                "ydotool"@,
                seq!["key"@] + downs + taps + ups.take(m.len() - left),
            ),
        decreases left,
    {
        command.push(event_of(down[left - 1], false));
        left = left - 1;
        assert(command@.args =~= seq!["key"@] + downs + taps + ups.take(m.len() - left));
    }
    assert(ups.take(m.len() - left) =~= ups);
    assert(command@.args =~= seq!["key"@] + key_events(m, k).map_values(
        |e: KeyEvent| event_text(e),
    ));
    Step::Run(command)
}

/// Presses a combo, which is given as the names of its keys.
pub fn press_key(parts: &Vec<String>) -> (steps: Vec<Step>)
    ensures
        step_views(steps@) == press_script(texts(parts@)),
{
    let mut steps = no_steps();
    if parts.len() == 0 {
        push_step(&mut steps, Step::Fail(NovaError::msg("empty key combo")));
        assert(step_views(steps@) =~= press_script(texts(parts@)));
        return steps;
    }
    let (mods, keys) = partition(parts);
    proof {
        lemma_filtered_are_modifiers(texts(parts@));
        assert forall|i: int| 0 <= i < mods@.len() implies is_modifier((#[trigger] mods@[i])@) by {
            assert(mods@[i]@ == modifiers(texts(parts@))[i]);
        }
    }
    push_step(&mut steps, Step::Attempt(wtype_command(&mods, &keys)));
    push_step(&mut steps, Step::NeedYdotool);
    push_step(&mut steps, ydotool_events(&mods, &keys));
    assert(step_views(steps@) =~= press_script(texts(parts@)));
    steps
}

/* ── Holding a key ──────────────────────────────────────────────── */

/// The key that a combo holds down: its first.
pub open spec fn held_key(parts: Seq<Seq<char>>) -> Seq<char> {
    if parts.len() > 0 {
        parts[0]
    } else {
        Seq::empty()
    }
}

/// The script that sends one key down or up.
pub open spec fn hold_script(parts: Seq<Seq<char>>, down: bool) -> Seq<StepView> {
    seq![
        StepView::NeedYdotool,
        match code_of(held_key(parts)) {
            Some(code) => StepView::Run(
                command_line("ydotool"@, seq!["key"@, event_text(KeyEvent { code, down })]),
            ),
            None => StepView::Fail(unknown_key(held_key(parts))),
        },
    ]
}

fn send_key(parts: &Vec<String>, down: bool) -> (steps: Vec<Step>)
    ensures
        step_views(steps@) == hold_script(texts(parts@), down),
{
    let name = if parts.len() > 0 {
        parts[0].clone()
    } else {
        String::new()
    };
    assert(name@ == held_key(texts(parts@)));
    let mut steps = no_steps();
    push_step(&mut steps, Step::NeedYdotool);
    match keycode(name.as_str()) {
        Some(code) => {
            let event = event_of(code, down);
            let command = Command::new("ydotool").arg("key").arg(event.as_str());
            assert(command@.args =~= seq!["key"@, event_text(KeyEvent { code, down })]);
            push_step(&mut steps, Step::Run(command));
        },
        None => {
            push_step(&mut steps, Step::Fail(unknown(name.as_str())));
        },
    }
    assert(step_views(steps@) =~= hold_script(texts(parts@), down));
    steps
}

/// Presses the first key of a combo and keeps it down.
pub fn hold_key(parts: &Vec<String>) -> (steps: Vec<Step>)
    ensures
        step_views(steps@) == hold_script(texts(parts@), true),
{
    send_key(parts, true)
}

/// Releases the first key of a combo.
pub fn release_key(parts: &Vec<String>) -> (steps: Vec<Step>)
    ensures
        step_views(steps@) == hold_script(texts(parts@), false),
{
    send_key(parts, false)
}

/// Every key of a combo is either one of its modifiers or one of its other keys, as often as it
/// occurs.
pub proof fn lemma_combo_keeps_every_key(parts: Seq<Seq<char>>)
    ensures
        modifiers(parts).to_multiset().add(plain_keys(parts).to_multiset()) == parts.to_multiset(),
    decreases parts.len(),
{
    broadcast use vstd::seq_lib::group_to_multiset_ensures;

    reveal(Seq::filter);
    if parts.len() > 0 {
        let rest = parts.drop_last();
        lemma_combo_keeps_every_key(rest);
        assert(parts =~= rest.push(parts.last()));
    }
    assert(modifiers(parts).to_multiset().add(plain_keys(parts).to_multiset())
        =~= parts.to_multiset());
}

/* ── What is held down ──────────────────────────────────────────── */

/// The keys that are down after some events, in the order in which they went down, if every
/// release is that of the key pressed last.
pub open spec fn held_after(events: Seq<KeyEvent>, held: Seq<u16>) -> Option<Seq<u16>>
    decreases events.len(),
{
    if events.len() == 0 {
        Some(held)
    } else {
        match held_after(events.drop_last(), held) {
            None => None,
            Some(down) => if events.last().down {
                Some(down.push(events.last().code))
            } else if down.len() > 0 && down.last() == events.last().code {
                Some(down.drop_last())
            } else {
                None
            },
        }
    }
}

/// The codes of keys.
pub open spec fn codes(names: Seq<Seq<char>>) -> Seq<u16> {
    names.map_values(|n: Seq<char>| known_code(n))
}

/// What is down after the first `t` events of a combo.
pub open spec fn held_during(mods: Seq<Seq<char>>, keys: Seq<Seq<char>>, t: int) -> Seq<u16> {
    let n = mods.len();
    if t <= n {
        codes(mods).take(t)
    } else if t <= n + 2 * keys.len() {
        if (t - n) % 2 == 0 {
            codes(mods)
        } else {
            codes(mods).push(known_code(keys[(t - n) / 2]))
        }
    } else {
        codes(mods).take(2 * n + 2 * keys.len() - t)
    }
}

/// Throughout a combo, the modifiers go down in order, each other key goes down and up while all
/// of them are down, and then they go up in reverse order.
pub proof fn lemma_combo_nests(mods: Seq<Seq<char>>, keys: Seq<Seq<char>>, t: int)
    requires
        0 <= t <= key_events(mods, keys).len(),
    ensures
        held_after(key_events(mods, keys).take(t), Seq::empty()) == Some(held_during(mods, keys, t)),
    decreases t,
{
    let events = key_events(mods, keys);
    let n = mods.len();
    if t == 0 {
        assert(held_during(mods, keys, 0) =~= Seq::<u16>::empty());
    } else {
        lemma_combo_nests(mods, keys, t - 1);
        assert(events.take(t).drop_last() =~= events.take(t - 1));
        let before = held_during(mods, keys, t - 1);
        let after = held_during(mods, keys, t);
        let event = events[t - 1];
        if t <= n {
            assert(event == KeyEvent { code: known_code(mods[t - 1]), down: true });
            assert(after =~= before.push(event.code));
        } else if t <= n + 2 * keys.len() {
            let i = t - 1 - n;
            assert(event == KeyEvent { code: known_code(keys[i / 2]), down: i % 2 == 0 });
            if i % 2 == 0 {
                assert(before =~= codes(mods));
                assert(after =~= before.push(event.code));
            } else {
                assert(before.last() == event.code);
                assert(after =~= before.drop_last());
            }
        } else {
            let i = t - 1 - n - 2 * keys.len();
            assert(event == KeyEvent { code: known_code(mods[n - 1 - i]), down: false });
            assert(before =~= codes(mods).take(n - i));
            assert(after =~= before.drop_last());
        }
    }
}

/// A combo leaves no key down.
pub proof fn lemma_combo_leaves_no_key_down(mods: Seq<Seq<char>>, keys: Seq<Seq<char>>)
    ensures
        held_after(key_events(mods, keys), Seq::empty()) == Some(Seq::<u16>::empty()),
{
    let events = key_events(mods, keys);
    lemma_combo_nests(mods, keys, events.len() as int);
    assert(events.take(events.len() as int) =~= events);
    if mods.len() == 0 {
        assert(codes(mods) =~= Seq::<u16>::empty());
    }
    assert(held_during(mods, keys, events.len() as int) =~= Seq::<u16>::empty());
}

/// Holding a combo sends its first key down, releasing it sends the same key up, and the two
/// together leave what is down as it was.
pub proof fn lemma_release_undoes_hold(parts: Seq<Seq<char>>, held: Seq<u16>)
    requires
        code_of(held_key(parts)) is Some,
    ensures
        ({
            let press = KeyEvent { code: known_code(held_key(parts)), down: true };
            let release = KeyEvent { code: known_code(held_key(parts)), down: false };
            &&& hold_script(parts, true)[1] == StepView::Run(
                command_line("ydotool"@, seq!["key"@, event_text(press)]),
            )
            &&& hold_script(parts, false)[1] == StepView::Run(
                command_line("ydotool"@, seq!["key"@, event_text(release)]),
            )
            &&& held_after(seq![press, release], held) == Some(held)
        }),
{
    let code = known_code(held_key(parts));
    let first = seq![KeyEvent { code, down: true }];
    let both = seq![KeyEvent { code, down: true }, KeyEvent { code, down: false }];
    assert(both.drop_last() =~= first);
    assert(first.drop_last() =~= Seq::<KeyEvent>::empty());
    assert(held_after(first.drop_last(), held) == Some(held));
    assert(held_after(first, held) == Some(held.push(code)));
    assert(held.push(code).drop_last() =~= held);
}

/// Text and combos go to wtype first: if it is installed and succeeds, that is all, and otherwise
/// ydotool is looked for.
pub proof fn lemma_ydotool_is_the_fallback(
    text: Seq<char>,
    parts: Seq<Seq<char>>,
    output: OutputView,
)
    ensures
        wtype_first(type_script(text), output),
        parts.len() > 0 ==> wtype_first(press_script(parts), output),
{
    lemma_attempt_ends_or_goes_on(type_script(text), 0, output);
    if parts.len() > 0 {
        lemma_attempt_ends_or_goes_on(press_script(parts), 0, output);
    }
}

/// Whether a script starts with wtype, is over if wtype succeeds, and goes on to look for ydotool
/// if it does not.
pub open spec fn wtype_first(steps: Seq<StepView>, output: OutputView) -> bool {
    let start = Progress::At(0);
    let tried = after_reply(steps, start, ReplyView::Installed(true));
    let ran = after_reply(steps, tried, ReplyView::Ran(Ok(output)));
    let passed = after_reply(steps, start, ReplyView::Installed(false));
    &&& next_request(steps, start) == RequestView::Probe("wtype"@)
    &&& next_request(steps, tried) is Run
    &&& next_request(steps, tried)->Run_0.program == "wtype"@
    &&& next_request(steps, ran) == if output.success {
        RequestView::Finished
    } else {
        RequestView::Probe("ydotool"@)
    }
    &&& next_request(steps, passed) == RequestView::Probe("ydotool"@)
}

/// Whatever the keyboard does with ydotool comes behind a check of it.
pub proof fn lemma_keyboard_checks_ydotool(
    text: Seq<char>,
    parts: Seq<Seq<char>>,
    down: bool,
)
    ensures
        guarded(type_script(text)),
        guarded(press_script(parts)),
        guarded(hold_script(parts, down)),
{
    reveal_strlit("wtype");
    reveal_strlit("ydotool");
    assert(type_script(text)[1] is NeedYdotool);
    assert(parts.len() > 0 ==> press_script(parts)[1] is NeedYdotool);
    assert(hold_script(parts, down)[0] is NeedYdotool);
}

/* ── What the tools make of it ──────────────────────────────────── */

/// The text that a command types.
pub open spec fn typed_text(command: CommandLine) -> Option<Seq<char>> {
    let args = command.args;
    if command.program == "wtype"@ && args.len() == 1 {
        Some(args[0])
    } else if command.program == "ydotool"@ && args.len() == 4 && args[0] == "type"@ && args[1]
        == "--key-delay"@ && all_digits(args[2]) {
        Some(args[3])
    } else {
        None
    }
}

/// Whichever tool types a text, it types that text, character for character.
pub proof fn lemma_text_is_typed_as_it_is(text: Seq<char>)
    ensures
        ({
            let script = type_script(text);
            &&& script.len() == 3
            &&& script[0] is Attempt
            &&& script[0]->Attempt_0.program == "wtype"@
            &&& typed_text(script[0]->Attempt_0) == Some(text)
            &&& script[1] is NeedYdotool
            &&& script[2] is Run
            &&& script[2]->Run_0.program == "ydotool"@
            &&& typed_text(script[2]->Run_0) == Some(text)
            &&& number(script[2]->Run_0.args[2]) == 12
        }),
{
    let args = type_script(text)[2]->Run_0.args;
    reveal_strlit("wtype");
    reveal_strlit("ydotool");
    assert("wtype"@.len() != "ydotool"@.len());
    reveal_strlit("12");
    assert("12"@ =~= seq!['1', '2']);
    assert(seq!['1', '2'].drop_last() =~= seq!['1']);
    assert(seq!['1'].drop_last() =~= Seq::<char>::empty());
    reveal_with_fuel(number, 3);
    assert(number("12"@) == 12);
    assert(all_digits("12"@));
    assert(args[2] == "12"@);
}

/// Different texts are typed by different commands, with either tool.
pub proof fn lemma_texts_are_typed_apart(a: Seq<char>, b: Seq<char>)
    requires
        a != b,
    ensures
        type_script(a)[0] != type_script(b)[0],
        type_script(a)[2] != type_script(b)[2],
{
    lemma_text_is_typed_as_it_is(a);
    lemma_text_is_typed_as_it_is(b);
}

/// What wtype does with a key.
pub enum WtypeAct {
    /// A modifier goes down.
    Press(Seq<char>),
    /// A key goes down and up.
    Tap(Seq<char>),
    /// A modifier goes up.
    Release(Seq<char>),
}

/// What wtype does when it is run with some arguments, if they are flags and names alone. An
/// argument without a flag would be typed as text.
pub open spec fn wtype_acts(args: Seq<Seq<char>>) -> Option<Seq<WtypeAct>>
    decreases args.len(),
{
    if args.len() == 0 {
        Some(Seq::empty())
    } else if args.len() == 1 {
        None
    } else {
        let (flag, name) = (args[args.len() - 2], args.last());
        match wtype_acts(args.drop_last().drop_last()) {
            Some(before) => if flag == "-M"@ {
                Some(before.push(WtypeAct::Press(name)))
            } else if flag == "-k"@ {
                Some(before.push(WtypeAct::Tap(name)))
            } else if flag == "-m"@ {
                Some(before.push(WtypeAct::Release(name)))
            } else {
                None
            },
            None => None,
        }
    }
}

/// One thing that wtype does, for each flag.
spec fn act_for(flag: Seq<char>, name: Seq<char>) -> WtypeAct {
    if flag == "-M"@ {
        WtypeAct::Press(name)
    } else if flag == "-k"@ {
        WtypeAct::Tap(name)
    } else {
        WtypeAct::Release(name)
    }
}

proof fn lemma_flags_read(args: Seq<Seq<char>>, flag: Seq<char>, names: Seq<Seq<char>>)
    requires
        wtype_acts(args) is Some,
        flag == "-M"@ || flag == "-k"@ || flag == "-m"@,
    ensures
        wtype_acts(args + flagged(flag, names)) == Some(
            wtype_acts(args)->0 + names.map_values(|n: Seq<char>| act_for(flag, n)),
        ),
    decreases names.len(),
{
    let acts = wtype_acts(args)->0;
    if names.len() == 0 {
        assert(args + flagged(flag, names) =~= args);
        assert(acts + names.map_values(|n: Seq<char>| act_for(flag, n)) =~= acts);
    } else {
        let shorter = names.drop_last();
        let all = args + flagged(flag, names);
        lemma_flags_read(args, flag, shorter);
        assert(all.drop_last().drop_last() =~= args + flagged(flag, shorter));
        assert(flagged(flag, names)[2 * names.len() - 2] == flag);
        assert(flagged(flag, names)[2 * names.len() - 1] == names.last());
        assert(acts + names.map_values(|n: Seq<char>| act_for(flag, n)) =~= (acts
            + shorter.map_values(|n: Seq<char>| act_for(flag, n))).push(
            act_for(flag, names.last()),
        ));
    }
}

/// What wtype calls a modifier: super is its logo key.
spec fn logo_or(name: Seq<char>) -> Seq<char> {
    if name == "super"@ {
        "logo"@
    } else {
        name
    }
}

proof fn lemma_wtype_acts(mods: Seq<Seq<char>>, keys: Seq<Seq<char>>)
    ensures
        wtype_acts(wtype_args(mods, keys)) == Some(
            mods.map_values(|m: Seq<char>| WtypeAct::Press(logo_or(m))) + keys.map_values(
                |k: Seq<char>| WtypeAct::Tap(keysym_of(k)),
            ) + mods.reverse().map_values(|m: Seq<char>| WtypeAct::Release(logo_or(m))),
        ),
{
    let names = mods.map_values(|m: Seq<char>| wtype_modifier(m));
    let symbols = keys.map_values(|k: Seq<char>| keysym_of(k));
    let (down, tap, up) = (flagged("-M"@, names), flagged("-k"@, symbols), flagged(
        "-m"@,
        names.reverse(),
    ));
    reveal_strlit("-M");
    reveal_strlit("-k");
    reveal_strlit("-m");
    assert("-M"@[1] != "-k"@[1]);
    assert("-M"@[1] != "-m"@[1]);
    assert("-k"@[1] != "-m"@[1]);
    let none = Seq::<Seq<char>>::empty();
    lemma_flags_read(none, "-M"@, names);
    assert(none + down =~= down);
    lemma_flags_read(down, "-k"@, symbols);
    lemma_flags_read(down + tap, "-m"@, names.reverse());
    assert(wtype_args(mods, keys) =~= down + tap + up);
    assert(wtype_acts(wtype_args(mods, keys))->0 =~= mods.map_values(
        |m: Seq<char>| WtypeAct::Press(logo_or(m)),
    ) + keys.map_values(|k: Seq<char>| WtypeAct::Tap(keysym_of(k))) + mods.reverse().map_values(
        |m: Seq<char>| WtypeAct::Release(logo_or(m)),
    ));
}

/// With wtype, a combo is made of presses, taps and releases alone: each modifier goes down, in
/// order; each other key is tapped once, in order, while all modifiers are down; and the modifiers
/// go up in reverse order. Only super has another name there.
pub proof fn lemma_wtype_presses_combo(parts: Seq<Seq<char>>)
    requires
        parts.len() > 0,
    ensures
        ({
            let (mods, keys) = (modifiers(parts), plain_keys(parts));
            let (m, k) = (mods.len() as int, keys.len() as int);
            let first = press_script(parts)[0];
            let acts = wtype_acts(first->Attempt_0.args)->0;
            &&& first is Attempt
            &&& first->Attempt_0.program == "wtype"@
            &&& wtype_acts(first->Attempt_0.args) is Some
            &&& acts.len() == m + k + m
            &&& forall|i: int|
                0 <= i < m ==> {
                    &&& (#[trigger] acts[i]) is Press
                    &&& mods[i] == "super"@ ==> acts[i]->Press_0 == "logo"@
                    &&& mods[i] != "super"@ ==> acts[i]->Press_0 == mods[i]
                }
            &&& forall|j: int|
                0 <= j < k ==> #[trigger] acts[m + j] == WtypeAct::Tap(keysym_of(keys[j]))
            &&& forall|i: int|
                0 <= i < m ==> (#[trigger] acts[m + k + i]) == WtypeAct::Release(
                    acts[m - 1 - i]->Press_0,
                )
        }),
{
    let (mods, keys) = (modifiers(parts), plain_keys(parts));
    let (m, k) = (mods.len() as int, keys.len() as int);
    lemma_wtype_acts(mods, keys);
    let acts = wtype_acts(press_script(parts)[0]->Attempt_0.args)->0;
    assert forall|i: int| 0 <= i < m implies (#[trigger] acts[m + k + i]) == WtypeAct::Release(
        acts[m - 1 - i]->Press_0,
    ) by {
        assert(mods.reverse()[i] == mods[m - 1 - i]);
        assert(acts[m - 1 - i] == WtypeAct::Press(logo_or(mods[m - 1 - i])));
    }
}

/// The key event that an argument of ydotool stands for: a code, a colon, and 1 or 0.
pub open spec fn read_event(arg: Seq<char>) -> Option<KeyEvent> {
    let parts = fields(arg, ':');
    if parts.len() == 2 && parts[0].len() > 0 && all_digits(parts[0]) && number(parts[0])
        <= u16::MAX && (parts[1] == seq!['0'] || parts[1] == seq!['1']) {
        Some(KeyEvent { code: number(parts[0]) as u16, down: parts[1] == seq!['1'] })
    } else {
        None
    }
}

proof fn lemma_event_reads_back(event: KeyEvent)
    ensures
        read_event(event_text(event)) == Some(event),
{
    let d = digits(event.code as nat);
    let state = if event.down {
        seq!['1']
    } else {
        seq!['0']
    };
    lemma_digits_read_back(event.code as nat);
    reveal_strlit(":1");
    reveal_strlit(":0");
    assert(event_text(event) =~= d.push(':') + state);
    assert forall|i: int| 0 <= i < d.len() implies #[trigger] d[i] != ':' by {
        assert(is_digit(d[i]));
    }
    lemma_fields_single(d, ':');
    lemma_fields_next(d, state, ':');
    assert(fields(event_text(event), ':') =~= seq![d, state]);
    assert(seq!['0'][0] != seq!['1'][0]);
}

/// With ydotool, a combo whose keys all have codes is sent as presses and releases that read back:
/// each modifier goes down, in order; each other key goes down and up, in order; and the modifiers
/// go up in reverse order.
pub proof fn lemma_ydotool_presses_combo(parts: Seq<Seq<char>>)
    requires
        parts.len() > 0,
        forall|j: int|
            0 <= j < plain_keys(parts).len() ==> code_of(#[trigger] plain_keys(parts)[j]) is Some,
    ensures
        ({
            let (mods, keys) = (modifiers(parts), plain_keys(parts));
            let (m, k) = (mods.len() as int, keys.len() as int);
            let step = press_script(parts)[2];
            let args = step->Run_0.args;
            &&& press_script(parts).len() == 3
            &&& press_script(parts)[1] is NeedYdotool
            &&& step is Run
            &&& step->Run_0.program == "ydotool"@
            &&& args.len() == 1 + m + 2 * k + m
            &&& args[0] == "key"@
            &&& forall|i: int|
                0 <= i < m ==> read_event(#[trigger] args[1 + i]) == Some(
                    KeyEvent { code: code_of(mods[i])->0, down: true },
                )
            &&& forall|j: int|
                0 <= j < k ==> {
                    &&& read_event(#[trigger] args[1 + m + 2 * j]) == Some(
                        KeyEvent { code: code_of(keys[j])->0, down: true },
                    )
                    &&& read_event(args[1 + m + 2 * j + 1]) == Some(
                        KeyEvent { code: code_of(keys[j])->0, down: false },
                    )
                }
            &&& forall|i: int|
                0 <= i < m ==> read_event(#[trigger] args[1 + m + 2 * k + i]) == Some(
                    KeyEvent { code: code_of(mods[m - 1 - i])->0, down: false },
                )
        }),
{
    let (mods, keys) = (modifiers(parts), plain_keys(parts));
    let (m, k) = (mods.len() as int, keys.len() as int);
    let step = press_script(parts)[2];
    let args = step->Run_0.args;
    let events = key_events(mods, keys);
    assert(all_known(keys));
    assert forall|t: int| 0 <= t < events.len() implies read_event(#[trigger] args[1 + t]) == Some(
        events[t],
    ) by {
        lemma_event_reads_back(events[t]);
    }
    assert forall|j: int| 0 <= j < k implies {
        &&& read_event(#[trigger] args[1 + m + 2 * j]) == Some(
            KeyEvent { code: code_of(keys[j])->0, down: true },
        )
        &&& read_event(args[1 + m + 2 * j + 1]) == Some(
            KeyEvent { code: code_of(keys[j])->0, down: false },
        )
    } by {
        assert(args[1 + (m + 2 * j)] == args[1 + m + 2 * j]);
        assert(args[1 + (m + 2 * j + 1)] == args[1 + m + 2 * j + 1]);
        assert(events[m + 2 * j] == KeyEvent { code: known_code(keys[j]), down: true });
        assert(events[m + 2 * j + 1] == KeyEvent { code: known_code(keys[j]), down: false });
    }
    assert forall|i: int| 0 <= i < m implies read_event(#[trigger] args[1 + m + 2 * k + i]) == Some(
        KeyEvent { code: code_of(mods[m - 1 - i])->0, down: false },
    ) by {
        assert(args[1 + (m + 2 * k + i)] == args[1 + m + 2 * k + i]);
        assert(mods.reverse()[i] == mods[m - 1 - i]);
    }
}

/// With ydotool, a combo with a key that has no code sends nothing: it fails, and names the first
/// such key.
pub proof fn lemma_unknown_key_is_named(parts: Seq<Seq<char>>, j: int)
    requires
        0 <= j < plain_keys(parts).len(),
        code_of(plain_keys(parts)[j]) is None,
        forall|i: int| 0 <= i < j ==> code_of(#[trigger] plain_keys(parts)[i]) is Some,
    ensures
        ({
            let step = press_script(parts)[2];
            &&& press_script(parts).len() == 3
            &&& press_script(parts)[1] is NeedYdotool
            &&& step is Fail
            &&& step->Fail_0 is Message
            &&& fails_with(step->Fail_0->Message_0, "unknown key `"@, plain_keys(parts)[j], "`"@)
        }),
{
    let keys = plain_keys(parts);
    lemma_combo_keeps_every_key(parts);
    if parts.len() == 0 {
        reveal(Seq::filter);
        assert(keys.len() == 0);
    }
    lemma_first_unknown(keys, j);
    lemma_fails_with("unknown key `"@, keys[j], "`"@);
    assert(!all_known(keys));
}

proof fn lemma_first_unknown(keys: Seq<Seq<char>>, j: int)
    requires
        0 <= j < keys.len(),
        code_of(keys[j]) is None,
        forall|i: int| 0 <= i < j ==> code_of(#[trigger] keys[i]) is Some,
    ensures
        first_unknown(keys) == keys[j],
    decreases j,
{
    if j > 0 {
        assert(code_of(keys[0]) is Some);
        assert forall|i: int| 0 <= i < j - 1 implies code_of(#[trigger] keys.skip(1)[i]) is Some by {
            assert(keys.skip(1)[i] == keys[i + 1]);
        }
        lemma_first_unknown(keys.skip(1), j - 1);
    }
}

/// A combo without keys does nothing but fail.
pub proof fn lemma_empty_combo_fails(parts: Seq<Seq<char>>)
    requires
        parts.len() == 0,
    ensures
        press_script(parts).len() == 1,
        press_script(parts)[0] == StepView::Fail(Reason::Message("empty key combo"@)),
{
}

/// The modifiers are the keys with the codes of ctrl, shift, alt and super.
pub proof fn lemma_modifiers_by_code(name: Seq<char>)
    ensures
        is_modifier(name) <==> (code_of(name) == Some(29u16) || code_of(name) == Some(42u16)
            || code_of(name) == Some(56u16) || code_of(name) == Some(125u16)),
{
    if is_modifier(name) {
        assert(name_of(29) == Some("ctrl"@));
        assert(name_of(42) == Some("shift"@));
        assert(name_of(56) == Some("alt"@));
        assert(name_of(125) == Some("super"@));
        lemma_named_key_has_code(29);
        lemma_named_key_has_code(42);
        lemma_named_key_has_code(56);
        lemma_named_key_has_code(125);
    } else if code_of(name) is Some {
        lemma_code_names_key(name);
    }
}

/// Parting a combo keeps the order: what comes first in the combo comes first among the modifiers
/// or among the other keys, and a single key is one or the other.
pub proof fn lemma_combo_keeps_order(a: Seq<Seq<char>>, b: Seq<Seq<char>>, name: Seq<char>)
    ensures
        modifiers(a + b) == modifiers(a) + modifiers(b),
        plain_keys(a + b) == plain_keys(a) + plain_keys(b),
        is_modifier(name) ==> modifiers(seq![name]) == seq![name] && plain_keys(
            seq![name],
        ).len() == 0,
        !is_modifier(name) ==> plain_keys(seq![name]) == seq![name] && modifiers(
            seq![name],
        ).len() == 0,
    decreases b.len(),
{
    reveal(Seq::filter);
    let one = seq![name];
    assert(one.drop_last() =~= Seq::<Seq<char>>::empty());
    let keeps = |p: Seq<char>| is_modifier(p);
    let drops = |p: Seq<char>| !is_modifier(p);
    assert(one.drop_last().filter(keeps) =~= Seq::<Seq<char>>::empty());
    assert(one.drop_last().filter(drops) =~= Seq::<Seq<char>>::empty());
    assert(is_modifier(name) ==> modifiers(one) =~= one);
    assert(!is_modifier(name) ==> plain_keys(one) =~= one);
    if b.len() == 0 {
        assert(a + b =~= a);
        assert(modifiers(a) + modifiers(b) =~= modifiers(a));
        assert(plain_keys(a) + plain_keys(b) =~= plain_keys(a));
    } else {
        assert((a + b).drop_last() =~= a + b.drop_last());
        assert((a + b).last() == b.last());
        lemma_combo_keeps_order(a, b.drop_last(), name);
        assert(modifiers(a + b) =~= modifiers(a) + modifiers(b));
        assert(plain_keys(a + b) =~= plain_keys(a) + plain_keys(b));
    }
}

/// Holding a combo sends its first key down, releasing it sends that key up: one event, which reads
/// back, and nothing else. A first key without a code sends nothing, and is named.
pub proof fn lemma_hold_sends_first_key(parts: Seq<Seq<char>>, down: bool)
    requires
        parts.len() > 0,
    ensures
        ({
            let script = hold_script(parts, down);
            &&& script.len() == 2
            &&& script[0] is NeedYdotool
            &&& match code_of(parts[0]) {
                Some(code) => {
                    &&& script[1] is Run
                    &&& script[1]->Run_0.program == "ydotool"@
                    &&& script[1]->Run_0.args.len() == 2
                    &&& script[1]->Run_0.args[0] == "key"@
                    &&& read_event(script[1]->Run_0.args[1]) == Some(KeyEvent { code, down })
                },
                None => {
                    &&& script[1] is Fail
                    &&& script[1]->Fail_0 is Message
                    &&& fails_with(script[1]->Fail_0->Message_0, "unknown key `"@, parts[0], "`"@)
                },
            }
        }),
{
    lemma_fails_with("unknown key `"@, parts[0], "`"@);
    if let Some(code) = code_of(parts[0]) {
        lemma_event_reads_back(KeyEvent { code, down });
    }
}

/// Holding or releasing no key at all fails and sends nothing.
pub proof fn lemma_hold_of_nothing_fails(parts: Seq<Seq<char>>, down: bool)
    requires
        parts.len() == 0,
    ensures
        hold_script(parts, down).len() == 2,
        hold_script(parts, down)[0] is NeedYdotool,
        hold_script(parts, down)[1] is Fail,
{
    if code_of(Seq::empty()) is Some {
        lemma_code_names_key(Seq::empty());
        lemma_names_are_not_empty(code_of(Seq::empty())->0);
    }
}

} // verus!
