//! Parsing of human-readable hotkey strings such as `"Ctrl+Shift+A"` or
//! `"F1"` into a key code and a set of modifiers.

use vstd::prelude::*;
use crate::text::{
    chars_of, is_white_space, push_str, str_eq, string_of, trim, trim_end, trim_start,
    trimmed_string,
};

verus! {

/// A physical key that a global shortcut can be bound to.
#[derive(Clone, Copy, Debug, PartialEq, Eq, Structural)]
pub enum Code {
    KeyA,
    KeyB,
    KeyC,
    KeyD,
    KeyE,
    KeyF,
    KeyG,
    KeyH,
    KeyI,
    KeyJ,
    KeyK,
    KeyL,
    KeyM,
    KeyN,
    KeyO,
    KeyP,
    KeyQ,
    KeyR,
    KeyS,
    KeyT,
    KeyU,
    KeyV,
    KeyW,
    KeyX,
    KeyY,
    KeyZ,
    Digit0,
    Digit1,
    Digit2,
    Digit3,
    Digit4,
    Digit5,
    Digit6,
    Digit7,
    Digit8,
    Digit9,
    F1,
    F2,
    F3,
    F4,
    F5,
    F6,
    F7,
    F8,
    F9,
    F10,
    F11,
    F12,
    Enter,
    Escape,
    Space,
    Tab,
    Backspace,
    Delete,
    ArrowUp,
    ArrowDown,
    ArrowLeft,
    ArrowRight,
    Home,
    End,
    PageUp,
    PageDown,
    Insert,
    PrintScreen,
    Pause,
}

/// The modifier keys held together with a shortcut's key.
#[derive(Clone, Copy, Debug, PartialEq, Eq, Structural)]
pub struct Modifiers {
    pub control: bool,
    pub alt: bool,
    pub shift: bool,
    pub super_key: bool,
}

impl Modifiers {
    /// No modifier held.
    pub open spec fn none() -> Modifiers {
        Modifiers { control: false, alt: false, shift: false, super_key: false }
    }

    /// No modifier held.
    pub fn empty() -> (m: Modifiers)
        ensures
            m == Modifiers::none(),
    {
        Modifiers { control: false, alt: false, shift: false, super_key: false }
    }

    /// Whether no modifier is held.
    pub fn is_empty(&self) -> (r: bool)
        ensures
            r == (*self == Modifiers::none()),
    {
        !self.control && !self.alt && !self.shift && !self.super_key
    }
}

/// A key together with the modifiers that must be held with it.
#[derive(Clone, Copy, Debug, PartialEq, Eq, Structural)]
pub struct Shortcut {
    pub mods: Modifiers,
    pub key: Code,
}

/// The key of a capital letter.
pub open spec fn spec_parse_alpha(c: char) -> Code {
    if c == 'A' {
        Code::KeyA
    } else if c == 'B' {
        Code::KeyB
    } else if c == 'C' {
        Code::KeyC
    } else if c == 'D' {
        Code::KeyD
    } else if c == 'E' {
        Code::KeyE
    } else if c == 'F' {
        Code::KeyF
    } else if c == 'G' {
        Code::KeyG
    } else if c == 'H' {
        Code::KeyH
    } else if c == 'I' {
        Code::KeyI
    } else if c == 'J' {
        Code::KeyJ
    } else if c == 'K' {
        Code::KeyK
    } else if c == 'L' {
        Code::KeyL
    } else if c == 'M' {
        Code::KeyM
    } else if c == 'N' {
        Code::KeyN
    } else if c == 'O' {
        Code::KeyO
    } else if c == 'P' {
        Code::KeyP
    } else if c == 'Q' {
        Code::KeyQ
    } else if c == 'R' {
        Code::KeyR
    } else if c == 'S' {
        Code::KeyS
    } else if c == 'T' {
        Code::KeyT
    } else if c == 'U' {
        Code::KeyU
    } else if c == 'V' {
        Code::KeyV
    } else if c == 'W' {
        Code::KeyW
    } else if c == 'X' {
        Code::KeyX
    } else if c == 'Y' {
        Code::KeyY
    } else {
        Code::KeyZ
    }
}

/// The key of a decimal digit.
pub open spec fn spec_parse_digit(c: char) -> Code {
    if c == '0' {
        Code::Digit0
    } else if c == '1' {
        Code::Digit1
    } else if c == '2' {
        Code::Digit2
    } else if c == '3' {
        Code::Digit3
    } else if c == '4' {
        Code::Digit4
    } else if c == '5' {
        Code::Digit5
    } else if c == '6' {
        Code::Digit6
    } else if c == '7' {
        Code::Digit7
    } else if c == '8' {
        Code::Digit8
    } else {
        Code::Digit9
    }
}

/// The key that a multi-character key name denotes, with its aliases.
pub open spec fn spec_named_key(s: Seq<char>) -> Option<Code> {
    if s == "F1"@ {
        Some(Code::F1)
    } else if s == "F2"@ {
        Some(Code::F2)
    } else if s == "F3"@ {
        Some(Code::F3)
    } else if s == "F4"@ {
        Some(Code::F4)
    } else if s == "F5"@ {
        Some(Code::F5)
    } else if s == "F6"@ {
        Some(Code::F6)
    } else if s == "F7"@ {
        Some(Code::F7)
    } else if s == "F8"@ {
        Some(Code::F8)
    } else if s == "F9"@ {
        Some(Code::F9)
    } else if s == "F10"@ {
        Some(Code::F10)
    } else if s == "F11"@ {
        Some(Code::F11)
    } else if s == "F12"@ {
        Some(Code::F12)
    } else if s == "Enter"@ {
        Some(Code::Enter)
    } else if s == "Escape"@ || s == "Esc"@ {
        Some(Code::Escape)
    } else if s == "Space"@ {
        Some(Code::Space)
    } else if s == "Tab"@ {
        Some(Code::Tab)
    } else if s == "Backspace"@ {
        Some(Code::Backspace)
    } else if s == "Delete"@ || s == "Del"@ {
        Some(Code::Delete)
    } else if s == "ArrowUp"@ || s == "Up"@ {
        Some(Code::ArrowUp)
    } else if s == "ArrowDown"@ || s == "Down"@ {
        Some(Code::ArrowDown)
    } else if s == "ArrowLeft"@ || s == "Left"@ {
        Some(Code::ArrowLeft)
    } else if s == "ArrowRight"@ || s == "Right"@ {
        Some(Code::ArrowRight)
    } else if s == "Home"@ {
        Some(Code::Home)
    } else if s == "End"@ {
        Some(Code::End)
    } else if s == "PageUp"@ {
        Some(Code::PageUp)
    } else if s == "PageDown"@ {
        Some(Code::PageDown)
    } else if s == "Insert"@ || s == "Ins"@ {
        Some(Code::Insert)
    } else if s == "PrintScreen"@ || s == "PrtSc"@ || s == "Print"@ {
        Some(Code::PrintScreen)
    } else if s == "Pause"@ {
        Some(Code::Pause)
    } else {
        None
    }
}

/// What `parse_code` gives for a key name: a capital letter or a digit
/// written as one ASCII character, or one of the named keys; anything else
/// is refused with a message naming the input.
pub open spec fn spec_parse_code(s: Seq<char>) -> Result<Code, Seq<char>> {
    if s.len() == 1 && (s[0] as u32) < 128 {
        let c = s[0];
        if 'A' <= c && c <= 'Z' {
            Ok(spec_parse_alpha(c))
        } else if '0' <= c && c <= '9' {
            Ok(spec_parse_digit(c))
        } else {
            Err("Unsupported single key: "@ + s)
        }
    } else {
        match spec_named_key(s) {
            Some(k) => Ok(k),
            None => Err("Unsupported key: "@ + s),
        }
    }
}

/// A result with its error message taken by its characters.
pub open spec fn result_view<T>(r: Result<T, String>) -> Result<T, Seq<char>> {
    match r {
        Ok(v) => Ok(v),
        Err(e) => Err(e@),
    }
}

/// Key of a capital letter `'A'..='Z'`.
fn parse_alpha(c: char) -> (k: Code)
    requires
        'A' <= c <= 'Z',
    ensures
        k == spec_parse_alpha(c),
{
    if c == 'A' {
        Code::KeyA
    } else if c == 'B' {
        Code::KeyB
    } else if c == 'C' {
        Code::KeyC
    } else if c == 'D' {
        Code::KeyD
    } else if c == 'E' {
        Code::KeyE
    } else if c == 'F' {
        Code::KeyF
    } else if c == 'G' {
        Code::KeyG
    } else if c == 'H' {
        Code::KeyH
    } else if c == 'I' {
        Code::KeyI
    } else if c == 'J' {
        Code::KeyJ
    } else if c == 'K' {
        Code::KeyK
    } else if c == 'L' {
        Code::KeyL
    } else if c == 'M' {
        Code::KeyM
    } else if c == 'N' {
        Code::KeyN
    } else if c == 'O' {
        Code::KeyO
    } else if c == 'P' {
        Code::KeyP
    } else if c == 'Q' {
        Code::KeyQ
    } else if c == 'R' {
        Code::KeyR
    } else if c == 'S' {
        Code::KeyS
    } else if c == 'T' {
        Code::KeyT
    } else if c == 'U' {
        Code::KeyU
    } else if c == 'V' {
        Code::KeyV
    } else if c == 'W' {
        Code::KeyW
    } else if c == 'X' {
        Code::KeyX
    } else if c == 'Y' {
        Code::KeyY
    } else {
        Code::KeyZ
    }
}

/// Key of a digit `'0'..='9'`.
fn parse_digit(c: char) -> (k: Code)
    requires
        '0' <= c <= '9',
    ensures
        k == spec_parse_digit(c),
{
    if c == '0' {
        Code::Digit0
    } else if c == '1' {
        Code::Digit1
    } else if c == '2' {
        Code::Digit2
    } else if c == '3' {
        Code::Digit3
    } else if c == '4' {
        Code::Digit4
    } else if c == '5' {
        Code::Digit5
    } else if c == '6' {
        Code::Digit6
    } else if c == '7' {
        Code::Digit7
    } else if c == '8' {
        Code::Digit8
    } else {
        Code::Digit9
    }
}

/// Key of a multi-character key name, if it is one.
fn named_key(key: &str) -> (k: Option<Code>)
    ensures
        k == spec_named_key(key@),
{
    if str_eq(key, "F1") {
        Some(Code::F1)
    } else if str_eq(key, "F2") {
        Some(Code::F2)
    } else if str_eq(key, "F3") {
        Some(Code::F3)
    } else if str_eq(key, "F4") {
        Some(Code::F4)
    } else if str_eq(key, "F5") {
        Some(Code::F5)
    } else if str_eq(key, "F6") {
        Some(Code::F6)
    } else if str_eq(key, "F7") {
        Some(Code::F7)
    } else if str_eq(key, "F8") {
        Some(Code::F8)
    } else if str_eq(key, "F9") {
        Some(Code::F9)
    } else if str_eq(key, "F10") {
        Some(Code::F10)
    } else if str_eq(key, "F11") {
        Some(Code::F11)
    } else if str_eq(key, "F12") {
        Some(Code::F12)
    } else if str_eq(key, "Enter") {
        Some(Code::Enter)
    } else if str_eq(key, "Escape") || str_eq(key, "Esc") {
        Some(Code::Escape)
    } else if str_eq(key, "Space") {
        Some(Code::Space)
    } else if str_eq(key, "Tab") {
        Some(Code::Tab)
    } else if str_eq(key, "Backspace") {
        Some(Code::Backspace)
    } else if str_eq(key, "Delete") || str_eq(key, "Del") {
        Some(Code::Delete)
    } else if str_eq(key, "ArrowUp") || str_eq(key, "Up") {
        Some(Code::ArrowUp)
    } else if str_eq(key, "ArrowDown") || str_eq(key, "Down") {
        Some(Code::ArrowDown)
    } else if str_eq(key, "ArrowLeft") || str_eq(key, "Left") {
        Some(Code::ArrowLeft)
    } else if str_eq(key, "ArrowRight") || str_eq(key, "Right") {
        Some(Code::ArrowRight)
    } else if str_eq(key, "Home") {
        Some(Code::Home)
    } else if str_eq(key, "End") {
        Some(Code::End)
    } else if str_eq(key, "PageUp") {
        Some(Code::PageUp)
    } else if str_eq(key, "PageDown") {
        Some(Code::PageDown)
    } else if str_eq(key, "Insert") || str_eq(key, "Ins") {
        Some(Code::Insert)
    } else if str_eq(key, "PrintScreen") || str_eq(key, "PrtSc") || str_eq(key, "Print") {
        Some(Code::PrintScreen)
    } else if str_eq(key, "Pause") {
        Some(Code::Pause)
    } else {
        None
    }
}

/// Parses a single key name into a key code.
///
/// Supported keys: A-Z, 0-9, F1-F12, Enter, Escape/Esc, Space, Tab,
/// Backspace, Delete/Del, Arrow directions (also Up/Down/Left/Right), Home,
/// End, PageUp, PageDown, Insert/Ins, PrintScreen/PrtSc/Print, Pause.
pub fn parse_code(key: &str) -> (r: Result<Code, String>)
    ensures
        result_view(r) == spec_parse_code(key@),
{
    let n = key.unicode_len();
    if n == 1 {
        let c = key.get_char(0);
        if (c as u32) < 128 {
            if 'A' <= c && c <= 'Z' {
                return Ok(parse_alpha(c));
            } else if '0' <= c && c <= '9' {
                return Ok(parse_digit(c));
            } else {
                let mut msg = string_of("Unsupported single key: ");
                push_str(&mut msg, key);
                return Err(msg);
            }
        }
    }
    match named_key(key) {
        Some(k) => Ok(k),
        None => {
            let mut msg = string_of("Unsupported key: ");
            push_str(&mut msg, key);
            Err(msg)
        },
    }
}


/// The pieces of `s` between `'+'` separators (`str::split('+')`): one more
/// piece than there are separators, each possibly empty.
pub open spec fn split_plus(s: Seq<char>) -> Seq<Seq<char>>
    decreases s.len(),
{
    if s.len() == 0 {
        seq![Seq::<char>::empty()]
    } else {
        let r = split_plus(s.drop_last());
        if s.last() == '+' {
            r.push(Seq::<char>::empty())
        } else {
            r.update(r.len() - 1, r.last().push(s.last()))
        }
    }
}

/// `split_plus` never yields an empty list of pieces.
pub proof fn lemma_split_plus_nonempty(s: Seq<char>)
    ensures
        split_plus(s).len() >= 1,
    decreases s.len(),
{
    if s.len() > 0 {
        lemma_split_plus_nonempty(s.drop_last());
    }
}

/// What one trimmed piece of a hotkey string stands for.
#[derive(Clone, Copy, Debug, PartialEq, Eq, Structural)]
pub enum Part {
    Control,
    Alt,
    Shift,
    Super,
    Key,
}

/// Modifier names and their aliases; any other piece names the key.
pub open spec fn spec_classify(p: Seq<char>) -> Part {
    if p == "Ctrl"@ || p == "Control"@ {
        Part::Control
    } else if p == "Alt"@ {
        Part::Alt
    } else if p == "Shift"@ {
        Part::Shift
    } else if p == "Super"@ || p == "Cmd"@ || p == "Command"@ || p == "Meta"@ || p == "Win"@ {
        Part::Super
    } else {
        Part::Key
    }
}

/// `m` with the modifier that a piece stands for added.
pub open spec fn add_modifier(m: Modifiers, p: Part) -> Modifiers {
    match p {
        Part::Control => Modifiers { control: true, ..m },
        Part::Alt => Modifiers { alt: true, ..m },
        Part::Shift => Modifiers { shift: true, ..m },
        Part::Super => Modifiers { super_key: true, ..m },
        Part::Key => m,
    }
}

/// The effect of one trimmed piece on the modifiers and the key name seen
/// so far: a modifier name adds its modifier, any other piece becomes the
/// key name.
pub open spec fn step_part(acc: (Modifiers, Seq<char>), p: Seq<char>) -> (Modifiers, Seq<char>) {
    if spec_classify(p) == Part::Key {
        (acc.0, p)
    } else {
        (add_modifier(acc.0, spec_classify(p)), acc.1)
    }
}

/// Modifiers and key name gathered from the pieces, left to right, each
/// piece trimmed of surrounding white space.
pub open spec fn fold_parts(parts: Seq<Seq<char>>) -> (Modifiers, Seq<char>)
    decreases parts.len(),
{
    if parts.len() == 0 {
        (Modifiers::none(), Seq::<char>::empty())
    } else {
        step_part(fold_parts(parts.drop_last()), trim(parts.last()))
    }
}

/// What `parse_shortcut` gives for a hotkey string: the modifiers named by
/// its pieces and the key named by the last piece that is not a modifier;
/// refused when that piece is empty or missing, or when it names no key.
pub open spec fn spec_parse_shortcut(s: Seq<char>) -> Result<Shortcut, Seq<char>> {
    let acc = fold_parts(split_plus(s));
    if acc.1.len() == 0 {
        Err("No key specified"@)
    } else {
        match spec_parse_code(acc.1) {
            Ok(k) => Ok(Shortcut { mods: acc.0, key: k }),
            Err(e) => Err(e),
        }
    }
}

fn classify(p: &str) -> (r: Part)
    ensures
        r == spec_classify(p@),
{
    if str_eq(p, "Ctrl") || str_eq(p, "Control") {
        Part::Control
    } else if str_eq(p, "Alt") {
        Part::Alt
    } else if str_eq(p, "Shift") {
        Part::Shift
    } else if str_eq(p, "Super") || str_eq(p, "Cmd") || str_eq(p, "Command") || str_eq(p, "Meta")
        || str_eq(p, "Win") {
        Part::Super
    } else {
        Part::Key
    }
}

fn apply_part(mods: &mut Modifiers, key_part: &mut String, p: String)
    ensures
        (*final(mods), final(key_part)@) == step_part((*old(mods), old(key_part)@), p@),
{
    match classify(p.as_str()) {
        Part::Control => mods.control = true,
        Part::Alt => mods.alt = true,
        Part::Shift => mods.shift = true,
        Part::Super => mods.super_key = true,
        Part::Key => *key_part = p,
    }
}

/// Parses a human-readable hotkey string into a shortcut.
///
/// Format: "Ctrl+Shift+A", "F1", "Alt+Enter", etc.
/// Modifiers: Ctrl/Control, Alt, Shift, Super/Cmd/Command/Meta/Win.
pub fn parse_shortcut(s: &str) -> (r: Result<Shortcut, String>)
    ensures
        result_view(r) == spec_parse_shortcut(s@),
{
    let v = chars_of(s);
    let n = v.len();
    let mut mods = Modifiers::empty();
    let mut key_part = String::new();
    let mut start: usize = 0;
    let mut i: usize = 0;
    proof {
        assert(v@.subrange(0, 0) =~= Seq::<char>::empty());
    }
    while i < n
        invariant
            v@ == s@,
            n == v@.len(),
            start <= i <= n,
            split_plus(v@.subrange(0, i as int)).len() >= 1,
            split_plus(v@.subrange(0, i as int)).last() == v@.subrange(start as int, i as int),
            fold_parts(split_plus(v@.subrange(0, i as int)).drop_last()) == (mods, key_part@),
        decreases n - i,
    {
        let ghost t = v@.subrange(0, i as int);
        let ghost t1 = v@.subrange(0, i + 1);
        assert(t1.drop_last() =~= t);
        if v[i] == '+' {
            let p = trimmed_string(&v, start, i);
            apply_part(&mut mods, &mut key_part, p);
            start = i + 1;
            proof {
                assert(split_plus(t1) == split_plus(t).push(Seq::<char>::empty()));
                assert(split_plus(t1).drop_last() =~= split_plus(t));
                assert(split_plus(t).drop_last() =~= split_plus(t).drop_last());
                assert(v@.subrange(start as int, i + 1) =~= Seq::<char>::empty());
            }
        } else {
            proof {
                let r = split_plus(t);
                assert(split_plus(t1) == r.update(r.len() - 1, r.last().push(v@[i as int])));
                assert(split_plus(t1).drop_last() =~= r.drop_last());
                assert(v@.subrange(start as int, i + 1) =~= v@.subrange(start as int, i as int).push(
                    v@[i as int],
                ));
            }
        }
        i = i + 1;
    }
    let p = trimmed_string(&v, start, n);
    apply_part(&mut mods, &mut key_part, p);
    proof {
        assert(v@.subrange(0, n as int) =~= v@);
    }
    if key_part.as_str().is_empty() {
        return Err(string_of("No key specified"));
    }
    match parse_code(key_part.as_str()) {
        Ok(k) => Ok(Shortcut { mods, key: k }),
        Err(e) => Err(e),
    }
}


/// A parse result with one more modifier added when it succeeded.
pub open spec fn result_with_modifier(r: Result<Shortcut, Seq<char>>, p: Part) -> Result<
    Shortcut,
    Seq<char>,
> {
    match r {
        Ok(sc) => Ok(Shortcut { mods: add_modifier(sc.mods, p), key: sc.key }),
        Err(e) => Err(e),
    }
}

/// Whether a piece of text holds no `'+'`.
pub open spec fn has_no_plus(s: Seq<char>) -> bool {
    forall|i: int| 0 <= i < s.len() ==> s[i] != '+'
}

proof fn lemma_split_no_plus(a: Seq<char>)
    requires
        has_no_plus(a),
    ensures
        split_plus(a) == seq![a],
    decreases a.len(),
{
    if a.len() > 0 {
        lemma_split_no_plus(a.drop_last());
        assert(a.drop_last().push(a.last()) =~= a);
        assert(seq![a.drop_last()].update(0, a.drop_last().push(a.last())) =~= seq![a]);
    } else {
        assert(a =~= Seq::<char>::empty());
    }
}

proof fn lemma_split_prefix(m: Seq<char>, s: Seq<char>)
    requires
        has_no_plus(m),
    ensures
        split_plus(m + seq!['+'] + s) == seq![m] + split_plus(s),
    decreases s.len(),
{
    let ms = m + seq!['+'];
    if s.len() == 0 {
        lemma_split_no_plus(m);
        assert(ms + s =~= ms);
        assert(ms.drop_last() =~= m);
        assert(seq![m].push(Seq::<char>::empty()) =~= seq![m] + seq![Seq::<char>::empty()]);
    } else {
        lemma_split_prefix(m, s.drop_last());
        lemma_split_plus_nonempty(s.drop_last());
        assert((ms + s).drop_last() =~= ms + s.drop_last());
        assert((ms + s).last() == s.last());
        let r = split_plus(s.drop_last());
        let big = seq![m] + r;
        if s.last() == '+' {
            assert(big.push(Seq::<char>::empty()) =~= seq![m] + r.push(Seq::<char>::empty()));
        } else {
            assert(big.update(big.len() - 1, big.last().push(s.last())) =~= seq![m] + r.update(
                r.len() - 1,
                r.last().push(s.last()),
            ));
        }
    }
}

proof fn lemma_fold_prefix(p: Seq<char>, parts: Seq<Seq<char>>)
    requires
        spec_classify(trim(p)) != Part::Key,
    ensures
        fold_parts(seq![p] + parts) == (
            add_modifier(fold_parts(parts).0, spec_classify(trim(p))),
            fold_parts(parts).1,
        ),
    decreases parts.len(),
{
    if parts.len() == 0 {
        assert(seq![p] + parts =~= seq![p]);
        assert(seq![p].drop_last() =~= Seq::<Seq<char>>::empty());
        assert(fold_parts(Seq::<Seq<char>>::empty()) == (Modifiers::none(), Seq::<char>::empty()));
        assert(fold_parts(seq![p]) == step_part(fold_parts(Seq::<Seq<char>>::empty()), trim(p)));
    } else {
        lemma_fold_prefix(p, parts.drop_last());
        assert((seq![p] + parts).drop_last() =~= seq![p] + parts.drop_last());
        assert((seq![p] + parts).last() == parts.last());
        let acc = fold_parts(parts.drop_last());
        let q = trim(parts.last());
        let mp = spec_classify(trim(p));
        if spec_classify(q) != Part::Key {
            let a = add_modifier(add_modifier(acc.0, mp), spec_classify(q));
            let b = add_modifier(add_modifier(acc.0, spec_classify(q)), mp);
            assert(a == b);
        }
    }
}

/// A modifier name followed by `'+'` in front of any hotkey string adds
/// exactly that modifier and changes nothing else: the rest parses to the
/// same key, or fails with the same message.
pub proof fn law_modifier_prefix(m: Seq<char>, s: Seq<char>)
    requires
        has_no_plus(m),
        spec_classify(trim(m)) != Part::Key,
    ensures
        spec_parse_shortcut(m + seq!['+'] + s) == result_with_modifier(
            spec_parse_shortcut(s),
            spec_classify(trim(m)),
        ),
{
    lemma_split_prefix(m, s);
    lemma_fold_prefix(m, split_plus(s));
}

/// The order in which two modifier names are written does not matter.
pub proof fn law_modifiers_commute(m1: Seq<char>, m2: Seq<char>, s: Seq<char>)
    requires
        has_no_plus(m1),
        has_no_plus(m2),
        spec_classify(trim(m1)) != Part::Key,
        spec_classify(trim(m2)) != Part::Key,
    ensures
        spec_parse_shortcut(m1 + seq!['+'] + m2 + seq!['+'] + s) == spec_parse_shortcut(
            m2 + seq!['+'] + m1 + seq!['+'] + s,
        ),
{
    let s2 = m2 + seq!['+'] + s;
    let s1 = m1 + seq!['+'] + s;
    law_modifier_prefix(m2, s);
    law_modifier_prefix(m1, s);
    law_modifier_prefix(m1, s2);
    law_modifier_prefix(m2, s1);
    assert(m1 + seq!['+'] + m2 + seq!['+'] + s =~= m1 + seq!['+'] + s2);
    assert(m2 + seq!['+'] + m1 + seq!['+'] + s =~= m2 + seq!['+'] + s1);
}

/// A string without `'+'` that is not a modifier name parses to the key
/// that `parse_code` gives for it after trimming, with no modifiers; an
/// empty or blank string is refused with "No key specified".
pub proof fn law_single_key(k: Seq<char>)
    requires
        has_no_plus(k),
        spec_classify(trim(k)) == Part::Key,
    ensures
        spec_parse_shortcut(k) == (if trim(k).len() == 0 {
            Err("No key specified"@)
        } else {
            match spec_parse_code(trim(k)) {
                Ok(c) => Ok(Shortcut { mods: Modifiers::none(), key: c }),
                Err(e) => Err(e),
            }
        }),
{
    lemma_split_no_plus(k);
    assert(seq![k].drop_last() =~= Seq::<Seq<char>>::empty());
    assert(fold_parts(Seq::<Seq<char>>::empty()) == (Modifiers::none(), Seq::<char>::empty()));
    assert(fold_parts(seq![k]) == step_part(fold_parts(Seq::<Seq<char>>::empty()), trim(k)));
}

/// A string made of modifier names only has no key and is refused.
pub proof fn law_modifier_only(m: Seq<char>)
    requires
        has_no_plus(m),
        spec_classify(trim(m)) != Part::Key,
    ensures
        spec_parse_shortcut(m) == Err::<Shortcut, Seq<char>>("No key specified"@),
{
    lemma_split_no_plus(m);
    assert(seq![m].drop_last() =~= Seq::<Seq<char>>::empty());
    assert(fold_parts(Seq::<Seq<char>>::empty()) == (Modifiers::none(), Seq::<char>::empty()));
    assert(fold_parts(seq![m]) == step_part(fold_parts(Seq::<Seq<char>>::empty()), trim(m)));
}


/// Each capital letter names its own key: `A` is the A key, ..., `Z` the
/// Z key.
pub proof fn law_letter_keys()
    ensures
        spec_parse_code(seq!['A']) == Ok::<Code, Seq<char>>(Code::KeyA),
        spec_parse_code(seq!['B']) == Ok::<Code, Seq<char>>(Code::KeyB),
        spec_parse_code(seq!['C']) == Ok::<Code, Seq<char>>(Code::KeyC),
        spec_parse_code(seq!['D']) == Ok::<Code, Seq<char>>(Code::KeyD),
        spec_parse_code(seq!['E']) == Ok::<Code, Seq<char>>(Code::KeyE),
        spec_parse_code(seq!['F']) == Ok::<Code, Seq<char>>(Code::KeyF),
        spec_parse_code(seq!['G']) == Ok::<Code, Seq<char>>(Code::KeyG),
        spec_parse_code(seq!['H']) == Ok::<Code, Seq<char>>(Code::KeyH),
        spec_parse_code(seq!['I']) == Ok::<Code, Seq<char>>(Code::KeyI),
        spec_parse_code(seq!['J']) == Ok::<Code, Seq<char>>(Code::KeyJ),
        spec_parse_code(seq!['K']) == Ok::<Code, Seq<char>>(Code::KeyK),
        spec_parse_code(seq!['L']) == Ok::<Code, Seq<char>>(Code::KeyL),
        spec_parse_code(seq!['M']) == Ok::<Code, Seq<char>>(Code::KeyM),
        spec_parse_code(seq!['N']) == Ok::<Code, Seq<char>>(Code::KeyN),
        spec_parse_code(seq!['O']) == Ok::<Code, Seq<char>>(Code::KeyO),
        spec_parse_code(seq!['P']) == Ok::<Code, Seq<char>>(Code::KeyP),
        spec_parse_code(seq!['Q']) == Ok::<Code, Seq<char>>(Code::KeyQ),
        spec_parse_code(seq!['R']) == Ok::<Code, Seq<char>>(Code::KeyR),
        spec_parse_code(seq!['S']) == Ok::<Code, Seq<char>>(Code::KeyS),
        spec_parse_code(seq!['T']) == Ok::<Code, Seq<char>>(Code::KeyT),
        spec_parse_code(seq!['U']) == Ok::<Code, Seq<char>>(Code::KeyU),
        spec_parse_code(seq!['V']) == Ok::<Code, Seq<char>>(Code::KeyV),
        spec_parse_code(seq!['W']) == Ok::<Code, Seq<char>>(Code::KeyW),
        spec_parse_code(seq!['X']) == Ok::<Code, Seq<char>>(Code::KeyX),
        spec_parse_code(seq!['Y']) == Ok::<Code, Seq<char>>(Code::KeyY),
        spec_parse_code(seq!['Z']) == Ok::<Code, Seq<char>>(Code::KeyZ),
{
}

/// Each decimal digit names its own key: `0` is the 0 key, ..., `9` the 9
/// key.
pub proof fn law_digit_keys()
    ensures
        spec_parse_code(seq!['0']) == Ok::<Code, Seq<char>>(Code::Digit0),
        spec_parse_code(seq!['1']) == Ok::<Code, Seq<char>>(Code::Digit1),
        spec_parse_code(seq!['2']) == Ok::<Code, Seq<char>>(Code::Digit2),
        spec_parse_code(seq!['3']) == Ok::<Code, Seq<char>>(Code::Digit3),
        spec_parse_code(seq!['4']) == Ok::<Code, Seq<char>>(Code::Digit4),
        spec_parse_code(seq!['5']) == Ok::<Code, Seq<char>>(Code::Digit5),
        spec_parse_code(seq!['6']) == Ok::<Code, Seq<char>>(Code::Digit6),
        spec_parse_code(seq!['7']) == Ok::<Code, Seq<char>>(Code::Digit7),
        spec_parse_code(seq!['8']) == Ok::<Code, Seq<char>>(Code::Digit8),
        spec_parse_code(seq!['9']) == Ok::<Code, Seq<char>>(Code::Digit9),
{
}

/// Each documented key name names the key it says, its aliases the same
/// key: `F1`..`F12`, `Enter`, `Escape`/`Esc`, `Space`, `Tab`,
/// `Backspace`, `Delete`/`Del`, the arrows (also `Up`, `Down`, `Left`,
/// `Right`), `Home`, `End`, `PageUp`, `PageDown`, `Insert`/`Ins`,
/// `PrintScreen`/`PrtSc`/`Print` and `Pause`.
pub proof fn law_named_keys()
    ensures
        spec_parse_code("F1"@) == Ok::<Code, Seq<char>>(Code::F1),
        spec_parse_code("F2"@) == Ok::<Code, Seq<char>>(Code::F2),
        spec_parse_code("F3"@) == Ok::<Code, Seq<char>>(Code::F3),
        spec_parse_code("F4"@) == Ok::<Code, Seq<char>>(Code::F4),
        spec_parse_code("F5"@) == Ok::<Code, Seq<char>>(Code::F5),
        spec_parse_code("F6"@) == Ok::<Code, Seq<char>>(Code::F6),
        spec_parse_code("F7"@) == Ok::<Code, Seq<char>>(Code::F7),
        spec_parse_code("F8"@) == Ok::<Code, Seq<char>>(Code::F8),
        spec_parse_code("F9"@) == Ok::<Code, Seq<char>>(Code::F9),
        spec_parse_code("F10"@) == Ok::<Code, Seq<char>>(Code::F10),
        spec_parse_code("F11"@) == Ok::<Code, Seq<char>>(Code::F11),
        spec_parse_code("F12"@) == Ok::<Code, Seq<char>>(Code::F12),
        spec_parse_code("Enter"@) == Ok::<Code, Seq<char>>(Code::Enter),
        spec_parse_code("Escape"@) == Ok::<Code, Seq<char>>(Code::Escape),
        spec_parse_code("Esc"@) == Ok::<Code, Seq<char>>(Code::Escape),
        spec_parse_code("Space"@) == Ok::<Code, Seq<char>>(Code::Space),
        spec_parse_code("Tab"@) == Ok::<Code, Seq<char>>(Code::Tab),
        spec_parse_code("Backspace"@) == Ok::<Code, Seq<char>>(Code::Backspace),
        spec_parse_code("Delete"@) == Ok::<Code, Seq<char>>(Code::Delete),
        spec_parse_code("Del"@) == Ok::<Code, Seq<char>>(Code::Delete),
        spec_parse_code("ArrowUp"@) == Ok::<Code, Seq<char>>(Code::ArrowUp),
        spec_parse_code("Up"@) == Ok::<Code, Seq<char>>(Code::ArrowUp),
        spec_parse_code("ArrowDown"@) == Ok::<Code, Seq<char>>(Code::ArrowDown),
        spec_parse_code("Down"@) == Ok::<Code, Seq<char>>(Code::ArrowDown),
        spec_parse_code("ArrowLeft"@) == Ok::<Code, Seq<char>>(Code::ArrowLeft),
        spec_parse_code("Left"@) == Ok::<Code, Seq<char>>(Code::ArrowLeft),
        spec_parse_code("ArrowRight"@) == Ok::<Code, Seq<char>>(Code::ArrowRight),
        spec_parse_code("Right"@) == Ok::<Code, Seq<char>>(Code::ArrowRight),
        spec_parse_code("Home"@) == Ok::<Code, Seq<char>>(Code::Home),
        spec_parse_code("End"@) == Ok::<Code, Seq<char>>(Code::End),
        spec_parse_code("PageUp"@) == Ok::<Code, Seq<char>>(Code::PageUp),
        spec_parse_code("PageDown"@) == Ok::<Code, Seq<char>>(Code::PageDown),
        spec_parse_code("Insert"@) == Ok::<Code, Seq<char>>(Code::Insert),
        spec_parse_code("Ins"@) == Ok::<Code, Seq<char>>(Code::Insert),
        spec_parse_code("PrintScreen"@) == Ok::<Code, Seq<char>>(Code::PrintScreen),
        spec_parse_code("PrtSc"@) == Ok::<Code, Seq<char>>(Code::PrintScreen),
        spec_parse_code("Print"@) == Ok::<Code, Seq<char>>(Code::PrintScreen),
        spec_parse_code("Pause"@) == Ok::<Code, Seq<char>>(Code::Pause),
{
    reveal_strlit("F1");
    reveal_strlit("F2");
    reveal_strlit("F3");
    reveal_strlit("F4");
    reveal_strlit("F5");
    reveal_strlit("F6");
    reveal_strlit("F7");
    reveal_strlit("F8");
    reveal_strlit("F9");
    reveal_strlit("F10");
    reveal_strlit("F11");
    reveal_strlit("F12");
    reveal_strlit("Enter");
    reveal_strlit("Escape");
    reveal_strlit("Esc");
    reveal_strlit("Space");
    reveal_strlit("Tab");
    reveal_strlit("Backspace");
    reveal_strlit("Delete");
    reveal_strlit("Del");
    reveal_strlit("ArrowUp");
    reveal_strlit("Up");
    reveal_strlit("ArrowDown");
    reveal_strlit("Down");
    reveal_strlit("ArrowLeft");
    reveal_strlit("Left");
    reveal_strlit("ArrowRight");
    reveal_strlit("Right");
    reveal_strlit("Home");
    reveal_strlit("End");
    reveal_strlit("PageUp");
    reveal_strlit("PageDown");
    reveal_strlit("Insert");
    reveal_strlit("Ins");
    reveal_strlit("PrintScreen");
    reveal_strlit("PrtSc");
    reveal_strlit("Print");
    reveal_strlit("Pause");
    assert("F1"@[0] == 'F');
    assert("F1"@[1] == '1');
    assert("F2"@[0] == 'F');
    assert("F2"@[1] == '2');
    assert("F3"@[0] == 'F');
    assert("F3"@[1] == '3');
    assert("F4"@[0] == 'F');
    assert("F4"@[1] == '4');
    assert("F5"@[0] == 'F');
    assert("F5"@[1] == '5');
    assert("F6"@[0] == 'F');
    assert("F6"@[1] == '6');
    assert("F7"@[0] == 'F');
    assert("F7"@[1] == '7');
    assert("F8"@[0] == 'F');
    assert("F8"@[1] == '8');
    assert("F9"@[0] == 'F');
    assert("F9"@[1] == '9');
    assert("F10"@[0] == 'F');
    assert("F10"@[1] == '1');
    assert("F10"@[2] == '0');
    assert("F11"@[0] == 'F');
    assert("F11"@[1] == '1');
    assert("F11"@[2] == '1');
    assert("F12"@[0] == 'F');
    assert("F12"@[1] == '1');
    assert("F12"@[2] == '2');
    assert("Enter"@[0] == 'E');
    assert("Enter"@[1] == 'n');
    assert("Enter"@[2] == 't');
    assert("Enter"@[3] == 'e');
    assert("Enter"@[4] == 'r');
    assert("Escape"@[0] == 'E');
    assert("Escape"@[1] == 's');
    assert("Escape"@[2] == 'c');
    assert("Escape"@[3] == 'a');
    assert("Escape"@[4] == 'p');
    assert("Escape"@[5] == 'e');
    assert("Esc"@[0] == 'E');
    assert("Esc"@[1] == 's');
    assert("Esc"@[2] == 'c');
    assert("Space"@[0] == 'S');
    assert("Space"@[1] == 'p');
    assert("Space"@[2] == 'a');
    assert("Space"@[3] == 'c');
    assert("Space"@[4] == 'e');
    assert("Tab"@[0] == 'T');
    assert("Tab"@[1] == 'a');
    assert("Tab"@[2] == 'b');
    assert("Backspace"@[0] == 'B');
    assert("Backspace"@[1] == 'a');
    assert("Backspace"@[2] == 'c');
    assert("Backspace"@[3] == 'k');
    assert("Backspace"@[4] == 's');
    assert("Backspace"@[5] == 'p');
    assert("Backspace"@[6] == 'a');
    assert("Backspace"@[7] == 'c');
    assert("Backspace"@[8] == 'e');
    assert("Delete"@[0] == 'D');
    assert("Delete"@[1] == 'e');
    assert("Delete"@[2] == 'l');
    assert("Delete"@[3] == 'e');
    assert("Delete"@[4] == 't');
    assert("Delete"@[5] == 'e');
    assert("Del"@[0] == 'D');
    assert("Del"@[1] == 'e');
    assert("Del"@[2] == 'l');
    assert("ArrowUp"@[0] == 'A');
    assert("ArrowUp"@[1] == 'r');
    assert("ArrowUp"@[2] == 'r');
    assert("ArrowUp"@[3] == 'o');
    assert("ArrowUp"@[4] == 'w');
    assert("ArrowUp"@[5] == 'U');
    assert("ArrowUp"@[6] == 'p');
    assert("Up"@[0] == 'U');
    assert("Up"@[1] == 'p');
    assert("ArrowDown"@[0] == 'A');
    assert("ArrowDown"@[1] == 'r');
    assert("ArrowDown"@[2] == 'r');
    assert("ArrowDown"@[3] == 'o');
    assert("ArrowDown"@[4] == 'w');
    assert("ArrowDown"@[5] == 'D');
    assert("ArrowDown"@[6] == 'o');
    assert("ArrowDown"@[7] == 'w');
    assert("ArrowDown"@[8] == 'n');
    assert("Down"@[0] == 'D');
    assert("Down"@[1] == 'o');
    assert("Down"@[2] == 'w');
    assert("Down"@[3] == 'n');
    assert("ArrowLeft"@[0] == 'A');
    assert("ArrowLeft"@[1] == 'r');
    assert("ArrowLeft"@[2] == 'r');
    assert("ArrowLeft"@[3] == 'o');
    assert("ArrowLeft"@[4] == 'w');
    assert("ArrowLeft"@[5] == 'L');
    assert("ArrowLeft"@[6] == 'e');
    assert("ArrowLeft"@[7] == 'f');
    assert("ArrowLeft"@[8] == 't');
    assert("Left"@[0] == 'L');
    assert("Left"@[1] == 'e');
    assert("Left"@[2] == 'f');
    assert("Left"@[3] == 't');
    assert("ArrowRight"@[0] == 'A');
    assert("ArrowRight"@[1] == 'r');
    assert("ArrowRight"@[2] == 'r');
    assert("ArrowRight"@[3] == 'o');
    assert("ArrowRight"@[4] == 'w');
    assert("ArrowRight"@[5] == 'R');
    assert("ArrowRight"@[6] == 'i');
    assert("ArrowRight"@[7] == 'g');
    assert("ArrowRight"@[8] == 'h');
    assert("ArrowRight"@[9] == 't');
    assert("Right"@[0] == 'R');
    assert("Right"@[1] == 'i');
    assert("Right"@[2] == 'g');
    assert("Right"@[3] == 'h');
    assert("Right"@[4] == 't');
    assert("Home"@[0] == 'H');
    assert("Home"@[1] == 'o');
    assert("Home"@[2] == 'm');
    assert("Home"@[3] == 'e');
    assert("End"@[0] == 'E');
    assert("End"@[1] == 'n');
    assert("End"@[2] == 'd');
    assert("PageUp"@[0] == 'P');
    assert("PageUp"@[1] == 'a');
    assert("PageUp"@[2] == 'g');
    assert("PageUp"@[3] == 'e');
    assert("PageUp"@[4] == 'U');
    assert("PageUp"@[5] == 'p');
    assert("PageDown"@[0] == 'P');
    assert("PageDown"@[1] == 'a');
    assert("PageDown"@[2] == 'g');
    assert("PageDown"@[3] == 'e');
    assert("PageDown"@[4] == 'D');
    assert("PageDown"@[5] == 'o');
    assert("PageDown"@[6] == 'w');
    assert("PageDown"@[7] == 'n');
    assert("Insert"@[0] == 'I');
    assert("Insert"@[1] == 'n');
    assert("Insert"@[2] == 's');
    assert("Insert"@[3] == 'e');
    assert("Insert"@[4] == 'r');
    assert("Insert"@[5] == 't');
    assert("Ins"@[0] == 'I');
    assert("Ins"@[1] == 'n');
    assert("Ins"@[2] == 's');
    assert("PrintScreen"@[0] == 'P');
    assert("PrintScreen"@[1] == 'r');
    assert("PrintScreen"@[2] == 'i');
    assert("PrintScreen"@[3] == 'n');
    assert("PrintScreen"@[4] == 't');
    assert("PrintScreen"@[5] == 'S');
    assert("PrintScreen"@[6] == 'c');
    assert("PrintScreen"@[7] == 'r');
    assert("PrintScreen"@[8] == 'e');
    assert("PrintScreen"@[9] == 'e');
    assert("PrintScreen"@[10] == 'n');
    assert("PrtSc"@[0] == 'P');
    assert("PrtSc"@[1] == 'r');
    assert("PrtSc"@[2] == 't');
    assert("PrtSc"@[3] == 'S');
    assert("PrtSc"@[4] == 'c');
    assert("Print"@[0] == 'P');
    assert("Print"@[1] == 'r');
    assert("Print"@[2] == 'i');
    assert("Print"@[3] == 'n');
    assert("Print"@[4] == 't');
    assert("Pause"@[0] == 'P');
    assert("Pause"@[1] == 'a');
    assert("Pause"@[2] == 'u');
    assert("Pause"@[3] == 's');
    assert("Pause"@[4] == 'e');
}


/// A shortcut result with the given modifiers added to a parsed one; an
/// error stays as it is.
pub open spec fn with_modifiers(
    r: Result<Shortcut, Seq<char>>,
    control: bool,
    alt: bool,
    shift: bool,
    super_key: bool,
) -> Result<Shortcut, Seq<char>> {
    match r {
        Ok(sc) => Ok(
            Shortcut {
                mods: Modifiers {
                    control: sc.mods.control || control,
                    alt: sc.mods.alt || alt,
                    shift: sc.mods.shift || shift,
                    super_key: sc.mods.super_key || super_key,
                },
                key: sc.key,
            },
        ),
        Err(e) => Err(e),
    }
}

proof fn lemma_modifier_word(w: Seq<char>, s: Seq<char>)
    requires
        w.len() > 0,
        has_no_plus(w),
        !is_white_space(w[0]),
        !is_white_space(w.last()),
        spec_classify(w) != Part::Key,
    ensures
        spec_parse_shortcut(w + seq!['+'] + s) == result_with_modifier(
            spec_parse_shortcut(s),
            spec_classify(w),
        ),
{
    assert(trim_start(w) == w);
    assert(trim_end(w) == w);
    law_modifier_prefix(w, s);
}

/// Each modifier word adds the modifier it names, in front of any
/// shortcut: `Ctrl`/`Control` the control key, `Alt` the alt key, `Shift`
/// the shift key, and `Super`/`Cmd`/`Command`/`Meta`/`Win` the super key.
pub proof fn law_modifier_words(s: Seq<char>)
    ensures
        spec_parse_shortcut("Ctrl"@ + seq!['+'] + s) == with_modifiers(spec_parse_shortcut(s), true, false, false, false),
        spec_parse_shortcut("Control"@ + seq!['+'] + s) == with_modifiers(spec_parse_shortcut(s), true, false, false, false),
        spec_parse_shortcut("Alt"@ + seq!['+'] + s) == with_modifiers(spec_parse_shortcut(s), false, true, false, false),
        spec_parse_shortcut("Shift"@ + seq!['+'] + s) == with_modifiers(spec_parse_shortcut(s), false, false, true, false),
        spec_parse_shortcut("Super"@ + seq!['+'] + s) == with_modifiers(spec_parse_shortcut(s), false, false, false, true),
        spec_parse_shortcut("Cmd"@ + seq!['+'] + s) == with_modifiers(spec_parse_shortcut(s), false, false, false, true),
        spec_parse_shortcut("Command"@ + seq!['+'] + s) == with_modifiers(spec_parse_shortcut(s), false, false, false, true),
        spec_parse_shortcut("Meta"@ + seq!['+'] + s) == with_modifiers(spec_parse_shortcut(s), false, false, false, true),
        spec_parse_shortcut("Win"@ + seq!['+'] + s) == with_modifiers(spec_parse_shortcut(s), false, false, false, true),
{
    reveal_strlit("Ctrl");
    reveal_strlit("Control");
    reveal_strlit("Alt");
    reveal_strlit("Shift");
    reveal_strlit("Super");
    reveal_strlit("Cmd");
    reveal_strlit("Command");
    reveal_strlit("Meta");
    reveal_strlit("Win");
    assert("Ctrl"@[0] == 'C');
    assert("Ctrl"@[1] == 't');
    assert("Ctrl"@[2] == 'r');
    assert("Ctrl"@[3] == 'l');
    assert("Control"@[0] == 'C');
    assert("Control"@[1] == 'o');
    assert("Control"@[2] == 'n');
    assert("Control"@[3] == 't');
    assert("Control"@[4] == 'r');
    assert("Control"@[5] == 'o');
    assert("Control"@[6] == 'l');
    assert("Alt"@[0] == 'A');
    assert("Alt"@[1] == 'l');
    assert("Alt"@[2] == 't');
    assert("Shift"@[0] == 'S');
    assert("Shift"@[1] == 'h');
    assert("Shift"@[2] == 'i');
    assert("Shift"@[3] == 'f');
    assert("Shift"@[4] == 't');
    assert("Super"@[0] == 'S');
    assert("Super"@[1] == 'u');
    assert("Super"@[2] == 'p');
    assert("Super"@[3] == 'e');
    assert("Super"@[4] == 'r');
    assert("Cmd"@[0] == 'C');
    assert("Cmd"@[1] == 'm');
    assert("Cmd"@[2] == 'd');
    assert("Command"@[0] == 'C');
    assert("Command"@[1] == 'o');
    assert("Command"@[2] == 'm');
    assert("Command"@[3] == 'm');
    assert("Command"@[4] == 'a');
    assert("Command"@[5] == 'n');
    assert("Command"@[6] == 'd');
    assert("Meta"@[0] == 'M');
    assert("Meta"@[1] == 'e');
    assert("Meta"@[2] == 't');
    assert("Meta"@[3] == 'a');
    assert("Win"@[0] == 'W');
    assert("Win"@[1] == 'i');
    assert("Win"@[2] == 'n');
    lemma_modifier_word("Ctrl"@, s);
    lemma_modifier_word("Control"@, s);
    lemma_modifier_word("Alt"@, s);
    lemma_modifier_word("Shift"@, s);
    lemma_modifier_word("Super"@, s);
    lemma_modifier_word("Cmd"@, s);
    lemma_modifier_word("Command"@, s);
    lemma_modifier_word("Meta"@, s);
    lemma_modifier_word("Win"@, s);
}

}
