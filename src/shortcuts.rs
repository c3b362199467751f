//! Parsing of keyboard shortcuts such as `SUPER+ALT+R`.

use vstd::prelude::*;
use vstd::string::StrSliceExecFns;
use crate::text::{trim_str, trimmed, same_text};

verus! {

/// The keys a shortcut can name (Linux input key names).
#[derive(Debug, Clone, Copy, PartialEq, Eq, Structural)]
pub enum ShortcutKey {
    LeftMeta,
    LeftAlt,
    LeftCtrl,
    LeftShift,
    F1,
    F2,
    F3,
    F4,
    F5,
    F6,
    F7,
    F8,
    F9,
    F10,
    F11,
    F12,
    A,
    B,
    C,
    D,
    E,
    F,
    G,
    H,
    I,
    J,
    K,
    L,
    M,
    N,
    O,
    P,
    Q,
    R,
    S,
    T,
    U,
    V,
    W,
    X,
    Y,
    Z,
    Digit0,
    Digit1,
    Digit2,
    Digit3,
    Digit4,
    Digit5,
    Digit6,
    Digit7,
    Digit8,
    Digit9,
    Space,
    Enter,
    Esc,
    Tab,
    Backspace,
    Delete,
    Insert,
    Home,
    End,
    PageUp,
    PageDown,
    Up,
    Down,
    Left,
    Right,
}

/// What `str::to_uppercase` makes of `s` (full Unicode case mapping).
pub uninterp spec fn upper_of(s: Seq<char>) -> Seq<char>;

/// Relies on `str::to_uppercase`: the result depends on the text alone.
#[verifier::external_body]
fn to_uppercase(s: &str) -> (r: String)
    ensures
        r@ == upper_of(s@),
{
    s.to_uppercase()
}

/// The key an uppercase name stands for.
pub open spec fn key_named(name: Seq<char>) -> Option<ShortcutKey> {
    if name == "SUPER"@ {
        Some(ShortcutKey::LeftMeta)
    } else if name == "META"@ {
        Some(ShortcutKey::LeftMeta)
    } else if name == "WIN"@ {
        Some(ShortcutKey::LeftMeta)
    } else if name == "WINDOWS"@ {
        Some(ShortcutKey::LeftMeta)
    } else if name == "ALT"@ {
        Some(ShortcutKey::LeftAlt)
    } else if name == "CTRL"@ {
        Some(ShortcutKey::LeftCtrl)
    } else if name == "CONTROL"@ {
        Some(ShortcutKey::LeftCtrl)
    } else if name == "SHIFT"@ {
        Some(ShortcutKey::LeftShift)
    } else if name == "F1"@ {
        Some(ShortcutKey::F1)
    } else if name == "F2"@ {
        Some(ShortcutKey::F2)
    } else if name == "F3"@ {
        Some(ShortcutKey::F3)
    } else if name == "F4"@ {
        Some(ShortcutKey::F4)
    } else if name == "F5"@ {
        Some(ShortcutKey::F5)
    } else if name == "F6"@ {
        Some(ShortcutKey::F6)
    } else if name == "F7"@ {
        Some(ShortcutKey::F7)
    } else if name == "F8"@ {
        Some(ShortcutKey::F8)
    } else if name == "F9"@ {
        Some(ShortcutKey::F9)
    } else if name == "F10"@ {
        Some(ShortcutKey::F10)
    } else if name == "F11"@ {
        Some(ShortcutKey::F11)
    } else if name == "F12"@ {
        Some(ShortcutKey::F12)
    } else if name == "A"@ {
        Some(ShortcutKey::A)
    } else if name == "B"@ {
        Some(ShortcutKey::B)
    } else if name == "C"@ {
        Some(ShortcutKey::C)
    } else if name == "D"@ {
        Some(ShortcutKey::D)
    } else if name == "E"@ {
        Some(ShortcutKey::E)
    } else if name == "F"@ {
        Some(ShortcutKey::F)
    } else if name == "G"@ {
        Some(ShortcutKey::G)
    } else if name == "H"@ {
        Some(ShortcutKey::H)
    } else if name == "I"@ {
        Some(ShortcutKey::I)
    } else if name == "J"@ {
        Some(ShortcutKey::J)
    } else if name == "K"@ {
        Some(ShortcutKey::K)
    } else if name == "L"@ {
        Some(ShortcutKey::L)
    } else if name == "M"@ {
        Some(ShortcutKey::M)
    } else if name == "N"@ {
        Some(ShortcutKey::N)
    } else if name == "O"@ {
        Some(ShortcutKey::O)
    } else if name == "P"@ {
        Some(ShortcutKey::P)
    } else if name == "Q"@ {
        Some(ShortcutKey::Q)
    } else if name == "R"@ {
        Some(ShortcutKey::R)
    } else if name == "S"@ {
        Some(ShortcutKey::S)
    } else if name == "T"@ {
        Some(ShortcutKey::T)
    } else if name == "U"@ {
        Some(ShortcutKey::U)
    } else if name == "V"@ {
        Some(ShortcutKey::V)
    } else if name == "W"@ {
        Some(ShortcutKey::W)
    } else if name == "X"@ {
        Some(ShortcutKey::X)
    } else if name == "Y"@ {
        Some(ShortcutKey::Y)
    } else if name == "Z"@ {
        Some(ShortcutKey::Z)
    } else if name == "0"@ {
        Some(ShortcutKey::Digit0)
    } else if name == "1"@ {
        Some(ShortcutKey::Digit1)
    } else if name == "2"@ {
        Some(ShortcutKey::Digit2)
    } else if name == "3"@ {
        Some(ShortcutKey::Digit3)
    } else if name == "4"@ {
        Some(ShortcutKey::Digit4)
    } else if name == "5"@ {
        Some(ShortcutKey::Digit5)
    } else if name == "6"@ {
        Some(ShortcutKey::Digit6)
    } else if name == "7"@ {
        Some(ShortcutKey::Digit7)
    } else if name == "8"@ {
        Some(ShortcutKey::Digit8)
    } else if name == "9"@ {
        Some(ShortcutKey::Digit9)
    } else if name == "SPACE"@ {
        Some(ShortcutKey::Space)
    } else if name == "ENTER"@ {
        Some(ShortcutKey::Enter)
    } else if name == "RETURN"@ {
        Some(ShortcutKey::Enter)
    } else if name == "ESC"@ {
        Some(ShortcutKey::Esc)
    } else if name == "ESCAPE"@ {
        Some(ShortcutKey::Esc)
    } else if name == "TAB"@ {
        Some(ShortcutKey::Tab)
    } else if name == "BACKSPACE"@ {
        Some(ShortcutKey::Backspace)
    } else if name == "DELETE"@ {
        Some(ShortcutKey::Delete)
    } else if name == "DEL"@ {
        Some(ShortcutKey::Delete)
    } else if name == "INSERT"@ {
        Some(ShortcutKey::Insert)
    } else if name == "INS"@ {
        Some(ShortcutKey::Insert)
    } else if name == "HOME"@ {
        Some(ShortcutKey::Home)
    } else if name == "END"@ {
        Some(ShortcutKey::End)
    } else if name == "PAGEUP"@ {
        Some(ShortcutKey::PageUp)
    } else if name == "PGUP"@ {
        Some(ShortcutKey::PageUp)
    } else if name == "PAGEDOWN"@ {
        Some(ShortcutKey::PageDown)
    } else if name == "PGDOWN"@ {
        Some(ShortcutKey::PageDown)
    } else if name == "UP"@ {
        Some(ShortcutKey::Up)
    } else if name == "DOWN"@ {
        Some(ShortcutKey::Down)
    } else if name == "LEFT"@ {
        Some(ShortcutKey::Left)
    } else if name == "RIGHT"@ {
        Some(ShortcutKey::Right)
    } else {
        None
    }
}

fn lookup_key(name: &str) -> (r: Option<ShortcutKey>)
    ensures
        r == key_named(name@),
{
    if same_text(name, "SUPER") {
        Some(ShortcutKey::LeftMeta)
    } else if same_text(name, "META") {
        Some(ShortcutKey::LeftMeta)
    } else if same_text(name, "WIN") {
        Some(ShortcutKey::LeftMeta)
    } else if same_text(name, "WINDOWS") {
        Some(ShortcutKey::LeftMeta)
    } else if same_text(name, "ALT") {
        Some(ShortcutKey::LeftAlt)
    } else if same_text(name, "CTRL") {
        Some(ShortcutKey::LeftCtrl)
    } else if same_text(name, "CONTROL") {
        Some(ShortcutKey::LeftCtrl)
    } else if same_text(name, "SHIFT") {
        Some(ShortcutKey::LeftShift)
    } else if same_text(name, "F1") {
        Some(ShortcutKey::F1)
    } else if same_text(name, "F2") {
        Some(ShortcutKey::F2)
    } else if same_text(name, "F3") {
        Some(ShortcutKey::F3)
    } else if same_text(name, "F4") {
        Some(ShortcutKey::F4)
    } else if same_text(name, "F5") {
        Some(ShortcutKey::F5)
    } else if same_text(name, "F6") {
        Some(ShortcutKey::F6)
    } else if same_text(name, "F7") {
        Some(ShortcutKey::F7)
    } else if same_text(name, "F8") {
        Some(ShortcutKey::F8)
    } else if same_text(name, "F9") {
        Some(ShortcutKey::F9)
    } else if same_text(name, "F10") {
        Some(ShortcutKey::F10)
    } else if same_text(name, "F11") {
        Some(ShortcutKey::F11)
    } else if same_text(name, "F12") {
        Some(ShortcutKey::F12)
    } else if same_text(name, "A") {
        Some(ShortcutKey::A)
    } else if same_text(name, "B") {
        Some(ShortcutKey::B)
    } else if same_text(name, "C") {
        Some(ShortcutKey::C)
    } else if same_text(name, "D") {
        Some(ShortcutKey::D)
    } else if same_text(name, "E") {
        Some(ShortcutKey::E)
    } else if same_text(name, "F") {
        Some(ShortcutKey::F)
    } else if same_text(name, "G") {
        Some(ShortcutKey::G)
    } else if same_text(name, "H") {
        Some(ShortcutKey::H)
    } else if same_text(name, "I") {
        Some(ShortcutKey::I)
    } else if same_text(name, "J") {
        Some(ShortcutKey::J)
    } else if same_text(name, "K") {
        Some(ShortcutKey::K)
    } else if same_text(name, "L") {
        Some(ShortcutKey::L)
    } else if same_text(name, "M") {
        Some(ShortcutKey::M)
    } else if same_text(name, "N") {
        Some(ShortcutKey::N)
    } else if same_text(name, "O") {
        Some(ShortcutKey::O)
    } else if same_text(name, "P") {
        Some(ShortcutKey::P)
    } else if same_text(name, "Q") {
        Some(ShortcutKey::Q)
    } else if same_text(name, "R") {
        Some(ShortcutKey::R)
    } else if same_text(name, "S") {
        Some(ShortcutKey::S)
    } else if same_text(name, "T") {
        Some(ShortcutKey::T)
    } else if same_text(name, "U") {
        Some(ShortcutKey::U)
    } else if same_text(name, "V") {
        Some(ShortcutKey::V)
    } else if same_text(name, "W") {
        Some(ShortcutKey::W)
    } else if same_text(name, "X") {
        Some(ShortcutKey::X)
    } else if same_text(name, "Y") {
        Some(ShortcutKey::Y)
    } else if same_text(name, "Z") {
        Some(ShortcutKey::Z)
    } else if same_text(name, "0") {
        Some(ShortcutKey::Digit0)
    } else if same_text(name, "1") {
        Some(ShortcutKey::Digit1)
    } else if same_text(name, "2") {
        Some(ShortcutKey::Digit2)
    } else if same_text(name, "3") {
        Some(ShortcutKey::Digit3)
    } else if same_text(name, "4") {
        Some(ShortcutKey::Digit4)
    } else if same_text(name, "5") {
        Some(ShortcutKey::Digit5)
    } else if same_text(name, "6") {
        Some(ShortcutKey::Digit6)
    } else if same_text(name, "7") {
        Some(ShortcutKey::Digit7)
    } else if same_text(name, "8") {
        Some(ShortcutKey::Digit8)
    } else if same_text(name, "9") {
        Some(ShortcutKey::Digit9)
    } else if same_text(name, "SPACE") {
        Some(ShortcutKey::Space)
    } else if same_text(name, "ENTER") {
        Some(ShortcutKey::Enter)
    } else if same_text(name, "RETURN") {
        Some(ShortcutKey::Enter)
    } else if same_text(name, "ESC") {
        Some(ShortcutKey::Esc)
    } else if same_text(name, "ESCAPE") {
        Some(ShortcutKey::Esc)
    } else if same_text(name, "TAB") {
        Some(ShortcutKey::Tab)
    } else if same_text(name, "BACKSPACE") {
        Some(ShortcutKey::Backspace)
    } else if same_text(name, "DELETE") {
        Some(ShortcutKey::Delete)
    } else if same_text(name, "DEL") {
        Some(ShortcutKey::Delete)
    } else if same_text(name, "INSERT") {
        Some(ShortcutKey::Insert)
    } else if same_text(name, "INS") {
        Some(ShortcutKey::Insert)
    } else if same_text(name, "HOME") {
        Some(ShortcutKey::Home)
    } else if same_text(name, "END") {
        Some(ShortcutKey::End)
    } else if same_text(name, "PAGEUP") {
        Some(ShortcutKey::PageUp)
    } else if same_text(name, "PGUP") {
        Some(ShortcutKey::PageUp)
    } else if same_text(name, "PAGEDOWN") {
        Some(ShortcutKey::PageDown)
    } else if same_text(name, "PGDOWN") {
        Some(ShortcutKey::PageDown)
    } else if same_text(name, "UP") {
        Some(ShortcutKey::Up)
    } else if same_text(name, "DOWN") {
        Some(ShortcutKey::Down)
    } else if same_text(name, "LEFT") {
        Some(ShortcutKey::Left)
    } else if same_text(name, "RIGHT") {
        Some(ShortcutKey::Right)
    } else {
        None
    }
}

/// Why a shortcut was refused.
#[derive(Debug, Clone, PartialEq, Eq)]
pub enum ShortcutError {
    /// A part, shown in uppercase, that names no key.
    UnknownKey(String),
}

/// The key named by `key_str`, already uppercase.
pub fn parse_key(key_str: &str) -> (r: Result<ShortcutKey, ShortcutError>)
    ensures
        key_named(key_str@) matches Some(k) ==> r == Ok::<ShortcutKey, ShortcutError>(k),
        key_named(key_str@) is None ==> (r matches Err(ShortcutError::UnknownKey(s)) && s@ == key_str@),
{
    match lookup_key(key_str) {
        Some(k) => Ok(k),
        None => Err(ShortcutError::UnknownKey(key_str.to_owned())),
    }
}

/// Finished parts and the part being read, splitting `s` at `+`.
pub open spec fn part_scan(s: Seq<char>) -> (Seq<Seq<char>>, Seq<char>)
    decreases s.len(),
{
    if s.len() == 0 {
        (seq![], seq![])
    } else {
        let (done, cur) = part_scan(s.drop_last());
        if s.last() == '+' {
            (done.push(cur), seq![])
        } else {
            (done, cur.push(s.last()))
        }
    }
}

/// The parts of a shortcut, between `+` signs.
pub open spec fn shortcut_parts(s: Seq<char>) -> Seq<Seq<char>> {
    part_scan(s).0.push(part_scan(s).1)
}

/// The keys of `parts` (trimmed and uppercased), each once, in order of
/// first appearance; or the first part that names no key.
pub open spec fn keys_of(parts: Seq<Seq<char>>) -> Result<Seq<ShortcutKey>, Seq<char>>
    decreases parts.len(),
{
    if parts.len() == 0 {
        Ok(seq![])
    } else {
        match keys_of(parts.drop_last()) {
            Err(e) => Err(e),
            Ok(ks) => {
                let name = upper_of(trimmed(parts.last()));
                match key_named(name) {
                    Some(k) => Ok(if ks.contains(k) { ks } else { ks.push(k) }),
                    None => Err(name),
                }
            },
        }
    }
}

fn add_part(part: &str, keys: &mut Vec<ShortcutKey>, error: &mut Option<String>)
    ensures
        ({
            let before: Result<Seq<ShortcutKey>, Seq<char>> = match *old(error) {
                Some(e) => Err(e@),
                None => Ok(old(keys)@),
            };
            let after: Result<Seq<ShortcutKey>, Seq<char>> = match *final(error) {
                Some(e) => Err(e@),
                None => Ok(final(keys)@),
            };
            after == match before {
                Err(e) => Err(e),
                Ok(ks) => {
                    let name = upper_of(trimmed(part@));
                    match key_named(name) {
                        Some(k) => Ok(if ks.contains(k) { ks } else { ks.push(k) }),
                        None => Err(name),
                    }
                },
            }
        }),
{
    if error.is_some() {
        return;
    }
    let name = to_uppercase(trim_str(part));
    match parse_key(name.as_str()) {
        Ok(k) => {
            let mut j: usize = 0;
            while j < keys.len()
                invariant
                    j <= keys@.len(),
                    keys@ == old(keys)@,
                    *error == *old(error),
                    *old(error) is None,
                    key_named(upper_of(trimmed(part@))) == Some(k),
                    forall|m: int| 0 <= m < j ==> keys@[m] != k,
                decreases keys@.len() - j,
            {
                if keys[j] == k {
                    assert(keys@.contains(k));
                    return;
                }
                j = j + 1;
            }
            keys.push(k);
        },
        Err(ShortcutError::UnknownKey(n)) => {
            *error = Some(n);
        },
    }
}

/// The keys of a shortcut such as `SUPER+ALT+R`: parts between `+` signs,
/// trimmed and uppercased, each naming a key; every key listed once.
pub fn parse_shortcut(shortcut: &str) -> (r: Result<Vec<ShortcutKey>, ShortcutError>)
    ensures
        match keys_of(shortcut_parts(shortcut@)) {
            Ok(ks) => r matches Ok(v) && v@ == ks,
            Err(e) => r matches Err(ShortcutError::UnknownKey(s)) && s@ == e,
        },
{
    let n = shortcut.unicode_len();
    let mut keys: Vec<ShortcutKey> = Vec::new();
    let mut error: Option<String> = None;
    let mut start: usize = 0;
    let mut i: usize = 0;
    while i < n
        invariant
            n == shortcut@.len(),
            start <= i <= n,
            part_scan(shortcut@.take(i as int)).1 == shortcut@.subrange(start as int, i as int),
            keys_of(part_scan(shortcut@.take(i as int)).0) == match error {
                Some(e) => Err::<Seq<ShortcutKey>, Seq<char>>(e@),
                None => Ok(keys@),
            },
        decreases n - i,
    {
        let c = shortcut.get_char(i);
        assert(shortcut@.take(i + 1).drop_last() =~= shortcut@.take(i as int));
        if c == '+' {
            let ghost done = part_scan(shortcut@.take(i as int)).0;
            assert(done.push(shortcut@.subrange(start as int, i as int)).drop_last() =~= done);
            add_part(shortcut.substring_char(start, i), &mut keys, &mut error);
            start = i + 1;
        } else {
            assert(shortcut@.subrange(start as int, i + 1) =~= shortcut@.subrange(
                start as int,
                i as int,
            ).push(c));
        }
        i = i + 1;
    }
    assert(shortcut@.take(n as int) =~= shortcut@);
    let ghost parts = shortcut_parts(shortcut@);
    assert(parts.drop_last() =~= part_scan(shortcut@).0);
    add_part(shortcut.substring_char(start, n), &mut keys, &mut error);
    match error {
        Some(e) => Err(ShortcutError::UnknownKey(e)),
        None => Ok(keys),
    }
}

} // verus!
