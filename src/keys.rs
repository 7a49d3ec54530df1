//! Key names, Linux input-event key codes, and the rule that decides
//! which hand a key's pose frame belongs to.
use vstd::prelude::*;

verus! {

// Key codes from the Linux input-event interface (input-event-codes.h).
pub const KEY_ESC: u32 = 1;
pub const KEY_1: u32 = 2;
pub const KEY_2: u32 = 3;
pub const KEY_3: u32 = 4;
pub const KEY_4: u32 = 5;
pub const KEY_5: u32 = 6;
pub const KEY_6: u32 = 7;
pub const KEY_7: u32 = 8;
pub const KEY_8: u32 = 9;
pub const KEY_9: u32 = 10;
pub const KEY_0: u32 = 11;
pub const KEY_BACKSPACE: u32 = 14;
pub const KEY_TAB: u32 = 15;
pub const KEY_Q: u32 = 16;
pub const KEY_W: u32 = 17;
pub const KEY_E: u32 = 18;
pub const KEY_R: u32 = 19;
pub const KEY_T: u32 = 20;
pub const KEY_Y: u32 = 21;
pub const KEY_U: u32 = 22;
pub const KEY_I: u32 = 23;
pub const KEY_O: u32 = 24;
pub const KEY_P: u32 = 25;
pub const KEY_ENTER: u32 = 28;
pub const KEY_LEFTCTRL: u32 = 29;
pub const KEY_A: u32 = 30;
pub const KEY_S: u32 = 31;
pub const KEY_D: u32 = 32;
pub const KEY_F: u32 = 33;
pub const KEY_G: u32 = 34;
pub const KEY_H: u32 = 35;
pub const KEY_J: u32 = 36;
pub const KEY_K: u32 = 37;
pub const KEY_L: u32 = 38;
pub const KEY_LEFTSHIFT: u32 = 42;
pub const KEY_Z: u32 = 44;
pub const KEY_X: u32 = 45;
pub const KEY_C: u32 = 46;
pub const KEY_V: u32 = 47;
pub const KEY_B: u32 = 48;
pub const KEY_N: u32 = 49;
pub const KEY_M: u32 = 50;
pub const KEY_RIGHTSHIFT: u32 = 54;
pub const KEY_LEFTALT: u32 = 56;
pub const KEY_SPACE: u32 = 57;
pub const KEY_RIGHTCTRL: u32 = 97;
pub const KEY_RIGHTALT: u32 = 100;
pub const KEY_UP: u32 = 103;
pub const KEY_LEFT: u32 = 105;
pub const KEY_RIGHT: u32 = 106;
pub const KEY_DOWN: u32 = 108;

/// The built-in table from symbolic key names to key codes.
pub open spec fn key_table_code(name: Seq<char>) -> Option<u32> {
    if name == "lctrl"@ { Some(KEY_LEFTCTRL) }
    else if name == "rctrl"@ { Some(KEY_RIGHTCTRL) }
    else if name == "lshift"@ { Some(KEY_LEFTSHIFT) }
    else if name == "rshift"@ { Some(KEY_RIGHTSHIFT) }
    else if name == "lalt"@ { Some(KEY_LEFTALT) }
    else if name == "ralt"@ { Some(KEY_RIGHTALT) }
    else if name == "space"@ { Some(KEY_SPACE) }
    else if name == "enter"@ { Some(KEY_ENTER) }
    else if name == "tab"@ { Some(KEY_TAB) }
    else if name == "backspace"@ { Some(KEY_BACKSPACE) }
    else if name == "escape"@ { Some(KEY_ESC) }
    else if name == "up"@ { Some(KEY_UP) }
    else if name == "down"@ { Some(KEY_DOWN) }
    else if name == "left"@ { Some(KEY_LEFT) }
    else if name == "right"@ { Some(KEY_RIGHT) }
    else if name == "a"@ { Some(KEY_A) }
    else if name == "b"@ { Some(KEY_B) }
    else if name == "c"@ { Some(KEY_C) }
    else if name == "d"@ { Some(KEY_D) }
    else if name == "e"@ { Some(KEY_E) }
    else if name == "f"@ { Some(KEY_F) }
    else if name == "g"@ { Some(KEY_G) }
    else if name == "h"@ { Some(KEY_H) }
    else if name == "i"@ { Some(KEY_I) }
    else if name == "j"@ { Some(KEY_J) }
    else if name == "k"@ { Some(KEY_K) }
    else if name == "l"@ { Some(KEY_L) }
    else if name == "m"@ { Some(KEY_M) }
    else if name == "n"@ { Some(KEY_N) }
    else if name == "o"@ { Some(KEY_O) }
    else if name == "p"@ { Some(KEY_P) }
    else if name == "q"@ { Some(KEY_Q) }
    else if name == "r"@ { Some(KEY_R) }
    else if name == "s"@ { Some(KEY_S) }
    else if name == "t"@ { Some(KEY_T) }
    else if name == "u"@ { Some(KEY_U) }
    else if name == "v"@ { Some(KEY_V) }
    else if name == "w"@ { Some(KEY_W) }
    else if name == "x"@ { Some(KEY_X) }
    else if name == "y"@ { Some(KEY_Y) }
    else if name == "z"@ { Some(KEY_Z) }
    else if name == "0"@ { Some(KEY_0) }
    else if name == "1"@ { Some(KEY_1) }
    else if name == "2"@ { Some(KEY_2) }
    else if name == "3"@ { Some(KEY_3) }
    else if name == "4"@ { Some(KEY_4) }
    else if name == "5"@ { Some(KEY_5) }
    else if name == "6"@ { Some(KEY_6) }
    else if name == "7"@ { Some(KEY_7) }
    else if name == "8"@ { Some(KEY_8) }
    else if name == "9"@ { Some(KEY_9) }
    else { None }
}

pub open spec fn is_digit(c: char) -> bool {
    '0' <= c && c <= '9'
}

pub open spec fn all_digits(d: Seq<char>) -> bool {
    forall|i: int| 0 <= i < d.len() ==> is_digit(#[trigger] d[i])
}

/// The number that a string of decimal digits denotes.
pub open spec fn digits_value(d: Seq<char>) -> nat
    decreases d.len(),
{
    if d.len() == 0 {
        0
    } else {
        digits_value(d.drop_last()) * 10 + ((d.last() as u32) - ('0' as u32)) as nat
    }
}

/// The digits of an unsigned decimal literal: one leading `+` is allowed.
pub open spec fn unsigned_digits(s: Seq<char>) -> Seq<char> {
    if s.len() > 0 && s[0] == '+' {
        s.drop_first()
    } else {
        s
    }
}

/// What `u32::from_str` accepts: an optional `+`, then one or more decimal
/// digits whose value fits in a `u32`.
pub open spec fn parse_decimal(s: Seq<char>) -> Option<u32> {
    let d = unsigned_digits(s);
    if d.len() > 0 && all_digits(d) && digits_value(d) <= u32::MAX {
        Some(digits_value(d) as u32)
    } else {
        None
    }
}

/// The code of a key name: the table's entry, else a literal decimal code.
pub open spec fn key_code_of(name: Seq<char>) -> Option<u32> {
    match key_table_code(name) {
        Some(c) => Some(c),
        None => parse_decimal(name),
    }
}

pub open spec fn is_arrow_code(code: u32) -> bool {
    code == KEY_UP || code == KEY_DOWN || code == KEY_LEFT || code == KEY_RIGHT
}

pub open spec fn text_contains(s: Seq<char>, pat: Seq<char>) -> bool {
    exists|i: int| 0 <= i && i + pat.len() <= s.len() && #[trigger] s.subrange(i, i + pat.len()) == pat
}

#[derive(Clone, Copy, Debug, PartialEq, Eq, Structural)]
pub enum Hand {
    Left,
    Right,
}

/// Which hand owns a pose image: a `righthand` hint, then a `lefthand` hint,
/// then the arrow keys for the right hand, and the left hand otherwise.
pub open spec fn hand_for(pose_path: Seq<char>, code: u32) -> Hand {
    if text_contains(pose_path, "righthand"@) {
        Hand::Right
    } else if text_contains(pose_path, "lefthand"@) {
        Hand::Left
    } else if is_arrow_code(code) {
        Hand::Right
    } else {
        Hand::Left
    }
}

/// Whether two strings hold the same characters.
pub fn same_text(a: &str, b: &str) -> (r: bool)
    ensures
        r == (a@ == b@),
{
    let n = a.unicode_len();
    if n != b.unicode_len() {
        return false;
    }
    let mut i: usize = 0;
    while i < n
        invariant
            n == a@.len(),
            n == b@.len(),
            i <= n,
            forall|j: int| 0 <= j < i ==> a@[j] == b@[j],
        decreases n - i,
    {
        if a.get_char(i) != b.get_char(i) {
            return false;
        }
        i = i + 1;
    }
    assert(a@ =~= b@);
    true
}

fn matches_at(s: &str, pat: &str, at: usize) -> (r: bool)
    requires
        at + pat@.len() <= s@.len(),
    ensures
        r == (s@.subrange(at as int, at + pat@.len()) == pat@),
{
    let n = s.unicode_len();
    let m = pat.unicode_len();
    let mut j: usize = 0;
    while j < m
        invariant
            n == s@.len(),
            m == pat@.len(),
            at + m <= s@.len(),
            j <= m,
            forall|k: int| 0 <= k < j ==> s@[at + k] == pat@[k],
        decreases m - j,
    {
        if s.get_char(at + j) != pat.get_char(j) {
            assert(s@.subrange(at as int, at + m)[j as int] != pat@[j as int]);
            return false;
        }
        j = j + 1;
    }
    assert(s@.subrange(at as int, at + m) =~= pat@);
    true
}

/// Whether `pat` occurs in `s` as a run of consecutive characters.
pub fn contains_text(s: &str, pat: &str) -> (r: bool)
    ensures
        r == text_contains(s@, pat@),
{
    let n = s.unicode_len();
    let m = pat.unicode_len();
    if m > n {
        return false;
    }
    let mut i: usize = 0;
    loop
        invariant
            n == s@.len(),
            m == pat@.len(),
            m <= n,
            i <= n - m,
            forall|j: int| 0 <= j < i ==> #[trigger] s@.subrange(j, j + m) != pat@,
        decreases n - m - i,
    {
        if matches_at(s, pat, i) {
            return true;
        }
        if i == n - m {
            return false;
        }
        i = i + 1;
    }
}

proof fn lemma_digits_value_prefix(d: Seq<char>, k: int)
    requires
        0 <= k <= d.len(),
    ensures
        digits_value(d.subrange(0, k)) <= digits_value(d),
    decreases d.len(),
{
    if k == d.len() {
        assert(d.subrange(0, k) =~= d);
    } else {
        lemma_digits_value_prefix(d.drop_last(), k);
        assert(d.drop_last().subrange(0, k) =~= d.subrange(0, k));
    }
}

/// Parses an unsigned decimal code as `u32::from_str` does.
pub fn parse_decimal_u32(s: &str) -> (r: Option<u32>)
    ensures
        r == parse_decimal(s@),
{
    let n = s.unicode_len();
    let mut start: usize = 0;
    if n > 0 && s.get_char(0) == '+' {
        start = 1;
    }
    let ghost d = unsigned_digits(s@);
    assert(d =~= s@.subrange(start as int, n as int));
    if start >= n {
        return None;
    }
    let mut acc: u64 = 0;
    let mut i: usize = start;
    while i < n
        invariant
            n == s@.len(),
            start <= i <= n,
            d == s@.subrange(start as int, n as int),
            d == unsigned_digits(s@),
            all_digits(d.subrange(0, i - start)),
            acc == digits_value(d.subrange(0, i - start)),
            acc <= u32::MAX,
        decreases n - i,
    {
        let c = s.get_char(i);
        assert(d[i - start] == c);
        if !('0' <= c && c <= '9') {
            assert(!all_digits(d));
            return None;
        }
        let ghost prefix = d.subrange(0, i + 1 - start);
        assert(prefix.drop_last() =~= d.subrange(0, i - start));
        assert(prefix.last() == c);
        acc = acc * 10 + ((c as u32) - ('0' as u32)) as u64;
        assert(acc == digits_value(prefix));
        if acc > 0xFFFF_FFFF {
            proof {
                lemma_digits_value_prefix(d, i + 1 - start);
            }
            return None;
        }
        i = i + 1;
        assert(all_digits(d.subrange(0, i - start))) by {
            assert forall|k: int| 0 <= k < i - start implies is_digit(#[trigger] d.subrange(0, i - start)[k]) by {
                if k < i - 1 - start {
                    assert(d.subrange(0, i - start)[k] == d.subrange(0, i - 1 - start)[k]);
                }
            }
        }
    }
    assert(d.subrange(0, n - start) =~= d);
    Some(acc as u32)
}

/// Looks a name up in the built-in key table.
pub fn key_table_lookup(name: &str) -> (r: Option<u32>)
    ensures
        r == key_table_code(name@),
{
    if same_text(name, "lctrl") { Some(KEY_LEFTCTRL) }
    else if same_text(name, "rctrl") { Some(KEY_RIGHTCTRL) }
    else if same_text(name, "lshift") { Some(KEY_LEFTSHIFT) }
    else if same_text(name, "rshift") { Some(KEY_RIGHTSHIFT) }
    else if same_text(name, "lalt") { Some(KEY_LEFTALT) }
    else if same_text(name, "ralt") { Some(KEY_RIGHTALT) }
    else if same_text(name, "space") { Some(KEY_SPACE) }
    else if same_text(name, "enter") { Some(KEY_ENTER) }
    else if same_text(name, "tab") { Some(KEY_TAB) }
    else if same_text(name, "backspace") { Some(KEY_BACKSPACE) }
    else if same_text(name, "escape") { Some(KEY_ESC) }
    else if same_text(name, "up") { Some(KEY_UP) }
    else if same_text(name, "down") { Some(KEY_DOWN) }
    else if same_text(name, "left") { Some(KEY_LEFT) }
    else if same_text(name, "right") { Some(KEY_RIGHT) }
    else if same_text(name, "a") { Some(KEY_A) }
    else if same_text(name, "b") { Some(KEY_B) }
    else if same_text(name, "c") { Some(KEY_C) }
    else if same_text(name, "d") { Some(KEY_D) }
    else if same_text(name, "e") { Some(KEY_E) }
    else if same_text(name, "f") { Some(KEY_F) }
    else if same_text(name, "g") { Some(KEY_G) }
    else if same_text(name, "h") { Some(KEY_H) }
    else if same_text(name, "i") { Some(KEY_I) }
    else if same_text(name, "j") { Some(KEY_J) }
    else if same_text(name, "k") { Some(KEY_K) }
    else if same_text(name, "l") { Some(KEY_L) }
    else if same_text(name, "m") { Some(KEY_M) }
    else if same_text(name, "n") { Some(KEY_N) }
    else if same_text(name, "o") { Some(KEY_O) }
    else if same_text(name, "p") { Some(KEY_P) }
    else if same_text(name, "q") { Some(KEY_Q) }
    else if same_text(name, "r") { Some(KEY_R) }
    else if same_text(name, "s") { Some(KEY_S) }
    else if same_text(name, "t") { Some(KEY_T) }
    else if same_text(name, "u") { Some(KEY_U) }
    else if same_text(name, "v") { Some(KEY_V) }
    else if same_text(name, "w") { Some(KEY_W) }
    else if same_text(name, "x") { Some(KEY_X) }
    else if same_text(name, "y") { Some(KEY_Y) }
    else if same_text(name, "z") { Some(KEY_Z) }
    else if same_text(name, "0") { Some(KEY_0) }
    else if same_text(name, "1") { Some(KEY_1) }
    else if same_text(name, "2") { Some(KEY_2) }
    else if same_text(name, "3") { Some(KEY_3) }
    else if same_text(name, "4") { Some(KEY_4) }
    else if same_text(name, "5") { Some(KEY_5) }
    else if same_text(name, "6") { Some(KEY_6) }
    else if same_text(name, "7") { Some(KEY_7) }
    else if same_text(name, "8") { Some(KEY_8) }
    else if same_text(name, "9") { Some(KEY_9) }
    else { None }
}

/// The key code that a key name stands for: names of the built-in table
/// have their entry, another name written as a decimal number is taken as
/// the code itself, and any other name has none.
pub fn key_code_for_name(name: &str) -> (r: Option<u32>)
    ensures
        r == key_code_of(name@),
{
    match key_table_lookup(name) {
        Some(c) => Some(c),
        None => parse_decimal_u32(name),
    }
}

pub fn is_arrow_key(code: u32) -> (r: bool)
    ensures
        r == is_arrow_code(code),
{
    code == KEY_UP || code == KEY_DOWN || code == KEY_LEFT || code == KEY_RIGHT
}

/// Decides which hand a pose frame of a key mapping entry belongs to.
pub fn classify_hand(pose_path: &str, code: u32) -> (r: Hand)
    ensures
        r == hand_for(pose_path@, code),
{
    if contains_text(pose_path, "righthand") {
        Hand::Right
    } else if contains_text(pose_path, "lefthand") {
        Hand::Left
    } else if is_arrow_key(code) {
        Hand::Right
    } else {
        Hand::Left
    }
}

/// A `righthand` hint puts a pose on the right hand whatever the key; an
/// arrow key with neither hint goes to the right hand too.
pub proof fn law_hand_classification(pose_path: Seq<char>, code: u32)
    ensures
        text_contains(pose_path, "righthand"@) ==> hand_for(pose_path, code) == Hand::Right,
        !text_contains(pose_path, "righthand"@) && !text_contains(pose_path, "lefthand"@) && is_arrow_code(code)
            ==> hand_for(pose_path, code) == Hand::Right,
        !text_contains(pose_path, "righthand"@) && text_contains(pose_path, "lefthand"@) ==> hand_for(pose_path, code)
            == Hand::Left,
{
}

} // verus!
