//! Key codes and their names.
use vstd::prelude::*;

verus! {

/// The kernel's code of the left Ctrl key.
pub const KEY_LEFTCTRL: u16 = 29;

/// The kernel's code of the left Shift key.
pub const KEY_LEFTSHIFT: u16 = 42;

/// The kernel's code of the right Shift key.
pub const KEY_RIGHTSHIFT: u16 = 54;

/// The kernel's code of the left Alt key.
pub const KEY_LEFTALT: u16 = 56;

/// The kernel's code of the Caps Lock key.
pub const KEY_CAPSLOCK: u16 = 58;

/// The kernel's code of the Num Lock key.
pub const KEY_NUMLOCK: u16 = 69;

/// The kernel's code of the Scroll Lock key.
pub const KEY_SCROLLLOCK: u16 = 70;

/// The kernel's code of the right Ctrl key.
pub const KEY_RIGHTCTRL: u16 = 97;

/// The kernel's code of the right Alt key.
pub const KEY_RIGHTALT: u16 = 100;

/// The kernel's code of the left Meta key.
pub const KEY_LEFTMETA: u16 = 125;

/// The kernel's code of the right Meta key.
pub const KEY_RIGHTMETA: u16 = 126;

/// The keys that are held or toggled rather than typed: Shift, Ctrl, Alt and
/// Meta on either side, and the lock keys.
pub open spec fn is_modifier_code(code: u16) -> bool {
    ||| code == KEY_LEFTCTRL
    ||| code == KEY_RIGHTCTRL
    ||| code == KEY_LEFTSHIFT
    ||| code == KEY_RIGHTSHIFT
    ||| code == KEY_LEFTALT
    ||| code == KEY_RIGHTALT
    ||| code == KEY_LEFTMETA
    ||| code == KEY_RIGHTMETA
    ||| code == KEY_CAPSLOCK
    ||| code == KEY_NUMLOCK
    ||| code == KEY_SCROLLLOCK
}

/// Whether `code` is a modifier or lock key.
pub fn is_modifier(code: u16) -> (r: bool)
    ensures
        r == is_modifier_code(code),
        r <==> (code == 29 || code == 97 || code == 42 || code == 54 || code == 56 || code == 100
            || code == 125 || code == 126 || code == 58 || code == 69 || code == 70),
{
    code == KEY_LEFTCTRL || code == KEY_RIGHTCTRL || code == KEY_LEFTSHIFT || code
        == KEY_RIGHTSHIFT || code == KEY_LEFTALT || code == KEY_RIGHTALT || code == KEY_LEFTMETA
        || code == KEY_RIGHTMETA || code == KEY_CAPSLOCK || code == KEY_NUMLOCK || code
        == KEY_SCROLLLOCK
}

/// The code that `evdev::Key`'s `FromStr` reads out of a name such as `KEY_K`;
/// `None` for a name that its table does not hold.
pub uninterp spec fn evdev_key_code(name: Seq<char>) -> Option<u16>;

/// The text that `evdev::Key`'s `Debug` writes for a code, such as `KEY_K` for
/// a code that has a name.
pub uninterp spec fn evdev_key_name(code: u16) -> Seq<char>;

/// The error of `evdev::Key`'s `FromStr`: the name is not in its table.
#[verifier::external_type_specification]
#[verifier::external_body]
pub struct ExEnumParseError(evdev::EnumParseError);

/// Calls `<evdev::Key as FromStr>::from_str`, a search through a fixed table
/// of names. The result is a function of the name alone.
#[verifier::external_body]
pub(crate) fn parse_key(name: &str) -> (r: Result<u16, evdev::EnumParseError>)
    ensures
        (match r {
            Ok(code) => Some(code),
            Err(_) => None,
        }) == evdev_key_code(name@),
{
    match name.parse::<evdev::Key>() {
        Ok(key) => Ok(key.code()),
        Err(e) => Err(e),
    }
}

/// Calls `<evdev::Key as Debug>::fmt`, which writes the first name that the
/// table holds for the code, or `unknown key: ` and the code where it holds
/// none. The result is a function of the code alone.
#[verifier::external_body]
pub(crate) fn key_name(code: u16) -> (r: String)
    ensures
        r@ == evdev_key_name(code),
{
    format!("{:?}", evdev::Key::new(code))
}

} // verus!
