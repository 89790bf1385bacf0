//! Lookup of an input device by the name a user gave.
use vstd::prelude::*;

verus! {

/// Unicode lowercase of a string, as `str::to_lowercase` computes it.
pub uninterp spec fn lowercase(s: Seq<char>) -> Seq<char>;

/// An ASCII character in lowercase: `A`–`Z` become `a`–`z`, all else stays.
pub open spec fn ascii_lower_char(c: char) -> char {
    if 65 <= (c as int) && (c as int) <= 90 {
        ((c as int) + 32) as char
    } else {
        c
    }
}

/// Whether every character is ASCII.
pub open spec fn all_ascii(s: Seq<char>) -> bool {
    forall|i: int| 0 <= i < s.len() ==> (#[trigger] s[i] as int) < 128
}

/// The string with `A`–`Z` turned into `a`–`z`.
pub open spec fn ascii_lowercase(s: Seq<char>) -> Seq<char> {
    s.map_values(|c: char| ascii_lower_char(c))
}

/// Calls `str::to_lowercase`. Its result is taken to be `lowercase` of the argument: the
/// standard library maps each character by the Unicode lowercase mapping, which is a
/// function of the string alone. Of that mapping only its effect on ASCII text is stated:
/// `A`–`Z` become `a`–`z` and every other ASCII character stays, as in Unicode's tables.
#[verifier::external_body]
fn str_to_lowercase(s: &str) -> (r: String)
    ensures
        r@ == lowercase(s@),
        all_ascii(s@) ==> r@ == ascii_lowercase(s@),
{
    s.to_lowercase()
}

/// The name under which the system's default input device is asked for.
pub open spec fn default_device_label() -> Seq<char> {
    "default"@
}

/// Whether an already lowercased device name asks for the default device.
pub fn is_default_label(lowered: &str) -> (r: bool)
    ensures
        r == (lowered@ == default_device_label()),
{
    let a = String::from_str(lowered);
    let b = String::from_str("default");
    a.eq(&b)
}

/// Whether a device name asks for the system default input device: it does when its
/// lowercase form is `default`, so `Default` and `DEFAULT` do too.
pub fn requests_default_device(device_name: &str) -> (r: bool)
    ensures
        r == (lowercase(device_name@) == default_device_label()),
        all_ascii(device_name@) ==> (r == (ascii_lowercase(device_name@) == default_device_label())),
{
    let lowered = str_to_lowercase(device_name);
    is_default_label(lowered.as_str())
}

/// Whether a device identifier asks for the default device, compared exactly
/// (the voice activity path does not fold case).
pub fn is_exact_default_identifier(identifier: &str) -> (r: bool)
    ensures
        r == (identifier@ == default_device_label()),
{
    is_default_label(identifier)
}

/// Whether the device at a position is the one named: devices whose name could not
/// be read match nothing.
pub open spec fn name_matches(name: Option<String>, wanted: Seq<char>) -> bool {
    match name {
        Some(n) => n@ == wanted,
        None => false,
    }
}

/// The position of the first device whose name equals `device_name`, if any.
/// `names` holds each device's name, or `None` where it could not be read.
pub fn find_device_index(names: &Vec<Option<String>>, device_name: &str) -> (r: Option<usize>)
    ensures
        r matches Some(i) ==> i < names@.len() && name_matches(names@[i as int], device_name@)
            && forall|j: int| 0 <= j < i ==> !name_matches(#[trigger] names@[j], device_name@),
        r is None ==> forall|j: int|
            0 <= j < names@.len() ==> !name_matches(#[trigger] names@[j], device_name@),
{
    let wanted = String::from_str(device_name);
    let n = names.len();
    let mut i: usize = 0;
    while i < n
        invariant
            n == names@.len(),
            i <= n,
            wanted@ == device_name@,
            forall|j: int| 0 <= j < i ==> !name_matches(#[trigger] names@[j], device_name@),
        decreases n - i,
    {
        match &names[i] {
            Some(name) => {
                if name.eq(&wanted) {
                    return Some(i);
                }
            },
            None => {},
        }
        i += 1;
    }
    None
}

/// The message for a named device that is not present: `Device '<name>' not found`.
pub fn device_not_found_message(device_name: &str) -> (r: String)
    ensures
        r@ == "Device '"@ + device_name@ + "' not found"@,
{
    let mut message = String::from_str("Device '");
    message.append(device_name);
    message.append("' not found");
    message
}

/// The message of the manual recorder when the system has no default input device.
pub fn no_default_device_message() -> (r: String)
    ensures
        r@ == "No default input device available"@,
{
    String::from_str("No default input device available")
}

} // verus!
