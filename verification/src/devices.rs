//! Input devices: their stable ids, how they are listed, and which one a
//! recording uses.

use vstd::prelude::*;

use sha2::{Digest, Sha256};

use crate::model::{InputDevice, InputDeviceMode, Settings};
use crate::transcript::opt_text;

verus! {

/// The SHA-256 digest of `data`, as `sha2::Sha256` computes it.
pub uninterp spec fn sha256_digest(data: Seq<u8>) -> Seq<u8>;

/// Hashes with `sha2::Sha256::digest`; a SHA-256 digest has 32 bytes.
#[verifier::external_body]
fn sha256(data: &[u8]) -> (r: Vec<u8>)
    ensures
        r@ == sha256_digest(data@),
        r@.len() == 32,
{
    Sha256::digest(data).to_vec()
}

/// The `n` little-endian base-256 digits of `x`.
pub open spec fn le_digits(x: nat, n: nat) -> Seq<u8>
    decreases n,
{
    if n == 0 {
        Seq::empty()
    } else {
        seq![(x % 256) as u8] + le_digits(x / 256, (n - 1) as nat)
    }
}

/// The bytes of `usize::to_le_bytes`: one per eight bits of `usize`, least
/// significant first.
pub open spec fn usize_le_bytes(x: usize) -> Seq<u8> {
    le_digits(x as nat, (usize::BITS / 8) as nat)
}

/// `usize::to_le_bytes`, as a vector.
pub fn usize_to_le_bytes(x: usize) -> (r: Vec<u8>)
    ensures
        r@ == usize_le_bytes(x),
{
    let n: u32 = usize::BITS / 8;
    let mut r: Vec<u8> = Vec::new();
    let mut rest: usize = x;
    let mut k: u32 = 0;
    while k < n
        invariant
            n == usize::BITS / 8,
            k <= n,
            r@ + le_digits(rest as nat, (n - k) as nat) == usize_le_bytes(x),
        decreases n - k,
    {
        proof {
            assert(r@ + le_digits(rest as nat, (n - k) as nat) == r@.push((rest % 256) as u8) + le_digits(
                (rest / 256) as nat,
                (n - k - 1) as nat,
            ));
        }
        r.push((rest % 256) as u8);
        rest = rest / 256;
        k = k + 1;
    }
    assert(le_digits(rest as nat, 0) == Seq::<u8>::empty());
    assert(r@ + Seq::<u8>::empty() == r@);
    r
}

/// The lower-case hexadecimal digit for `n < 16`.
pub open spec fn hex_digit(n: u8) -> char {
    if n < 10 {
        (('0' as u8) + n) as char
    } else {
        (('a' as u8) + n - 10) as char
    }
}

/// `bytes` as lower-case hexadecimal, two digits per byte, high digit first, as
/// `format!("{:x}", ..)` prints a digest.
pub open spec fn hex_lower(bytes: Seq<u8>) -> Seq<char> {
    Seq::new(
        2 * bytes.len(),
        |i: int|
            if i % 2 == 0 {
                hex_digit(bytes[i / 2] / 16)
            } else {
                hex_digit(bytes[i / 2] % 16)
            },
    )
}

fn hex_digit_char(n: u8) -> (r: char)
    requires
        n < 16,
    ensures
        r == hex_digit(n),
{
    if n < 10 {
        (48u8 + n) as char
    } else {
        (97u8 + n - 10) as char
    }
}

/// `bytes` as lower-case hexadecimal.
pub fn to_hex_lower(bytes: &Vec<u8>) -> (r: String)
    ensures
        r@ == hex_lower(bytes@),
{
    let mut r = String::new();
    let mut i: usize = 0;
    while i < bytes.len()
        invariant
            i <= bytes@.len(),
            r@.len() == 2 * i,
            forall|j: int| 0 <= j < 2 * i ==> #[trigger] r@[j] == hex_lower(bytes@)[j],
        decreases bytes.len() - i,
    {
        let b = bytes[i];
        crate::text::push_char(&mut r, hex_digit_char(b / 16));
        crate::text::push_char(&mut r, hex_digit_char(b % 16));
        proof {
            assert forall|j: int| 0 <= j < 2 * (i + 1) implies #[trigger] r@[j] == hex_lower(bytes@)[j] by {
                if j >= 2 * i {
                    assert(j / 2 == i);
                }
            }
        }
        i = i + 1;
    }
    assert(r@ =~= hex_lower(bytes@));
    r
}

/// The stable id of the `index`-th input device named `name`: the hexadecimal
/// SHA-256 of the index's little-endian bytes followed by the name's UTF-8 bytes.
pub open spec fn device_id_text(index: usize, name: Seq<char>) -> Seq<char> {
    hex_lower(sha256_digest(usize_le_bytes(index) + vstd::utf8::encode_utf8(name)))
}

/// The name a device's id is made from when its name cannot be read.
pub open spec fn unnamed_device_text() -> Seq<char> {
    "unknown"@
}

/// The stable id of a device from its position in the list and its name
/// (`None` when the name could not be read).
pub fn stable_device_id(index: usize, name: Option<&str>) -> (r: String)
    ensures
        r@ == device_id_text(
            index,
            match name {
                Some(n) => n@,
                None => unnamed_device_text(),
            },
        ),
        r@.len() == 64,
{
    let name_text: &str = match name {
        Some(n) => n,
        None => "unknown",
    };
    let mut data = usize_to_le_bytes(index);
    let bytes = name_text.as_bytes();
    let ghost prefix = data@;
    let mut i: usize = 0;
    while i < bytes.len()
        invariant
            i <= bytes@.len(),
            data@ == prefix + bytes@.subrange(0, i as int),
        decreases bytes.len() - i,
    {
        data.push(bytes[i]);
        assert(bytes@.subrange(0, i + 1) == bytes@.subrange(0, i as int).push(bytes@[i as int]));
        i = i + 1;
    }
    assert(bytes@.subrange(0, bytes@.len() as int) == bytes@);
    let digest = sha256(data.as_slice());
    to_hex_lower(&digest)
}


/// The name shown for a device whose name cannot be read.
pub open spec fn unknown_device_name() -> Seq<char> {
    "Unknown input device"@
}

/// How a device is listed: its stable id, its name (or a placeholder), and
/// whether that name is the default device's name.
pub fn describe_input_device(index: usize, name: Option<String>, default_name: &Option<String>) -> (r: InputDevice)
    ensures
        r.id@ == device_id_text(
            index,
            match name {
                Some(n) => n@,
                None => unnamed_device_text(),
            },
        ),
        r.name@ == match name {
            Some(n) => n@,
            None => unknown_device_name(),
        },
        r.is_default == (opt_text(*default_name) == Some(r.name@)),
{
    let id = match &name {
        Some(n) => stable_device_id(index, Some(n.as_str())),
        None => stable_device_id(index, None),
    };
    let name = match name {
        Some(n) => n,
        None => String::from_str("Unknown input device"),
    };
    let is_default = match default_name {
        Some(d) => *d == name,
        None => false,
    };
    InputDevice { id, name, is_default }
}

/// Which device a recording uses.
#[derive(Debug, Clone, Copy, PartialEq, Eq, Structural)]
pub enum DeviceChoice {
    /// The system's default input device.
    SystemDefault,
    /// The device at this position in the host's list.
    Listed(usize),
}

/// Why no device could be chosen.
#[derive(Debug)]
pub enum DeviceError {
    /// The system has no default input device.
    DefaultNotFound,
    /// A fixed device is asked for but none was saved.
    FixedNotSelected,
    /// No listed device has the saved id.
    FixedNotFound(String),
}

impl DeviceError {
    /// The message the error is reported with.
    pub fn message(&self) -> (r: String)
        ensures
            match self {
                DeviceError::DefaultNotFound => r@ == "default input device not found"@,
                DeviceError::FixedNotSelected => r@ == "fixed input device is not selected"@,
                DeviceError::FixedNotFound(id) => r@ == "fixed input device was not found: "@ + id@,
            },
    {
        match self {
            DeviceError::DefaultNotFound => String::from_str("default input device not found"),
            DeviceError::FixedNotSelected => String::from_str("fixed input device is not selected"),
            DeviceError::FixedNotFound(id) => String::from_str("fixed input device was not found: ").concat(id.as_str()),
        }
    }
}

/// The name a listed device's id is made from.
pub open spec fn listed_name(name: Option<String>) -> Seq<char> {
    match name {
        Some(n) => n@,
        None => unnamed_device_text(),
    }
}

/// Picks the input device for `settings`, given whether the system has a default
/// device and the names of the host's devices in list order (`None` where a name
/// cannot be read). A fixed device is found by its stable id, the first match
/// winning; it never falls back to the default.
pub fn choose_input_device(
    settings: &Settings,
    default_available: bool,
    device_names: &Vec<Option<String>>,
) -> (r: Result<DeviceChoice, DeviceError>)
    ensures
        settings.input_device_mode == InputDeviceMode::SystemDefault ==> (if default_available {
            r == Ok::<DeviceChoice, DeviceError>(DeviceChoice::SystemDefault)
        } else {
            r matches Err(DeviceError::DefaultNotFound)
        }),
        settings.input_device_mode == InputDeviceMode::FixedDevice ==> match opt_text(settings.input_device_id) {
            None => r matches Err(DeviceError::FixedNotSelected),
            Some(expected) => match r {
                Ok(DeviceChoice::Listed(i)) => i < device_names@.len() && device_id_text(i, listed_name(device_names@[i as int])) == expected
                    && forall|j: int| 0 <= j < i ==> device_id_text(j as usize, listed_name(#[trigger] device_names@[j])) != expected,
                Err(DeviceError::FixedNotFound(id)) => id@ == expected
                    && forall|j: int| 0 <= j < device_names@.len() ==> device_id_text(j as usize, listed_name(#[trigger] device_names@[j])) != expected,
                _ => false,
            },
        },
{
    match settings.input_device_mode {
        InputDeviceMode::SystemDefault => {
            if default_available {
                Ok(DeviceChoice::SystemDefault)
            } else {
                Err(DeviceError::DefaultNotFound)
            }
        },
        InputDeviceMode::FixedDevice => {
            let expected = match &settings.input_device_id {
                Some(e) => e,
                None => {
                    return Err(DeviceError::FixedNotSelected);
                },
            };
            let mut i: usize = 0;
            while i < device_names.len()
                invariant
                    i <= device_names@.len(),
                    opt_text(settings.input_device_id) == Some(expected@),
                    settings.input_device_mode == InputDeviceMode::FixedDevice,
                    forall|j: int| 0 <= j < i ==> device_id_text(j as usize, listed_name(#[trigger] device_names@[j])) != expected@,
                decreases device_names.len() - i,
            {
                let id = match &device_names[i] {
                    Some(n) => stable_device_id(i, Some(n.as_str())),
                    None => stable_device_id(i, None),
                };
                if id == *expected {
                    return Ok(DeviceChoice::Listed(i));
                }
                i = i + 1;
            }
            Err(DeviceError::FixedNotFound(expected.clone()))
        },
    }
}

} // verus!
