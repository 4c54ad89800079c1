//! Platform monitor managers and the conversion of Windows' UTF-16 names.
use crate::text::string_of;
use vstd::prelude::*;

verus! {

/// Monitor enumeration through X11.
#[derive(Debug, Clone, Copy)]
pub struct X11MonitorManager;

impl X11MonitorManager {
    pub fn new() -> (r: Self) {
        X11MonitorManager
    }
}

impl Default for X11MonitorManager {
    fn default() -> (r: Self) {
        X11MonitorManager
    }
}

/// Monitor enumeration through AppKit.
#[derive(Debug, Clone, Copy)]
pub struct MacOsMonitorManager;

impl MacOsMonitorManager {
    pub fn new() -> (r: Self) {
        MacOsMonitorManager
    }
}

impl Default for MacOsMonitorManager {
    fn default() -> (r: Self) {
        MacOsMonitorManager
    }
}

/// Monitor enumeration through the Win32 API.
#[derive(Debug, Clone, Copy)]
pub struct WindowsMonitorManager;

impl WindowsMonitorManager {
    /// Create a Windows monitor manager.
    pub fn new() -> (r: Self) {
        WindowsMonitorManager
    }
}

impl Default for WindowsMonitorManager {
    fn default() -> (r: Self) {
        WindowsMonitorManager
    }
}

/// Whether `v` is a Unicode scalar value (a valid `char`).
pub open spec fn is_scalar_value(v: u32) -> bool {
    v <= 0x10FFFF && !(0xD800 <= v <= 0xDFFF)
}

/// `char::from_u32`: the character with code `i`, unless `i` is a surrogate or
/// beyond `0x10FFFF`.
pub assume_specification[ char::from_u32 ](i: u32) -> (r: Option<char>)
    ensures
        r == if is_scalar_value(i) {
            Some(i as char)
        } else {
            None::<char>
        },
;

/// A leading (high) surrogate code unit.
pub open spec fn is_high_surrogate(u: u16) -> bool {
    0xD800 <= u <= 0xDBFF
}

/// A trailing (low) surrogate code unit.
pub open spec fn is_low_surrogate(u: u16) -> bool {
    0xDC00 <= u <= 0xDFFF
}

/// The code point a surrogate pair encodes.
pub open spec fn pair_code(hi: u16, lo: u16) -> u32 {
    (0x10000 + (hi - 0xD800) * 0x400 + (lo - 0xDC00)) as u32
}

/// UTF-16 decoding that replaces each unpaired surrogate by U+FFFD
/// (`String::from_utf16_lossy`).
pub open spec fn utf16_lossy(u: Seq<u16>) -> Seq<char>
    decreases u.len(),
{
    if u.len() == 0 {
        seq![]
    } else if is_high_surrogate(u[0]) && u.len() >= 2 && is_low_surrogate(u[1]) {
        seq![pair_code(u[0], u[1]) as char] + utf16_lossy(u.skip(2))
    } else if is_high_surrogate(u[0]) || is_low_surrogate(u[0]) {
        seq!['\u{FFFD}'] + utf16_lossy(u.drop_first())
    } else {
        seq![u[0] as u32 as char] + utf16_lossy(u.drop_first())
    }
}

/// The units of `u` before its first zero.
pub open spec fn until_nul(u: Seq<u16>) -> Seq<u16>
    decreases u.len(),
{
    if u.len() == 0 {
        u
    } else if u[0] == 0 {
        seq![]
    } else {
        seq![u[0]] + until_nul(u.drop_first())
    }
}

/// Decodes `units[start..end]` (see `utf16_lossy`).
fn decode_utf16_lossy(units: &[u16], start: usize, end: usize) -> (r: Vec<char>)
    requires
        start <= end <= units@.len(),
    ensures
        r@ == utf16_lossy(units@.subrange(start as int, end as int)),
{
    let mut out: Vec<char> = Vec::new();
    let mut i = start;
    while i < end
        invariant
            start <= i <= end <= units@.len(),
            utf16_lossy(units@.subrange(start as int, end as int)) == out@ + utf16_lossy(
                units@.subrange(i as int, end as int),
            ),
        decreases end - i,
    {
        let ghost rest = units@.subrange(i as int, end as int);
        let u = units[i];
        if 0xD800 <= u && u <= 0xDBFF && i + 1 < end && 0xDC00 <= units[i + 1] && units[i + 1]
            <= 0xDFFF {
            let lo = units[i + 1];
            let code: u32 = 0x10000 + ((u - 0xD800) as u32) * 0x400 + ((lo - 0xDC00) as u32);
            assert(code == pair_code(u, lo));
            assert(is_scalar_value(code));
            let c = match char::from_u32(code) {
                Some(c) => c,
                None => '\u{FFFD}',
            };
            out.push(c);
            assert(rest.skip(2) =~= units@.subrange(i + 2, end as int));
            i = i + 2;
        } else if 0xD800 <= u && u <= 0xDFFF {
            out.push('\u{FFFD}');
            assert(rest.drop_first() =~= units@.subrange(i + 1, end as int));
            i = i + 1;
        } else {
            let c = match char::from_u32(u as u32) {
                Some(c) => c,
                None => '\u{FFFD}',
            };
            out.push(c);
            assert(rest.drop_first() =~= units@.subrange(i + 1, end as int));
            i = i + 1;
        }
    }
    assert(units@.subrange(end as int, end as int) =~= Seq::<u16>::empty());
    out
}

/// Convert a fixed-size null-terminated UTF-16 buffer to a `String`.
pub fn wstr_to_string(buf: &[u16]) -> (r: String)
    ensures
        r@ == utf16_lossy(until_nul(buf@)),
{
    let mut len: usize = 0;
    while len < buf.len() && buf[len] != 0
        invariant
            len <= buf@.len(),
            forall|j: int| 0 <= j < len ==> buf@[j] != 0,
        decreases buf@.len() - len,
    {
        len += 1;
    }
    proof {
        lemma_until_nul(buf@, len as int);
    }
    let chars = decode_utf16_lossy(buf, 0, len);
    string_of(&chars)
}

/// `until_nul` stops at the first zero.
proof fn lemma_until_nul(u: Seq<u16>, k: int)
    requires
        0 <= k <= u.len(),
        forall|j: int| 0 <= j < k ==> u[j] != 0,
        k == u.len() || u[k] == 0,
    ensures
        until_nul(u) == u.subrange(0, k),
    decreases u.len(),
{
    if u.len() > 0 && u[0] != 0 {
        let t = u.drop_first();
        assert forall|j: int| 0 <= j < k - 1 implies t[j] != 0 by {
            assert(t[j] == u[j + 1]);
        }
        if k < u.len() {
            assert(t[k - 1] == u[k]);
        }
        lemma_until_nul(t, k - 1);
        assert(seq![u[0]] + t.subrange(0, k - 1) =~= u.subrange(0, k));
    } else if u.len() > 0 {
        assert(u.subrange(0, k) =~= Seq::<u16>::empty());
    }
}

} // verus!
