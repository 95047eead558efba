use vstd::prelude::*;

use crate::errors::CaptureError;
use vstd::string::StringSliceAdditionalSpecFns;

verus! {

/// A device selector: a non-negative integer index, or an opaque string
/// identifier for backends that name their devices.
#[derive(Clone, Debug, PartialEq)]
pub enum IndexKind {
    String(String),
    Index(u32),
}

/// An ASCII decimal digit.
pub open spec fn is_digit(b: u8) -> bool {
    0x30 <= b <= 0x39
}

/// The numeric value of one ASCII decimal digit.
pub open spec fn digit_val(b: u8) -> nat {
    (b - 0x30) as nat
}

/// Every byte of `s` is an ASCII decimal digit.
pub open spec fn all_digits(s: Seq<u8>) -> bool {
    forall|i: int| 0 <= i < s.len() ==> is_digit(s[i])
}

/// The value of `s` read as a base-10 numeral.
pub open spec fn numeral_value(s: Seq<u8>) -> nat
    decreases s.len(),
{
    if s.len() == 0 {
        0
    } else {
        numeral_value(s.drop_last()) * 10 + digit_val(s.last())
    }
}

/// The digits of a numeral: everything after one optional leading plus sign.
pub open spec fn digits_part(s: Seq<u8>) -> Seq<u8> {
    if s.len() > 0 && s[0] == 0x2b {
        s.drop_first()
    } else {
        s
    }
}

/// Whether `s` is a decimal numeral whose value fits in a `u32`: one optional
/// leading plus sign, then at least one digit, with value at most `u32::MAX`.
/// This is exactly the set of strings the selector reads as an index.
pub open spec fn parses_as_u32(s: Seq<u8>) -> bool {
    let d = digits_part(s);
    d.len() > 0 && all_digits(d) && numeral_value(d) <= u32::MAX
}

/// A numeral's prefixes never exceed its value.
proof fn lemma_numeral_prefix_le(s: Seq<u8>, i: int)
    requires
        0 <= i <= s.len(),
    ensures
        numeral_value(s.subrange(0, i)) <= numeral_value(s),
    decreases s.len() - i,
{
    if i == s.len() {
        assert(s.subrange(0, i) =~= s);
    } else {
        lemma_numeral_prefix_le(s, i + 1);
        let p = s.subrange(0, i + 1);
        assert(p.drop_last() =~= s.subrange(0, i));
        assert(numeral_value(p) == numeral_value(s.subrange(0, i)) * 10 + digit_val(p.last()));
    }
}

impl IndexKind {
    /// Reads a device selector: tries a `u32` index first and falls back to
    /// an opaque string identifier. Leading zeros are allowed, so `"007"` is
    /// the index 7.
    pub fn from_str(s: &str) -> (r: IndexKind)
        ensures
            parses_as_u32(s.spec_bytes()) ==> (r matches IndexKind::Index(i) && i == numeral_value(
                digits_part(s.spec_bytes()),
            )),
            !parses_as_u32(s.spec_bytes()) ==> (r matches IndexKind::String(t) && t@ == s@),
    {
        let bytes = s.as_bytes();
        let n = bytes.len();
        let start: usize = if n > 0 && bytes[0] == 0x2b {
            1
        } else {
            0
        };
        let ghost d = digits_part(s.spec_bytes());
        proof {
            assert(d =~= bytes@.subrange(start as int, n as int));
        }
        if start >= n {
            return IndexKind::String(s.to_owned());
        }
        let mut i: usize = start;
        let mut acc: u64 = 0;
        while i < n
            invariant
                start <= i <= n,
                n == bytes@.len(),
                bytes@ == s.spec_bytes(),
                d == digits_part(s.spec_bytes()),
                d == bytes@.subrange(start as int, n as int),
                acc <= 0xffffffffu64,
                acc == numeral_value(bytes@.subrange(start as int, i as int)),
                all_digits(bytes@.subrange(start as int, i as int)),
            decreases n - i,
        {
            let b = bytes[i];
            if b < 0x30 || b > 0x39 {
                proof {
                    assert(d[i - start] == bytes@[i as int]);
                }
                return IndexKind::String(s.to_owned());
            }
            proof {
                let pre = bytes@.subrange(start as int, i as int);
                let ext = bytes@.subrange(start as int, i as int + 1);
                assert(ext.drop_last() =~= pre);
                assert(numeral_value(ext) == numeral_value(pre) * 10 + digit_val(bytes@[i as int]));
            }
            acc = acc * 10 + ((b - 0x30) as u64);
            i = i + 1;
            if acc > 0xffffffffu64 {
                proof {
                    let scanned = bytes@.subrange(start as int, i as int);
                    if all_digits(d) {
                        lemma_numeral_prefix_le(d, i - start);
                        assert(d.subrange(0, i - start) =~= scanned);
                        assert(numeral_value(d) >= acc);
                    }
                }
                return IndexKind::String(s.to_owned());
            }
        }
        proof {
            assert(bytes@.subrange(start as int, n as int) =~= d);
        }
        IndexKind::Index(acc as u32)
    }
}

/// Bytewise equality of two slices.
fn bytes_eq(a: &[u8], b: &[u8]) -> (r: bool)
    ensures
        r == (a@ == b@),
{
    if a.len() != b.len() {
        return false;
    }
    let mut i: usize = 0;
    while i < a.len()
        invariant
            i <= a@.len(),
            a@.len() == b@.len(),
            forall|k: int| 0 <= k < i ==> a@[k] == b@[k],
        decreases a@.len() - i,
    {
        if a[i] != b[i] {
            return false;
        }
        i = i + 1;
    }
    proof {
        assert(a@ =~= b@);
    }
    true
}

/// Equality of two strings, decided bytewise; equal bytes decode to equal
/// character sequences.
fn str_eq(a: &str, b: &str) -> (r: bool)
    ensures
        r == (a@ == b@),
{
    let r = bytes_eq(a.as_bytes(), b.as_bytes());
    proof {
        if a.spec_bytes() == b.spec_bytes() {
            vstd::utf8::encode_utf8_decode_utf8(a@);
            vstd::utf8::encode_utf8_decode_utf8(b@);
        }
    }
    r
}

/// Two device selectors denote the same device.
pub open spec fn index_eq(a: IndexKind, b: IndexKind) -> bool {
    match (a, b) {
        (IndexKind::Index(i), IndexKind::Index(j)) => i == j,
        (IndexKind::String(s), IndexKind::String(t)) => s@ == t@,
        _ => false,
    }
}

impl IndexKind {
    /// Decides whether two selectors denote the same device.
    pub fn same_selector(&self, other: &IndexKind) -> (r: bool)
        ensures
            r == index_eq(*self, *other),
    {
        match (self, other) {
            (IndexKind::Index(i), IndexKind::Index(j)) => *i == *j,
            (IndexKind::String(s), IndexKind::String(t)) => str_eq(s.as_str(), t.as_str()),
            _ => false,
        }
    }
}

/// The property classes the introspection commands can ask for.
#[derive(Clone, Copy, Debug, PartialEq, Eq, Structural)]
pub enum PropertyKind {
    All,
    Controls,
    CompatibleFormats,
}

/// ASCII lower-casing of one byte.
pub open spec fn lower_byte(b: u8) -> u8 {
    if 0x41 <= b <= 0x5a {
        (b + 0x20) as u8
    } else {
        b
    }
}

/// ASCII lower-casing of a byte sequence.
pub open spec fn lower_bytes(s: Seq<u8>) -> Seq<u8> {
    s.map_values(|b: u8| lower_byte(b))
}

/// The property kind a selector names, compared case-insensitively against
/// the accepted aliases: `all`; `controls` and `ctrls`; `compatibleformats`,
/// `cf` and `compatfmts`.
pub open spec fn kind_for(s: Seq<u8>) -> Option<PropertyKind> {
    let l = lower_bytes(s);
    if l == seq![0x61u8, 0x6cu8, 0x6cu8] {
        Some(PropertyKind::All)
    } else if l == seq![0x63u8, 0x6fu8, 0x6eu8, 0x74u8, 0x72u8, 0x6fu8, 0x6cu8, 0x73u8] || l == seq![0x63u8, 0x74u8, 0x72u8, 0x6cu8, 0x73u8] {
        Some(PropertyKind::Controls)
    } else if l == seq![0x63u8, 0x6fu8, 0x6du8, 0x70u8, 0x61u8, 0x74u8, 0x69u8, 0x62u8, 0x6cu8, 0x65u8, 0x66u8, 0x6fu8, 0x72u8, 0x6du8, 0x61u8, 0x74u8, 0x73u8] || l == seq![0x63u8, 0x66u8] || l == seq![0x63u8, 0x6fu8, 0x6du8, 0x70u8, 0x61u8, 0x74u8, 0x66u8, 0x6du8, 0x74u8, 0x73u8] {
        Some(PropertyKind::CompatibleFormats)
    } else {
        None
    }
}

/// ASCII lower-casing of a byte slice.
fn lower_vec(s: &[u8]) -> (r: Vec<u8>)
    ensures
        r@ == lower_bytes(s@),
{
    let mut v: Vec<u8> = Vec::new();
    let mut i: usize = 0;
    while i < s.len()
        invariant
            i <= s@.len(),
            v@.len() == i,
            forall|k: int| 0 <= k < i ==> v@[k] == lower_byte(s@[k]),
        decreases s@.len() - i,
    {
        let b = s[i];
        if 0x41 <= b && b <= 0x5a {
            v.push(b + 0x20);
        } else {
            v.push(b);
        }
        i = i + 1;
    }
    proof {
        assert(v@ =~= lower_bytes(s@));
    }
    v
}

impl PropertyKind {
    /// Reads a property-kind selector, case-insensitively, accepting every
    /// documented alias; anything else is `UnknownPropertyKind`.
    pub fn from_str(s: &str) -> (r: Result<PropertyKind, CaptureError>)
        ensures
            kind_for(s.spec_bytes()) matches Some(k) ==> r == Ok::<PropertyKind, CaptureError>(k),
            kind_for(s.spec_bytes()) is None ==> r == Err::<PropertyKind, CaptureError>(
                CaptureError::UnknownPropertyKind,
            ),
    {
        let bytes = s.as_bytes();
        let low = lower_vec(bytes);
        let n = low.len();
        if n == 3 && low[0] == 0x61u8 && low[1] == 0x6cu8 && low[2] == 0x6cu8 {
            proof {
                assert(lower_bytes(s.spec_bytes()) =~= seq![0x61u8, 0x6cu8, 0x6cu8]);
            }
            Ok(PropertyKind::All)
        } else if n == 8 && low[0] == 0x63u8 && low[1] == 0x6fu8 && low[2] == 0x6eu8 && low[3] == 0x74u8
            && low[4] == 0x72u8 && low[5] == 0x6fu8 && low[6] == 0x6cu8 && low[7] == 0x73u8 {
            proof {
                assert(lower_bytes(s.spec_bytes()) =~= seq![0x63u8, 0x6fu8, 0x6eu8, 0x74u8, 0x72u8, 0x6fu8, 0x6cu8, 0x73u8]);
            }
            Ok(PropertyKind::Controls)
        } else if n == 5 && low[0] == 0x63u8 && low[1] == 0x74u8 && low[2] == 0x72u8 && low[3] == 0x6cu8
            && low[4] == 0x73u8 {
            proof {
                assert(lower_bytes(s.spec_bytes()) =~= seq![0x63u8, 0x74u8, 0x72u8, 0x6cu8, 0x73u8]);
            }
            Ok(PropertyKind::Controls)
        } else if n == 17 && low[0] == 0x63u8 && low[1] == 0x6fu8 && low[2] == 0x6du8 && low[3] == 0x70u8
            && low[4] == 0x61u8 && low[5] == 0x74u8 && low[6] == 0x69u8 && low[7] == 0x62u8 && low[8] == 0x6cu8
            && low[9] == 0x65u8 && low[10] == 0x66u8 && low[11] == 0x6fu8 && low[12] == 0x72u8
            && low[13] == 0x6du8 && low[14] == 0x61u8 && low[15] == 0x74u8 && low[16] == 0x73u8 {
            proof {
                assert(lower_bytes(s.spec_bytes()) =~= seq![0x63u8, 0x6fu8, 0x6du8, 0x70u8, 0x61u8, 0x74u8, 0x69u8, 0x62u8, 0x6cu8, 0x65u8, 0x66u8, 0x6fu8, 0x72u8, 0x6du8, 0x61u8, 0x74u8, 0x73u8]);
            }
            Ok(PropertyKind::CompatibleFormats)
        } else if n == 2 && low[0] == 0x63u8 && low[1] == 0x66u8 {
            proof {
                assert(lower_bytes(s.spec_bytes()) =~= seq![0x63u8, 0x66u8]);
            }
            Ok(PropertyKind::CompatibleFormats)
        } else if n == 10 && low[0] == 0x63u8 && low[1] == 0x6fu8 && low[2] == 0x6du8 && low[3] == 0x70u8
            && low[4] == 0x61u8 && low[5] == 0x74u8 && low[6] == 0x66u8 && low[7] == 0x6du8 && low[8] == 0x74u8
            && low[9] == 0x73u8 {
            proof {
                assert(lower_bytes(s.spec_bytes()) =~= seq![0x63u8, 0x6fu8, 0x6du8, 0x70u8, 0x61u8, 0x74u8, 0x66u8, 0x6du8, 0x74u8, 0x73u8]);
            }
            Ok(PropertyKind::CompatibleFormats)
        } else {
            Err(CaptureError::UnknownPropertyKind)
        }
    }
}

/// A command as parsed from the command line: arguments may still be missing.
pub enum Command {
    ListDevices,
    ListProperties { device: Option<IndexKind>, kind: Option<PropertyKind> },
}

/// A fully resolved command: every argument present.
pub enum ResolvedCommand {
    ListDevices,
    ListProperties { device: IndexKind, kind: PropertyKind },
}

/// Resolves a parsed command: the device selector defaults to index 0 when
/// omitted; a missing property kind is an `UnknownPropertyKind` error.
pub fn resolve_command(cmd: Command) -> (r: Result<ResolvedCommand, CaptureError>)
    ensures
        cmd is ListDevices ==> r == Ok::<ResolvedCommand, CaptureError>(
            ResolvedCommand::ListDevices,
        ),
        cmd matches Command::ListProperties { device, kind: None } ==> r
            == Err::<ResolvedCommand, CaptureError>(CaptureError::UnknownPropertyKind),
        cmd matches Command::ListProperties { device: Some(d), kind: Some(k) } ==> r
            == Ok::<ResolvedCommand, CaptureError>(
            ResolvedCommand::ListProperties { device: d, kind: k },
        ),
        cmd matches Command::ListProperties { device: None, kind: Some(k) } ==> r
            == Ok::<ResolvedCommand, CaptureError>(
            ResolvedCommand::ListProperties { device: IndexKind::Index(0), kind: k },
        ),
{
    match cmd {
        Command::ListDevices => Ok(ResolvedCommand::ListDevices),
        Command::ListProperties { device, kind } => match kind {
            None => Err(CaptureError::UnknownPropertyKind),
            Some(k) => {
                let dev = match device {
                    Some(d) => d,
                    None => IndexKind::Index(0),
                };
                Ok(ResolvedCommand::ListProperties { device: dev, kind: k })
            },
        },
    }
}

} // verus!
