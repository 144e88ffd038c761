//! Values submitted through the web UI's forms.
use vstd::prelude::*;
use vstd::string::StringSliceAdditionalSpecFns;
use vstd::utf8::valid_utf8;

use super::routes::push_all;

use super::text::{
    at_most, decimal_digits, decimal_text_value, lemma_decimal_digits_read_back, parse_decimal,
    push_decimal, single_separator_at, split_at_single, split_single,
};
use crate::outside::{hex_decodable, hex_decode, hex_decoded, hex_encode, hex_lower, is_utf8};
use crate::types::{ConsensusVersion, ModuleKind, PeerPubkey};

verus! {

/// A module kind with a consensus version, as chosen in the form that votes
/// to add a module; written `kind:major.minor`.
#[derive(PartialEq, Eq, Structural, Clone, Copy, Debug)]
pub struct ModuleKindVersion {
    pub kind: ModuleKind,
    pub version: ConsensusVersion,
}

/// Why a `kind:major.minor` text was refused.
#[derive(PartialEq, Eq, Structural, Clone, Copy, Debug)]
pub enum ModuleKindVersionError {
    /// The text does not hold exactly one `:`.
    InvalidModuleKindFormat,
    /// The part before `:` is no module kind.
    InvalidModuleKind,
    /// The part after `:` does not hold exactly one `.`.
    InvalidVersionFormat,
    /// The major version is no 16-bit number.
    InvalidMajorVersion,
    /// The minor version is no 16-bit number.
    InvalidMinorVersion,
}

/// What the text `s` means as `kind:major.minor`.
pub open spec fn spec_module_kind_version(s: Seq<u8>) -> Result<
    ModuleKindVersion,
    ModuleKindVersionError,
> {
    match split_at_single(s, 58) {
        None => Err(ModuleKindVersionError::InvalidModuleKindFormat),
        Some((kind_text, version_text)) => match at_most(
            decimal_text_value(kind_text),
            u32::MAX as int,
        ) {
            None => Err(ModuleKindVersionError::InvalidModuleKind),
            Some(kind) => match split_at_single(version_text, 46) {
                None => Err(ModuleKindVersionError::InvalidVersionFormat),
                Some((major_text, minor_text)) => match at_most(
                    decimal_text_value(major_text),
                    u16::MAX as int,
                ) {
                    None => Err(ModuleKindVersionError::InvalidMajorVersion),
                    Some(major) => match at_most(decimal_text_value(minor_text), u16::MAX as int) {
                        None => Err(ModuleKindVersionError::InvalidMinorVersion),
                        Some(minor) => Ok(
                            ModuleKindVersion {
                                kind: kind as u32,
                                version: ConsensusVersion { major: major as u16, minor: minor as u16 },
                            },
                        ),
                    },
                },
            },
        },
    }
}

/// The text `kind:major.minor` in decimal.
pub open spec fn spec_module_kind_version_text(v: ModuleKindVersion) -> Seq<u8> {
    decimal_digits(v.kind as nat) + seq![58u8] + decimal_digits(v.version.major as nat) + seq![46u8]
        + decimal_digits(v.version.minor as nat)
}

impl ModuleKindVersion {
    /// Reads `kind:major.minor`, each number in decimal (optionally after
    /// a `+`).
    pub fn parse(s: &[u8]) -> (r: Result<ModuleKindVersion, ModuleKindVersionError>)
        ensures
            r == spec_module_kind_version(s@),
    {
        let (kind_text, version_text) = match split_single(s, 58) {
            Some(parts) => parts,
            None => {
                return Err(ModuleKindVersionError::InvalidModuleKindFormat);
            },
        };
        let kind = match parse_decimal(kind_text.as_slice(), 0xffff_ffff) {
            Some(k) => k as u32,
            None => {
                return Err(ModuleKindVersionError::InvalidModuleKind);
            },
        };
        let (major_text, minor_text) = match split_single(version_text.as_slice(), 46) {
            Some(parts) => parts,
            None => {
                return Err(ModuleKindVersionError::InvalidVersionFormat);
            },
        };
        let major = match parse_decimal(major_text.as_slice(), 0xffff) {
            Some(v) => v as u16,
            None => {
                return Err(ModuleKindVersionError::InvalidMajorVersion);
            },
        };
        let minor = match parse_decimal(minor_text.as_slice(), 0xffff) {
            Some(v) => v as u16,
            None => {
                return Err(ModuleKindVersionError::InvalidMinorVersion);
            },
        };
        Ok(ModuleKindVersion { kind, version: ConsensusVersion { major, minor } })
    }

    /// Writes `kind:major.minor` in decimal.
    pub fn to_text(&self) -> (r: Vec<u8>)
        ensures
            r@ == spec_module_kind_version_text(*self),
    {
        let mut out: Vec<u8> = Vec::new();
        push_decimal(&mut out, self.kind);
        out.push(58);
        push_decimal(&mut out, self.version.major as u32);
        out.push(46);
        push_decimal(&mut out, self.version.minor as u32);
        proof {
            assert(out@ =~= spec_module_kind_version_text(*self));
        }
        out
    }
}

/// No decimal digit is a `:` or a `.`.
proof fn lemma_digits_hold_no_separator(n: nat, c: u8)
    requires
        c == 58 || c == 46,
    ensures
        forall|i: int| 0 <= i < decimal_digits(n).len() ==> #[trigger] decimal_digits(n)[i] != c,
{
    lemma_decimal_digits_read_back(n);
    assert forall|i: int| 0 <= i < decimal_digits(n).len() implies #[trigger] decimal_digits(
        n,
    )[i] != c by {
        assert(super::text::is_ascii_digit(decimal_digits(n)[i]));
    }
}

/// Splitting `a`, `c`, `b` at `c` gives back `a` and `b` when neither
/// holds `c`.
proof fn lemma_split_joined(a: Seq<u8>, c: u8, b: Seq<u8>)
    requires
        forall|i: int| 0 <= i < a.len() ==> a[i] != c,
        forall|i: int| 0 <= i < b.len() ==> b[i] != c,
    ensures
        split_at_single(a + seq![c] + b, c) == Some((a, b)),
{
    let s = a + seq![c] + b;
    let p = a.len() as int;
    assert(single_separator_at(s, c, p)) by {
        assert forall|j: int| 0 <= j < s.len() && j != p implies s[j] != c by {
            if j < p {
                assert(s[j] == a[j]);
            } else {
                assert(s[j] == b[j - p - 1]);
            }
        }
    }
    let q = choose|q: int| single_separator_at(s, c, q);
    assert(q == p);
    assert(s.take(p) =~= a);
    assert(s.skip(p + 1) =~= b);
}

/// Reading back the text written for a module kind and version gives them
/// back.
pub proof fn lemma_module_kind_version_round_trip(v: ModuleKindVersion)
    ensures
        spec_module_kind_version(spec_module_kind_version_text(v)) == Ok::<
            ModuleKindVersion,
            ModuleKindVersionError,
        >(v),
{
    let k = decimal_digits(v.kind as nat);
    let ma = decimal_digits(v.version.major as nat);
    let mi = decimal_digits(v.version.minor as nat);
    lemma_decimal_digits_read_back(v.kind as nat);
    lemma_decimal_digits_read_back(v.version.major as nat);
    lemma_decimal_digits_read_back(v.version.minor as nat);
    lemma_digits_hold_no_separator(v.kind as nat, 58);
    lemma_digits_hold_no_separator(v.version.major as nat, 58);
    lemma_digits_hold_no_separator(v.version.minor as nat, 58);
    lemma_digits_hold_no_separator(v.version.major as nat, 46);
    lemma_digits_hold_no_separator(v.version.minor as nat, 46);
    let version_text = ma + seq![46u8] + mi;
    assert forall|i: int| 0 <= i < version_text.len() implies version_text[i] != 58 by {
        if i < ma.len() {
            assert(version_text[i] == ma[i]);
        } else if i > ma.len() {
            assert(version_text[i] == mi[i - ma.len() - 1]);
        }
    }
    assert(spec_module_kind_version_text(v) =~= k + seq![58u8] + version_text);
    lemma_split_joined(k, 58, version_text);
    lemma_split_joined(ma, 46, mi);
}

/// A value voted for in the meta module, as typed into the form: text
/// starting with `0x` (or `0X`) is read as hexadecimal bytes, any other
/// text stands for its own bytes.
#[derive(Debug)]
pub struct MetaValue(pub Vec<u8>);

/// The vote form of a meta key.
#[derive(Debug)]
pub struct MetaVoteForm {
    pub value: MetaValue,
}

/// Why a meta value was refused.
#[derive(PartialEq, Eq, Structural, Clone, Copy, Debug)]
pub enum MetaValueError {
    /// The text after `0x` is no whole number of hexadecimal byte pairs.
    InvalidHex,
}

/// `s` starts with `0x` or `0X`.
pub open spec fn hex_prefixed(s: Seq<u8>) -> bool {
    s.len() >= 2 && s[0] == 48 && (s[1] == 120 || s[1] == 88)
}

/// The bytes the form text `s` stands for, if any.
pub open spec fn spec_meta_value(s: Seq<u8>) -> Option<Seq<u8>> {
    if hex_prefixed(s) {
        if hex_decodable(s.skip(2)) {
            Some(hex_decoded(s.skip(2)))
        } else {
            None
        }
    } else {
        Some(s)
    }
}

/// How a meta value is written in a page: as its text when it is UTF-8,
/// else as `0x` and its lowercase hexadecimal digits.
pub open spec fn meta_value_text(v: Seq<u8>) -> Seq<u8> {
    if valid_utf8(v) {
        v
    } else {
        seq![48u8, 120u8] + hex_lower(v)
    }
}

impl MetaValue {
    /// Reads a meta value from the text of the form field.
    pub fn parse(s: &[u8]) -> (r: Result<MetaValue, MetaValueError>)
        ensures
            r matches Ok(v) ==> spec_meta_value(s@) == Some(v.0@),
            r is Err ==> spec_meta_value(s@) is None && r == Err::<MetaValue, _>(
                MetaValueError::InvalidHex,
            ),
    {
        if s.len() >= 2 && s[0] == 48 && (s[1] == 120 || s[1] == 88) {
            let mut rest: Vec<u8> = Vec::new();
            let mut i: usize = 2;
            while i < s.len()
                invariant
                    2 <= i <= s@.len(),
                    rest@ == s@.subrange(2, i as int),
                decreases s@.len() - i,
            {
                rest.push(s[i]);
                proof {
                    assert(s@.subrange(2, i as int + 1) =~= s@.subrange(2, i as int).push(
                        s@[i as int],
                    ));
                }
                i = i + 1;
            }
            proof {
                assert(rest@ =~= s@.skip(2));
            }
            match hex_decode(rest.as_slice()) {
                Ok(bytes) => Ok(MetaValue(bytes)),
                Err(_) => Err(MetaValueError::InvalidHex),
            }
        } else {
            let mut bytes: Vec<u8> = Vec::new();
            let mut i: usize = 0;
            while i < s.len()
                invariant
                    0 <= i <= s@.len(),
                    bytes@ == s@.take(i as int),
                decreases s@.len() - i,
            {
                bytes.push(s[i]);
                proof {
                    assert(s@.take(i as int + 1) =~= s@.take(i as int).push(s@[i as int]));
                }
                i = i + 1;
            }
            proof {
                assert(bytes@ =~= s@);
            }
            Ok(MetaValue(bytes))
        }
    }
}

/// Writes a meta value for a page: its text when it is UTF-8, else `0x`
/// and its lowercase hexadecimal digits.
pub fn display_meta_value(value: &[u8]) -> (r: Vec<u8>)
    ensures
        r@ == meta_value_text(value@),
{
    if is_utf8(value) {
        let mut out: Vec<u8> = Vec::new();
        let mut i: usize = 0;
        while i < value.len()
            invariant
                0 <= i <= value@.len(),
                out@ == value@.take(i as int),
            decreases value@.len() - i,
        {
            out.push(value[i]);
            proof {
                assert(value@.take(i as int + 1) =~= value@.take(i as int).push(value@[i as int]));
            }
            i = i + 1;
        }
        proof {
            assert(out@ =~= value@);
        }
        out
    } else {
        let mut out: Vec<u8> = Vec::new();
        out.push(48);
        out.push(120);
        let digits = hex_encode(value);
        let mut i: usize = 0;
        while i < digits.len()
            invariant
                0 <= i <= digits@.len(),
                out@ == seq![48u8, 120u8] + digits@.take(i as int),
            decreases digits@.len() - i,
        {
            out.push(digits[i]);
            proof {
                assert(digits@.take(i as int + 1) =~= digits@.take(i as int).push(digits@[i as int]));
            }
            i = i + 1;
        }
        proof {
            assert(digits@.take(i as int) =~= digits@);
        }
        out
    }
}

/// Hexadecimal digits written for bytes read back as those bytes.
pub proof fn lemma_hex_round_trip(v: Seq<u8>)
    ensures
        hex_decodable(hex_lower(v)),
        hex_decoded(hex_lower(v)) == v,
{
    let h = hex_lower(v);
    assert forall|i: int| 0 <= i < h.len() implies crate::outside::is_hex_digit(#[trigger] h[i]) by {
        let b = v[i / 2];
        assert(b / 16 < 16 && b % 16 < 16);
    }
    assert(h.len() % 2 == 0);
    assert forall|i: int| 0 <= i < v.len() implies #[trigger] hex_decoded(h)[i] == v[i] by {
        let b = v[i];
        assert((2 * i) / 2 == i && (2 * i + 1) / 2 == i && (2 * i) % 2 == 0 && (2 * i + 1) % 2 == 1);
        assert(b == (b / 16) * 16 + b % 16) by (nonlinear_arith);
    }
    assert(hex_decoded(h) =~= v);
}

/// What a page writes for a meta value reads back, through the vote form,
/// as that value, unless the value is UTF-8 text that itself starts with
/// `0x` or `0X`.
pub proof fn lemma_meta_value_round_trip(v: Seq<u8>)
    requires
        !(valid_utf8(v) && hex_prefixed(v)),
    ensures
        spec_meta_value(meta_value_text(v)) == Some(v),
{
    if !valid_utf8(v) {
        let t = meta_value_text(v);
        lemma_hex_round_trip(v);
        assert(t.skip(2) =~= hex_lower(v));
    }
}

/// The form that votes to add a peer.
#[derive(Clone, Copy, Debug)]
pub struct AddPeerVoteForm {
    pub peer_pubkey: PeerPubkey,
}

/// The form that votes to remove a peer.
#[derive(Clone, Copy, Debug)]
pub struct RemovePeerVoteForm {
    pub peer_pubkey: PeerPubkey,
}

/// The message with which the form refuses the `kind:major.minor` text `s`
/// for the reason `e`; a wrongly formatted text or version part is quoted.
pub open spec fn spec_module_kind_version_message(s: Seq<u8>, e: ModuleKindVersionError) -> Seq<u8> {
    match e {
        ModuleKindVersionError::InvalidModuleKindFormat => "Invalid module_kind format: ".spec_bytes() + s,
        ModuleKindVersionError::InvalidModuleKind => "Failed to parse module kind".spec_bytes(),
        ModuleKindVersionError::InvalidVersionFormat => "Invalid version format: ".spec_bytes() + match split_at_single(
            s,
            58,
        ) {
            Some((_, version_text)) => version_text,
            None => Seq::<u8>::empty(),
        },
        ModuleKindVersionError::InvalidMajorVersion => "Failed to parse major version".spec_bytes(),
        ModuleKindVersionError::InvalidMinorVersion => "Failed to parse minor version".spec_bytes(),
    }
}

/// The message with which the form refuses the text `s` for the reason `e`.
pub fn module_kind_version_message(s: &[u8], e: ModuleKindVersionError) -> (r: Vec<u8>)
    ensures
        r@ == spec_module_kind_version_message(s@, e),
{
    let mut r: Vec<u8> = Vec::new();
    match e {
        ModuleKindVersionError::InvalidModuleKindFormat => {
            push_all(&mut r, "Invalid module_kind format: ".as_bytes());
            push_all(&mut r, s);
        },
        ModuleKindVersionError::InvalidModuleKind => {
            push_all(&mut r, "Failed to parse module kind".as_bytes());
        },
        ModuleKindVersionError::InvalidVersionFormat => {
            push_all(&mut r, "Invalid version format: ".as_bytes());
            match split_single(s, 58) {
                Some((_, version_text)) => {
                    push_all(&mut r, version_text.as_slice());
                },
                None => {},
            }
        },
        ModuleKindVersionError::InvalidMajorVersion => {
            push_all(&mut r, "Failed to parse major version".as_bytes());
        },
        ModuleKindVersionError::InvalidMinorVersion => {
            push_all(&mut r, "Failed to parse minor version".as_bytes());
        },
    }
    r
}

/// The message with which the form refuses the meta value text `s`.
pub open spec fn spec_meta_value_message(s: Seq<u8>, e: MetaValueError) -> Seq<u8> {
    match e {
        MetaValueError::InvalidHex => "Invalid hex value: ".spec_bytes() + s,
    }
}

/// The message with which the form refuses the meta value text `s`.
pub fn meta_value_message(s: &[u8], e: MetaValueError) -> (r: Vec<u8>)
    ensures
        r@ == spec_meta_value_message(s@, e),
{
    let mut r: Vec<u8> = Vec::new();
    match e {
        MetaValueError::InvalidHex => {
            push_all(&mut r, "Invalid hex value: ".as_bytes());
            push_all(&mut r, s);
        },
    }
    r
}

} // verus!
