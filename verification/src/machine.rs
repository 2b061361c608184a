//! Machine identity types.

use vstd::prelude::*;
use vstd::string::StringExecFns;

verus! {

/// Unique identifier for a machine in the network: an opaque 128-bit value,
/// generated once per install and persisted. Equality is identity.
#[derive(Debug, Clone, Copy, PartialEq, Eq, Hash, Structural)]
pub struct MachineId(pub u128);

/// Relies on uuid::Uuid::new_v4 for a freshly drawn random 128-bit
/// identifier. Nothing is promised of the value: callers treat it as
/// arbitrary.
#[verifier::external_body]
fn random_id_bits() -> u128 {
    uuid::Uuid::new_v4().as_u128()
}

impl MachineId {
    /// Generate a new random machine ID.
    pub fn new() -> Self {
        Self(random_id_bits())
    }

    /// Create a machine ID from its raw 128-bit value.
    pub fn from_bits(bits: u128) -> (r: Self)
        ensures
            r == MachineId(bits),
    {
        Self(bits)
    }

    /// The raw 128-bit value.
    pub fn as_bits(&self) -> (r: u128)
        ensures
            r == self.0,
    {
        self.0
    }

    /// Render as the canonical hyphenated lowercase hex form
    /// (8-4-4-4-12 digits, most significant first).
    pub fn to_display_string(&self) -> (r: String)
        ensures
            r@ == spec_machine_id_string(self.0),
            r@.len() == 36,
    {
        let g1 = hex_span(self.0, 0, 8);
        let g2 = hex_span(self.0, 8, 12);
        let g3 = hex_span(self.0, 12, 16);
        let g4 = hex_span(self.0, 16, 20);
        let g5 = hex_span(self.0, 20, 32);
        let s = g1.concat("-").concat(g2.as_str()).concat("-").concat(g3.as_str()).concat(
            "-",
        ).concat(g4.as_str()).concat("-").concat(g5.as_str());
        proof {
            reveal_strlit("-");
            assert(s@ =~= spec_machine_id_string(self.0));
        }
        s
    }
}

/// The hex character for a nibble value.
pub open spec fn spec_hex_digit(d: int) -> char {
    if d == 0 {
        '0'
    } else if d == 1 {
        '1'
    } else if d == 2 {
        '2'
    } else if d == 3 {
        '3'
    } else if d == 4 {
        '4'
    } else if d == 5 {
        '5'
    } else if d == 6 {
        '6'
    } else if d == 7 {
        '7'
    } else if d == 8 {
        '8'
    } else if d == 9 {
        '9'
    } else if d == 10 {
        'a'
    } else if d == 11 {
        'b'
    } else if d == 12 {
        'c'
    } else if d == 13 {
        'd'
    } else if d == 14 {
        'e'
    } else {
        'f'
    }
}

/// Nibble `i` of a 128-bit value, counting from the most significant.
pub open spec fn spec_nibble(v: u128, i: int) -> int {
    ((v >> ((124 - 4 * i) as u128)) & 0xf) as int
}

/// The hex digits of nibbles `a..b` of `v`, most significant first.
pub open spec fn spec_hex_span(v: u128, a: int, b: int) -> Seq<char> {
    Seq::new((b - a) as nat, |j: int| spec_hex_digit(spec_nibble(v, a + j)))
}

/// The canonical hyphenated hex rendering of a 128-bit identifier.
pub open spec fn spec_machine_id_string(v: u128) -> Seq<char> {
    spec_hex_span(v, 0, 8) + seq!['-'] + spec_hex_span(v, 8, 12) + seq!['-'] + spec_hex_span(
        v,
        12,
        16,
    ) + seq!['-'] + spec_hex_span(v, 16, 20) + seq!['-'] + spec_hex_span(v, 20, 32)
}

/// The hex character for a nibble, as a one-character string.
fn hex_digit_str(d: u128) -> (r: &'static str)
    requires
        0 <= d < 16,
    ensures
        r@ == seq![spec_hex_digit(d as int)],
{
    let r: &'static str = match d {
        0 => "0",
        1 => "1",
        2 => "2",
        3 => "3",
        4 => "4",
        5 => "5",
        6 => "6",
        7 => "7",
        8 => "8",
        9 => "9",
        10 => "a",
        11 => "b",
        12 => "c",
        13 => "d",
        14 => "e",
        _ => "f",
    };
    proof {
        reveal_strlit("0");
        reveal_strlit("1");
        reveal_strlit("2");
        reveal_strlit("3");
        reveal_strlit("4");
        reveal_strlit("5");
        reveal_strlit("6");
        reveal_strlit("7");
        reveal_strlit("8");
        reveal_strlit("9");
        reveal_strlit("a");
        reveal_strlit("b");
        reveal_strlit("c");
        reveal_strlit("d");
        reveal_strlit("e");
        reveal_strlit("f");
        assert(r@ =~= seq![spec_hex_digit(d as int)]);
    }
    r
}

/// The hex digits of nibbles `a..b` of `v` as a string.
fn hex_span(v: u128, a: usize, b: usize) -> (r: String)
    requires
        0 <= a <= b <= 32,
    ensures
        r@ == spec_hex_span(v, a as int, b as int),
{
    let mut s = String::new();
    let mut i: usize = a;
    while i < b
        invariant
            a <= i <= b <= 32,
            s@ == spec_hex_span(v, a as int, i as int),
        decreases b - i,
    {
        let sh: u128 = 124 - 4 * (i as u128);
        let nib: u128 = (v >> sh) & 0xf;
        proof {
            assert((v >> sh) & 0xf < 16) by (bit_vector);
        }
        s.append(hex_digit_str(nib));
        proof {
            assert(s@ =~= spec_hex_span(v, a as int, (i + 1) as int));
        }
        i = i + 1;
    }
    s
}

/// A generated certificate and private key pair.
#[derive(Debug, Clone, PartialEq, Eq)]
pub struct GeneratedCert {
    /// PEM-encoded certificate.
    pub cert_pem: String,
    /// PEM-encoded private key.
    pub key_pem: String,
    /// SHA-256 fingerprint of the DER-encoded certificate.
    pub fingerprint: String,
}

} // verus!
