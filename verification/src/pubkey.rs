//! Account addresses.
use vstd::prelude::*;

use crate::arrays::filled;

verus! {

/// An account address: 32 bytes, all zero for "no account".
#[derive(Clone, Copy, Eq, Debug)]
pub struct Pubkey {
    pub bytes: [u8; 32],
}

/// The number that bytes stand for, the most significant first.
pub open spec fn big_endian(bytes: Seq<u8>) -> nat
    decreases bytes.len(),
{
    if bytes.len() == 0 {
        0
    } else {
        big_endian(bytes.drop_last()) * 256 + bytes.last() as nat
    }
}

/// How many bytes are zero before the first that is not.
pub open spec fn leading_zeros(bytes: Seq<u8>) -> nat
    decreases bytes.len(),
{
    if bytes.len() == 0 || bytes[0] != 0 {
        0
    } else {
        1 + leading_zeros(bytes.drop_first())
    }
}

/// The digit that stands for `d` in base 58: digits and letters without `0`,
/// `I`, `O` and `l`.
pub open spec fn base58_digit(d: int) -> char {
    "123456789ABCDEFGHJKLMNPQRSTUVWXYZabcdefghijkmnopqrstuvwxyz"@[d]
}

/// `n` in base 58, without leading zeros, and without any digit for zero.
pub open spec fn base58(n: nat) -> Seq<char>
    decreases n,
{
    if n == 0 {
        Seq::empty()
    } else {
        base58(n / 58).push(base58_digit((n % 58) as int))
    }
}

/// How an address is written out: a `1` for each leading zero byte, then the
/// bytes as one number in base 58.
pub open spec fn pubkey_text(bytes: Seq<u8>) -> Seq<char> {
    Seq::new(leading_zeros(bytes), |i: int| '1') + base58(big_endian(bytes))
}

/// The `Display` of `anchor_lang::prelude::Pubkey`, through `to_string`. It is
/// `bs58::encode` with the alphabet that `bs58` has by default: a `1` for each
/// leading zero byte, then the bytes as one big-endian number in base 58.
#[verifier::external_body]
fn display_pubkey(bytes: [u8; 32]) -> (r: String)
    ensures
        r@ == pubkey_text(bytes@),
{
    anchor_lang::prelude::Pubkey::new_from_array(bytes).to_string()
}

impl Pubkey {
    /// The address of "no account", which marks an empty slot.
    pub open spec fn none() -> Pubkey {
        Pubkey { bytes: filled(0) }
    }

    pub fn new_from_array(bytes: [u8; 32]) -> (r: Pubkey)
        ensures
            r.bytes == bytes,
    {
        Pubkey { bytes }
    }

    pub fn to_bytes(self) -> (r: [u8; 32])
        ensures
            r == self.bytes,
    {
        self.bytes
    }

    /// The address written out.
    pub fn to_text(self) -> (r: String)
        ensures
            r@ == pubkey_text(self.bytes@),
    {
        display_pubkey(self.bytes)
    }
}

impl Default for Pubkey {
    fn default() -> (r: Pubkey)
        ensures
            r == Pubkey::none(),
            forall|i: int| 0 <= i < 32 ==> #[trigger] r.bytes@[i] == 0,
    {
        Pubkey { bytes: [0u8; 32] }
    }
}

impl vstd::std_specs::cmp::PartialEqSpecImpl for Pubkey {
    open spec fn obeys_eq_spec() -> bool {
        true
    }

    open spec fn eq_spec(&self, other: &Pubkey) -> bool {
        *self == *other
    }
}

impl PartialEq for Pubkey {
    fn eq(&self, other: &Pubkey) -> (r: bool)
        ensures
            r <==> forall|i: int| 0 <= i < 32 ==> #[trigger] self.bytes@[i] == other.bytes@[i],
    {
        let mut i: usize = 0;
        while i < 32
            invariant
                i <= 32,
                forall|j: int| 0 <= j < i ==> self.bytes@[j] == other.bytes@[j],
            decreases 32 - i,
        {
            if self.bytes[i] != other.bytes[i] {
                return false;
            }
            i = i + 1;
        }
        assert(self.bytes =~= other.bytes);
        true
    }
}

} // verus!
