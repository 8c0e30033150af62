//! Who calls a service, which service is called, and when.

use vstd::prelude::*;
use vstd::string::StrSliceExecFns;
use vstd::string::StringExecFns;

verus! {

/// A 160-bit identity of an account or a service.
#[derive(Clone, Copy, Debug, PartialEq, Eq)]
pub struct Address(pub [u8; 20]);

/// The circumstances of one call: the identity that makes it, the service that
/// receives it, and the time, in seconds since the Unix epoch, read when the
/// call came in.
#[derive(Clone, Copy, Debug)]
pub struct Context {
    pub sender: Address,
    pub callee: Address,
    pub now: u64,
}

/// The lower-case hex digit for a value below sixteen.
pub open spec fn hex_digit(nibble: int) -> char {
    "0123456789abcdef"@[nibble]
}

/// Two lower-case hex digits for every byte, high nibble first.
pub open spec fn hex_encoding(bytes: Seq<u8>) -> Seq<char> {
    Seq::new(
        2 * bytes.len(),
        |i: int| hex_digit(if i % 2 == 0 { bytes[i / 2] as int / 16 } else { bytes[i / 2] as int % 16 }),
    )
}

/// Distinct values below sixteen have distinct hex digits.
pub proof fn lemma_hex_digit_injective(a: int, b: int)
    requires
        0 <= a < 16,
        0 <= b < 16,
        hex_digit(a) == hex_digit(b),
    ensures
        a == b,
{
    reveal_strlit("0123456789abcdef");
}

/// Byte strings with the same hex encoding are the same.
pub proof fn lemma_hex_encoding_injective(a: Seq<u8>, b: Seq<u8>)
    requires
        hex_encoding(a) == hex_encoding(b),
    ensures
        a == b,
{
    assert(a.len() == b.len()) by {
        assert(hex_encoding(a).len() == 2 * a.len());
        assert(hex_encoding(b).len() == 2 * b.len());
    }
    assert forall|k: int| 0 <= k < a.len() implies a[k] == b[k] by {
        let hi_a = a[k] as int / 16;
        let hi_b = b[k] as int / 16;
        let lo_a = a[k] as int % 16;
        let lo_b = b[k] as int % 16;
        assert(hex_encoding(a)[2 * k] == hex_digit(hi_a));
        assert(hex_encoding(b)[2 * k] == hex_digit(hi_b));
        assert(hex_encoding(a)[2 * k + 1] == hex_digit(lo_a));
        assert(hex_encoding(b)[2 * k + 1] == hex_digit(lo_b));
        lemma_hex_digit_injective(hi_a, hi_b);
        lemma_hex_digit_injective(lo_a, lo_b);
    }
    assert(a =~= b);
}

impl Address {
    /// The text by which this identity is named as a token's audience.
    pub open spec fn hex(&self) -> Seq<char> {
        hex_encoding(self.0@)
    }

    /// Writes the identity as forty lower-case hex digits.
    pub fn to_hex(&self) -> (text: String)
        ensures
            text@ == self.hex(),
    {
        let digits = "0123456789abcdef";
        proof {
            reveal_strlit("0123456789abcdef");
        }
        let mut text = String::new();
        let mut i: usize = 0;
        while i < 20
            invariant
                i <= 20,
                digits@ == "0123456789abcdef"@,
                digits@.len() == 16,
                digits.is_ascii(),
                text@ == hex_encoding(self.0@.subrange(0, i as int)),
            decreases 20 - i,
        {
            let byte: u8 = self.0[i];
            let hi: usize = (byte / 16) as usize;
            let lo: usize = (byte % 16) as usize;
            let ghost before = text@;
            text.append(digits.substring_ascii(hi, hi + 1));
            text.append(digits.substring_ascii(lo, lo + 1));
            proof {
                let prefix = self.0@.subrange(0, i as int);
                let next = self.0@.subrange(0, i as int + 1);
                assert(text@ =~= before + seq![hex_digit(hi as int), hex_digit(lo as int)]);
                assert forall|k: int| 0 <= k < 2 * next.len() implies #[trigger] text@[k] == hex_encoding(next)[k] by {
                    if k < 2 * i {
                        assert(next[k / 2] == prefix[k / 2]);
                        assert(before[k] == hex_encoding(prefix)[k]);
                    } else {
                        assert(k / 2 == i);
                        assert(next[k / 2] == byte);
                    }
                }
                assert(text@ =~= hex_encoding(next));
            }
            i += 1;
        }
        assert(self.0@.subrange(0, 20) =~= self.0@);
        text
    }
}

} // verus!
