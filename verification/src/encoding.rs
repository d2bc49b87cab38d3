//! The encoder: a pure function from a byte sequence to its escaped form.
//!
//! Unreserved bytes (ASCII letters, digits, `-`, `.`, `_`, `~`) stand for
//! themselves; every other byte becomes `%` followed by two upper-case hex
//! digits. When no byte needs escaping the encoder reports that the input may
//! be used as-is, so the caller can avoid an allocation.

use vstd::prelude::*;

verus! {

/// A byte the encoder passes through unchanged: an ASCII letter, a digit,
/// or one of `-`, `.`, `_`, `~`.
pub open spec fn is_unreserved(b: u8) -> bool {
    ||| 0x61 <= b && b <= 0x7a  // 'a'..='z'
    ||| 0x41 <= b && b <= 0x5a  // 'A'..='Z'
    ||| 0x30 <= b && b <= 0x39  // '0'..='9'
    ||| b == 0x2d  // '-'
    ||| b == 0x2e  // '.'
    ||| b == 0x5f  // '_'
    ||| b == 0x7e  // '~'
}

/// The digit `n` as an upper-case hexadecimal ASCII byte.
pub open spec fn hex_upper(n: u8) -> u8
    recommends
        n < 16,
{
    if n < 10 {
        (0x30 + n) as u8
    } else {
        (0x37 + n) as u8
    }
}

/// How a single byte is encoded: itself when unreserved, else `%` and two
/// hex digits.
pub open spec fn encode_byte(b: u8) -> Seq<u8> {
    if is_unreserved(b) {
        seq![b]
    } else {
        seq![0x25u8, hex_upper(b / 16), hex_upper(b % 16)]
    }
}

/// The encoding of a whole byte sequence.
pub open spec fn encoded(s: Seq<u8>) -> Seq<u8>
    decreases s.len(),
{
    if s.len() == 0 {
        Seq::empty()
    } else {
        encode_byte(s[0]) + encoded(s.drop_first())
    }
}

/// Every byte of `s` is unreserved.
pub open spec fn all_unreserved(s: Seq<u8>) -> bool {
    forall|i: int| 0 <= i < s.len() ==> is_unreserved(s[i])
}

pub proof fn lemma_encoded_push(s: Seq<u8>, b: u8)
    ensures
        encoded(s.push(b)) == encoded(s) + encode_byte(b),
    decreases s.len(),
{
    if s.len() == 0 {
        assert(s.push(b).drop_first() =~= Seq::<u8>::empty());
        assert(s.push(b)[0] == b);
        assert(encoded(s.push(b)) == encode_byte(b) + encoded(Seq::<u8>::empty()));
        assert(encoded(Seq::<u8>::empty()) =~= Seq::<u8>::empty());
        assert(encoded(s) =~= Seq::<u8>::empty());
        assert(encoded(s.push(b)) =~= encoded(s) + encode_byte(b));
    } else {
        assert(s.push(b).drop_first() =~= s.drop_first().push(b));
        lemma_encoded_push(s.drop_first(), b);
        assert(s.push(b)[0] == s[0]);
        assert(encoded(s.push(b)) =~= encoded(s) + encode_byte(b));
    }
}

pub proof fn lemma_encoded_len(s: Seq<u8>)
    ensures
        encoded(s).len() >= s.len(),
        encoded(s).len() == s.len() <==> all_unreserved(s),
    decreases s.len(),
{
    if s.len() == 0 {
    } else {
        lemma_encoded_len(s.drop_first());
        assert forall|i: int| 0 <= i < s.drop_first().len() implies s.drop_first()[i] == s[i
            + 1] by {}
        if all_unreserved(s) {
            assert(all_unreserved(s.drop_first()));
            assert(is_unreserved(s[0]));
        }
        if encoded(s).len() == s.len() {
            assert(is_unreserved(s[0]));
            assert(all_unreserved(s.drop_first()));
            assert forall|i: int| 0 <= i < s.len() implies is_unreserved(s[i]) by {
                if i > 0 {
                    assert(s[i] == s.drop_first()[i - 1]);
                }
            }
        }
    }
}

pub proof fn lemma_encoded_identity(s: Seq<u8>)
    requires
        all_unreserved(s),
    ensures
        encoded(s) == s,
    decreases s.len(),
{
    if s.len() == 0 {
        assert(encoded(s) =~= s);
    } else {
        assert forall|i: int| 0 <= i < s.drop_first().len() implies is_unreserved(
            s.drop_first()[i],
        ) by {
            assert(s.drop_first()[i] == s[i + 1]);
        }
        lemma_encoded_identity(s.drop_first());
        assert(is_unreserved(s[0]));
        assert(encoded(s) =~= s);
    }
}

/// The encoder leaves a sequence unchanged exactly when every byte of it is
/// unreserved.
pub proof fn lemma_encoded_fixed_point(s: Seq<u8>)
    ensures
        encoded(s) == s <==> all_unreserved(s),
{
    lemma_encoded_len(s);
    if all_unreserved(s) {
        lemma_encoded_identity(s);
    }
}

/// The outcome of encoding: either the input may be used unchanged, with no
/// allocation, or a fresh buffer holds the escaped bytes.
pub enum EncodedResult {
    Borrowed,
    Owned(Vec<u8>),
}

impl EncodedResult {
    /// The result required no allocation.
    pub open spec fn is_borrowed(self) -> bool {
        self is Borrowed
    }

    /// The bytes the result stands for, given the input it came from.
    pub open spec fn bytes_spec(self, input: Seq<u8>) -> Seq<u8> {
        match self {
            EncodedResult::Borrowed => input,
            EncodedResult::Owned(v) => v@,
        }
    }

    /// Turns the result into the encoded bytes; a borrowed result takes them
    /// from the input it was produced for.
    pub fn into_bytes(self, input: Vec<u8>) -> (r: Vec<u8>)
        ensures
            r@ == self.bytes_spec(input@),
    {
        match self {
            EncodedResult::Borrowed => input,
            EncodedResult::Owned(v) => v,
        }
    }
}

fn byte_is_unreserved(b: u8) -> (r: bool)
    ensures
        r == is_unreserved(b),
{
    (0x61 <= b && b <= 0x7a) || (0x41 <= b && b <= 0x5a) || (0x30 <= b && b <= 0x39) || b == 0x2d
        || b == 0x2e || b == 0x5f || b == 0x7e
}

fn hex_digit(n: u8) -> (r: u8)
    requires
        n < 16,
    ensures
        r == hex_upper(n),
{
    if n < 10 {
        0x30 + n
    } else {
        0x37 + n
    }
}

/// Encodes `input`, borrowing it unchanged when no byte needs escaping.
pub fn encode(input: &Vec<u8>) -> (r: EncodedResult)
    ensures
        r.bytes_spec(input@) == encoded(input@),
        r.is_borrowed() <==> encoded(input@) == input@,
{
    let n: usize = input.len();
    let mut i: usize = 0;
    let mut clean: bool = true;
    while i < n
        invariant
            i <= n,
            n == input@.len(),
            clean <==> (forall|k: int| 0 <= k < i ==> is_unreserved(input@[k])),
        decreases n - i,
    {
        if !byte_is_unreserved(input[i]) {
            clean = false;
        }
        i += 1;
    }
    proof {
        lemma_encoded_fixed_point(input@);
    }
    if clean {
        proof {
            lemma_encoded_identity(input@);
        }
        EncodedResult::Borrowed
    } else {
        let mut out: Vec<u8> = Vec::new();
        let mut j: usize = 0;
        while j < n
            invariant
                j <= n,
                n == input@.len(),
                out@ == encoded(input@.take(j as int)),
            decreases n - j,
        {
            let b: u8 = input[j];
            if byte_is_unreserved(b) {
                out.push(b);
            } else {
                out.push(0x25);
                out.push(hex_digit(b / 16));
                out.push(hex_digit(b % 16));
            }
            proof {
                assert(input@.take(j + 1) =~= input@.take(j as int).push(input@[j as int]));
                lemma_encoded_push(input@.take(j as int), input@[j as int]);
                assert(out@ =~= encoded(input@.take(j as int)) + encode_byte(input@[j as int]));
            }
            j += 1;
        }
        proof {
            assert(input@.take(n as int) =~= input@);
        }
        EncodedResult::Owned(out)
    }
}

} // verus!
