//! Export identities: 128-bit UUIDs, ordered as numbers.
use vstd::prelude::*;

verus! {

/// The lower-case hexadecimal digit for a value below sixteen.
pub open spec fn hex_char(n: nat) -> char {
    if n < 10 {
        (n + '0' as nat) as char
    } else {
        (n - 10 + 'a' as nat) as char
    }
}

/// The last `len` hexadecimal digits of `n`.
pub open spec fn hex_digits(n: nat, len: nat) -> Seq<char>
    decreases len,
{
    if len == 0 {
        Seq::empty()
    } else {
        hex_digits(n / 16, (len - 1) as nat).push(hex_char(n % 16))
    }
}

/// The thirty-two digits of an identity.
pub open spec fn simple_text(id: u128) -> Seq<char> {
    hex_digits(id as nat, 32)
}

/// The usual form of an identity: its digits in groups of 8, 4, 4, 4 and 12.
pub open spec fn hyphenated_text(id: u128) -> Seq<char> {
    let s = simple_text(id);
    s.subrange(0, 8) + seq!['-'] + s.subrange(8, 12) + seq!['-'] + s.subrange(12, 16) + seq!['-']
        + s.subrange(16, 20) + seq!['-'] + s.subrange(20, 32)
}

/// Sixteen to the power of `len`.
spec fn sixteen_to(len: nat) -> nat
    decreases len,
{
    if len == 0 {
        1
    } else {
        16 * sixteen_to((len - 1) as nat)
    }
}

/// Two numbers with the same digits are the same number, where the digits hold them whole.
proof fn lemma_hex_digits(a: nat, b: nat, len: nat)
    requires
        a < sixteen_to(len),
        b < sixteen_to(len),
    ensures
        hex_digits(a, len).len() == len,
        hex_digits(a, len) == hex_digits(b, len) ==> a == b,
    decreases len,
{
    if len > 0 {
        let m = (len - 1) as nat;
        lemma_hex_digits(a / 16, b / 16, m);
        let x = hex_digits(a, len);
        let y = hex_digits(b, len);
        assert(x.drop_last() =~= hex_digits(a / 16, m));
        assert(y.drop_last() =~= hex_digits(b / 16, m));
        assert(x.last() == hex_char(a % 16));
        assert(y.last() == hex_char(b % 16));
        if x == y {
            lemma_hex_char(a % 16, b % 16);
        }
    }
}

/// A digit tells its value.
proof fn lemma_hex_char(a: nat, b: nat)
    requires
        a < 16,
        b < 16,
        hex_char(a) == hex_char(b),
    ensures
        a == b,
{
    assert(forall|n: nat| n < 10 ==> (#[trigger] hex_char(n)) as nat == n + '0' as nat);
    assert(forall|n: nat| 10 <= n < 16 ==> (#[trigger] hex_char(n)) as nat == n - 10 + 'a' as nat);
}

/// The digits of an identity are thirty-two, and two identities never share them.
pub proof fn law_identities_have_their_own_digits(a: u128, b: u128)
    ensures
        simple_text(a).len() == 32,
        simple_text(a) == simple_text(b) ==> a == b,
{
    reveal_with_fuel(sixteen_to, 33);
    lemma_hex_digits(a as nat, b as nat, 32);
}

/// Whether an identity carries the version and variant of a random UUID.
pub open spec fn is_random_id(id: u128) -> bool {
    (id >> 76u128) & 0xf == 4 && (id >> 62u128) & 0x3 == 2
}

/// `uuid::Uuid::new_v4`: a fresh random UUID. Every outcome has version 4 and the
/// RFC 4122 variant; nothing else holds of all outcomes.
#[verifier::external_body]
pub(crate) fn new_v4() -> (id: u128)
    ensures
        is_random_id(id),
{
    uuid::Uuid::new_v4().as_u128()
}

/// `Display` of `uuid::Uuid`: the lower-case hyphenated form of the identity.
#[verifier::external_body]
pub(crate) fn hyphenated(id: u128) -> (r: String)
    ensures
        r@ == hyphenated_text(id),
{
    uuid::Uuid::from_u128(id).to_string()
}

/// `uuid::Uuid::simple`: the lower-case digits of the identity without hyphens.
#[verifier::external_body]
pub(crate) fn simple(id: u128) -> (r: String)
    ensures
        r@ == simple_text(id),
{
    uuid::Uuid::from_u128(id).simple().to_string()
}

/// The digits are 0 to 9 and a to f.
pub proof fn law_hex_char(n: nat)
    ensures
        n < 10 ==> hex_char(n) as nat == '0' as nat + n,
        10 <= n < 16 ==> hex_char(n) as nat == 'a' as nat + n - 10,
{
}

proof fn lemma_hex_shift(n: nat, len: nat)
    ensures
        hex_digits(n, len).len() == len,
        hex_digits(n, len + 1).len() == len + 1,
        forall|i: int| 0 <= i < len ==> hex_digits(n, len + 1)[i + 1] == #[trigger] hex_digits(
            n,
            len,
        )[i],
    decreases len,
{
    if len > 0 {
        lemma_hex_shift(n / 16, (len - 1) as nat);
        assert forall|i: int| 0 <= i < len implies hex_digits(n, len + 1)[i + 1]
            == #[trigger] hex_digits(n, len)[i] by {
            if i < len - 1 {
                assert(hex_digits(n, len)[i] == hex_digits(n / 16, (len - 1) as nat)[i]);
            }
        }
    } else {
        assert(hex_digits(n / 16, 0).len() == 0);
    }
}

/// The last digit of an identity is its remainder by sixteen, and the digits before it are those
/// of the sixteenth part.
pub proof fn law_identity_digits(id: u128)
    ensures
        simple_text(id).len() == 32,
        simple_text(id)[31] == hex_char((id % 16) as nat),
        forall|i: int| 0 <= i < 31 ==> #[trigger] simple_text(id)[i] == simple_text(id / 16)[i + 1],
{
    lemma_hex_shift(id as nat, 32);
    lemma_hex_shift((id / 16) as nat, 31);
    assert(hex_digits(id as nat, 32) == hex_digits((id / 16) as nat, 31).push(
        hex_char((id % 16) as nat),
    ));
    assert forall|i: int| 0 <= i < 31 implies #[trigger] simple_text(id)[i] == simple_text(
        id / 16,
    )[i + 1] by {
        assert(hex_digits((id / 16) as nat, 32)[i + 1] == hex_digits((id / 16) as nat, 31)[i]);
    }
}

/// The usual form of an identity is its digits with hyphens behind the eighth, the twelfth, the
/// sixteenth and the twentieth.
pub proof fn law_hyphens(id: u128, i: int)
    requires
        0 <= i < 32,
    ensures
        hyphenated_text(id).len() == 36,
        hyphenated_text(id)[8] == '-',
        hyphenated_text(id)[13] == '-',
        hyphenated_text(id)[18] == '-',
        hyphenated_text(id)[23] == '-',
        i < 8 ==> hyphenated_text(id)[i] == simple_text(id)[i],
        8 <= i < 12 ==> hyphenated_text(id)[i + 1] == simple_text(id)[i],
        12 <= i < 16 ==> hyphenated_text(id)[i + 2] == simple_text(id)[i],
        16 <= i < 20 ==> hyphenated_text(id)[i + 3] == simple_text(id)[i],
        20 <= i ==> hyphenated_text(id)[i + 4] == simple_text(id)[i],
{
    lemma_hex_shift(id as nat, 32);
}

} // verus!
