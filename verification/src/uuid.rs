//! UUIDs as the integers that their sixteen bytes spell, and their textual and BSON forms.

use vstd::arithmetic::power::pow;
use vstd::prelude::*;

verus! {

/// A UUID: its sixteen bytes, read as one big-endian integer.
pub type Uuid = u128;

/// The BSON binary subtype that marks a UUID in its standard representation.
pub const UUID_SUBTYPE: u8 = 4;

/// The lower-case hexadecimal digit of a number below sixteen.
pub open spec fn hex_digit(n: int) -> char {
    seq!['0', '1', '2', '3', '4', '5', '6', '7', '8', '9', 'a', 'b', 'c', 'd', 'e', 'f'][n]
}

/// The lowest `digits` hexadecimal digits of `value`, the most significant first.
pub open spec fn hex_text(value: nat, digits: nat) -> Seq<char>
    decreases digits,
{
    if digits == 0 {
        Seq::empty()
    } else {
        hex_text(value / 16, (digits - 1) as nat).push(hex_digit((value % 16) as int))
    }
}

/// The text of a UUID: its 32 hexadecimal digits in groups of 8, 4, 4, 4 and 12, with hyphens in
/// between.
pub open spec fn uuid_text(id: Uuid) -> Seq<char> {
    let digits = hex_text(id as nat, 32);
    digits.subrange(0, 8) + seq!['-'] + digits.subrange(8, 12) + seq!['-'] + digits.subrange(12, 16)
        + seq!['-'] + digits.subrange(16, 20) + seq!['-'] + digits.subrange(20, 32)
}

/// The integer that a sequence of bytes spells, the most significant byte first.
pub open spec fn be_value(bytes: Seq<u8>) -> nat
    decreases bytes.len(),
{
    if bytes.len() == 0 {
        0
    } else {
        be_value(bytes.drop_last()) * 256 + bytes.last() as nat
    }
}

/// The lowest `len` bytes of `value`, the most significant first.
pub open spec fn be_bytes(value: nat, len: nat) -> Seq<u8>
    decreases len,
{
    if len == 0 {
        Seq::empty()
    } else {
        be_bytes(value / 256, (len - 1) as nat).push((value % 256) as u8)
    }
}

/// A number in decimal digits, without leading zeros.
pub open spec fn decimal_text(n: nat) -> Seq<char>
    decreases n,
{
    if n < 10 {
        seq![hex_digit(n as int)]
    } else {
        decimal_text(n / 10).push(hex_digit((n % 10) as int))
    }
}

/// How `bson` spells a binary subtype.
pub open spec fn subtype_text(subtype: u8) -> Seq<char> {
    if subtype == 0 {
        "Generic"@
    } else if subtype == 1 {
        "Function"@
    } else if subtype == 2 {
        "BinaryOld"@
    } else if subtype == 3 {
        "UuidOld"@
    } else if subtype == 4 {
        "Uuid"@
    } else if subtype == 5 {
        "Md5"@
    } else if subtype == 6 {
        "Encrypted"@
    } else if subtype == 7 {
        "Column"@
    } else if subtype == 8 {
        "Sensitive"@
    } else if subtype == 9 {
        "Vector"@
    } else if subtype < 128 {
        "Reserved("@ + decimal_text(subtype as nat) + ")"@
    } else {
        "UserDefined("@ + decimal_text(subtype as nat) + ")"@
    }
}

/// The text of the error with which `bson` refuses to read a binary value as a UUID: it complains
/// of the subtype, or else of the number of bytes.
pub open spec fn to_uuid_error_text(subtype: u8, len: nat) -> Seq<char> {
    if subtype != UUID_SUBTYPE {
        "expected Uuid when converting to UUID with Standard, isntead got "@ + subtype_text(subtype)
    } else {
        "expected UUID to contain 16 bytes, instead got "@ + decimal_text(len)
    }
}

/// Calls the `Display` implementation of `bson::Uuid`: lower-case hexadecimal with hyphens.
#[verifier::external_body]
pub(crate) fn uuid_to_string(id: Uuid) -> (text: String)
    ensures
        text@ == uuid_text(id),
{
    bson::Uuid::from_bytes(id.to_be_bytes()).to_string()
}

/// Calls `bson::Binary::to_uuid`, which accepts sixteen bytes under the standard UUID subtype and
/// reads them as they stand. Whatever else it is given it refuses, for its subtype or else for its
/// length, with the text `to_uuid_error_text`.
#[verifier::external_body]
pub(crate) fn binary_to_uuid(subtype: u8, bytes: Vec<u8>) -> (result: Result<Uuid, String>)
    ensures
        match result {
            Ok(id) => subtype == UUID_SUBTYPE && bytes@.len() == 16 && id == be_value(bytes@),
            Err(text) => !(subtype == UUID_SUBTYPE && bytes@.len() == 16)
                && text@ == to_uuid_error_text(subtype, bytes@.len()),
        },
{
    let binary = bson::Binary { subtype: bson::spec::BinarySubtype::from(subtype), bytes };
    match binary.to_uuid() {
        Ok(id) => Ok(u128::from_be_bytes(id.bytes())),
        Err(error) => Err(error.to_string()),
    }
}

proof fn lemma_hex_digit_injective(a: int, b: int)
    requires
        0 <= a < 16,
        0 <= b < 16,
        hex_digit(a) == hex_digit(b),
    ensures
        a == b,
{
}

proof fn lemma_hex_text_len(value: nat, digits: nat)
    ensures
        hex_text(value, digits).len() == digits,
    decreases digits,
{
    if digits > 0 {
        lemma_hex_text_len(value / 16, (digits - 1) as nat);
    }
}

/// `16` to the power of `digits`.
spec fn hex_limit(digits: nat) -> nat
    decreases digits,
{
    if digits == 0 {
        1
    } else {
        16 * hex_limit((digits - 1) as nat)
    }
}

proof fn lemma_hex_text_injective(a: nat, b: nat, digits: nat)
    requires
        a < hex_limit(digits),
        b < hex_limit(digits),
        hex_text(a, digits) == hex_text(b, digits),
    ensures
        a == b,
    decreases digits,
{
    if digits > 0 {
        let fewer = (digits - 1) as nat;
        let (pa, pb) = (hex_text(a / 16, fewer), hex_text(b / 16, fewer));
        assert(hex_text(a, digits).drop_last() =~= pa);
        assert(hex_text(b, digits).drop_last() =~= pb);
        assert(hex_text(a, digits).last() == hex_digit((a % 16) as int));
        assert(hex_text(b, digits).last() == hex_digit((b % 16) as int));
        lemma_hex_digit_injective((a % 16) as int, (b % 16) as int);
        lemma_hex_text_injective(a / 16, b / 16, fewer);
    }
}

/// Two UUIDs that are written alike are the same UUID.
pub proof fn uuid_text_is_injective(a: Uuid, b: Uuid)
    requires
        uuid_text(a) == uuid_text(b),
    ensures
        a == b,
{
    let (da, db) = (hex_text(a as nat, 32), hex_text(b as nat, 32));
    lemma_hex_text_len(a as nat, 32);
    lemma_hex_text_len(b as nat, 32);
    let (ta, tb) = (uuid_text(a), uuid_text(b));
    assert forall|i: int| 0 <= i < 32 implies da[i] == db[i] by {
        let hyphens: int = if i < 8 { 0 } else if i < 12 { 1 } else if i < 16 { 2 } else if i < 20 { 3 } else { 4 };
        assert(ta[i + hyphens] == da[i]);
        assert(tb[i + hyphens] == db[i]);
    }
    assert(da =~= db);
    assert(hex_limit(32) == 0x1_0000_0000_0000_0000_0000_0000_0000_0000) by {
        reveal_with_fuel(hex_limit, 33);
    }
    lemma_hex_text_injective(a as nat, b as nat, 32);
}

/// A UUID that is written as sixteen bytes is read back from them unchanged.
pub proof fn uuid_bytes_round_trip(id: Uuid)
    ensures
        be_bytes(id as nat, 16).len() == 16,
        be_value(be_bytes(id as nat, 16)) == id,
{
    assert(byte_limit(16) == 0x1_0000_0000_0000_0000_0000_0000_0000_0000) by {
        reveal_with_fuel(byte_limit, 17);
    }
    lemma_be_round_trip(id as nat, 16);
}

/// `256` to the power of `len`.
spec fn byte_limit(len: nat) -> nat
    decreases len,
{
    if len == 0 {
        1
    } else {
        256 * byte_limit((len - 1) as nat)
    }
}

proof fn lemma_be_round_trip(value: nat, len: nat)
    requires
        value < byte_limit(len),
    ensures
        be_bytes(value, len).len() == len,
        be_value(be_bytes(value, len)) == value,
    decreases len,
{
    if len > 0 {
        let fewer = (len - 1) as nat;
        lemma_be_round_trip(value / 256, fewer);
        assert(be_bytes(value, len).drop_last() =~= be_bytes(value / 256, fewer));
    }
}

/// A hexadecimal digit is the character that follows `0`, or from ten on `a`, by as much as it counts.
pub proof fn hex_digits_count(n: int)
    requires
        0 <= n < 16,
    ensures
        hex_digit(n) as int == if n < 10 {
            '0' as int + n
        } else {
            'a' as int + n - 10
        },
{
}

/// A UUID is written in thirty-six characters, with hyphens behind the eighth, the twelfth, the
/// sixteenth and the twentieth digit.
pub proof fn uuid_text_has_its_hyphens(id: Uuid)
    ensures
        uuid_text(id).len() == 36,
        uuid_text(id)[8] == '-',
        uuid_text(id)[13] == '-',
        uuid_text(id)[18] == '-',
        uuid_text(id)[23] == '-',
{
    lemma_hex_text_len(id as nat, 32);
}

/// A number that is sixteen times another and a digit more is written as that other with the digit
/// behind it.
pub proof fn hex_text_is_positional(high: nat, low: nat, digits: nat)
    requires
        low < 16,
    ensures
        hex_text(high * 16 + low, digits + 1) == hex_text(high, digits).push(hex_digit(low as int)),
        hex_text(high, 0) == Seq::<char>::empty(),
{
    assert((high * 16 + low) / 16 == high && (high * 16 + low) % 16 == low);
}

/// Bytes spell a number: nothing spells zero, one byte spells itself, and what stands before other
/// bytes counts two hundred and fifty-six times as much for each of them.
pub proof fn bytes_spell_a_number(a: Seq<u8>, b: Seq<u8>, byte: u8)
    ensures
        be_value(Seq::<u8>::empty()) == 0,
        be_value(seq![byte]) == byte,
        be_value(a + b) == be_value(a) * pow(256, b.len()) + be_value(b),
    decreases b.len(),
{
    reveal(pow);
    assert(seq![byte].drop_last() =~= Seq::<u8>::empty());
    if b.len() > 0 {
        let rest = b.drop_last();
        assert((a + b).drop_last() =~= a + rest);
        bytes_spell_a_number(a, rest, byte);
        assert((be_value(a) * pow(256, rest.len()) + be_value(rest)) * 256 == be_value(a) * (256 * pow(
            256,
            rest.len(),
        )) + be_value(rest) * 256) by (nonlinear_arith);
    } else {
        assert(a + b =~= a);
        assert(be_value(a) * 1 == be_value(a));
    }
}

/// A number that is ten times another, which is not zero, and a digit more is written as that other with
/// the digit behind it.
pub proof fn decimal_text_is_positional(high: nat, low: nat)
    requires
        low < 10,
    ensures
        decimal_text(low) == seq![hex_digit(low as int)],
        high > 0 ==> decimal_text(high * 10 + low) == decimal_text(high).push(hex_digit(low as int)),
{
    assert((high * 10 + low) / 10 == high && (high * 10 + low) % 10 == low);
}

} // verus!
