use vstd::prelude::*;

use vstd::arithmetic::div_mod::{lemma_fundamental_div_mod_converse, lemma_small_mod};

use crate::text::{decimal, decimal_value, hex_digits, hex_value, is_decimal_digit, is_hex_digit, law_decimal_reads_back, law_hex_digits_read_back, lemma_hex_digits_len, pow16, push_char, push_decimal, push_hex_digits, push_signed_decimal, signed_decimal};

verus! {

/// The 32 bits of an `OSStatus`, read as an unsigned number (two's complement for negatives).
pub open spec fn status_bits(status: i32) -> nat {
    if status < 0 {
        (status + 0x1_0000_0000) as nat
    } else {
        status as nat
    }
}

/// The four bytes of an `OSStatus`, most significant first.
pub open spec fn status_bytes(status: i32) -> Seq<nat> {
    let u = status_bits(status);
    seq![u / 0x100_0000 % 0x100, u / 0x1_0000 % 0x100, u / 0x100 % 0x100, u % 0x100]
}

/// A byte that reads as a visible ASCII character or a space.
pub open spec fn fourcc_printable(b: nat) -> bool {
    0x20 <= b <= 0x7e
}

/// How a status code is shown: its four bytes as characters when all of them are printable
/// (a four-character code), otherwise `0x` and eight lowercase hexadecimal digits.
pub open spec fn fourcc_text(status: i32) -> Seq<char> {
    let bytes = status_bytes(status);
    if forall|i: int| 0 <= i < 4 ==> fourcc_printable(#[trigger] bytes[i]) {
        seq![bytes[0] as char, bytes[1] as char, bytes[2] as char, bytes[3] as char]
    } else {
        seq!['0', 'x'] + hex_digits(status_bits(status), 8)
    }
}

/// The text that reports a failed Core Audio call.
pub open spec fn status_message(operation: Seq<char>, status: i32) -> Seq<char> {
    operation + " failed with OSStatus "@ + signed_decimal(status as int) + " ("@ + fourcc_text(
        status,
    ) + ")"@
}

/// The unique identifier given to the private aggregate device created at `nanos`
/// nanoseconds after the Unix epoch.
pub open spec fn aggregate_uid_text(nanos: nat) -> Seq<char> {
    "dev.soundbar.aggregate."@ + decimal(nanos)
}

/// A Core Audio call that returned a non-zero status.
pub struct StatusError {
    pub operation: String,
    pub status: i32,
}

impl StatusError {
    /// The report of this failure: the operation, the status in decimal and its
    /// four-character code.
    pub fn message(&self) -> (r: String)
        ensures
            r@ == status_message(self.operation@, self.status),
    {
        let mut text = self.operation.clone();
        text.append(" failed with OSStatus ");
        push_signed_decimal(&mut text, self.status as i64);
        text.append(" (");
        let code = fourcc(self.status);
        text.append(code.as_str());
        text.append(")");
        text
    }
}

/// Turns a Core Audio status into a result: `Ok` exactly when the status is zero.
pub fn check_status(status: i32, operation: &str) -> (r: Result<(), StatusError>)
    ensures
        r is Ok <==> status == 0,
        r matches Err(e) ==> e.operation@ == operation@ && e.status == status,
{
    if status == 0 {
        Ok(())
    } else {
        Err(StatusError { operation: String::from_str(operation), status })
    }
}

/// Shows a status code as its four-character code when every byte is printable ASCII,
/// otherwise as `0x` followed by eight lowercase hexadecimal digits.
pub fn fourcc(status: i32) -> (r: String)
    ensures
        r@ == fourcc_text(status),
{
    let bits: u64 = if status < 0 {
        (status as i64 + 0x1_0000_0000) as u64
    } else {
        status as u64
    };
    let b0 = (bits / 0x100_0000 % 0x100) as u8;
    let b1 = (bits / 0x1_0000 % 0x100) as u8;
    let b2 = (bits / 0x100 % 0x100) as u8;
    let b3 = (bits % 0x100) as u8;
    let ghost bytes = status_bytes(status);
    assert(bytes[0] == b0 && bytes[1] == b1 && bytes[2] == b2 && bytes[3] == b3);
    let printable = 0x20 <= b0 && b0 <= 0x7e && 0x20 <= b1 && b1 <= 0x7e && 0x20 <= b2 && b2
        <= 0x7e && 0x20 <= b3 && b3 <= 0x7e;
    let mut text = String::new();
    if printable {
        push_char(&mut text, b0 as char);
        push_char(&mut text, b1 as char);
        push_char(&mut text, b2 as char);
        push_char(&mut text, b3 as char);
        assert(text@ =~= fourcc_text(status));
    } else {
        assert(!fourcc_printable(bytes[0]) || !fourcc_printable(bytes[1]) || !fourcc_printable(
            bytes[2],
        ) || !fourcc_printable(bytes[3]));
        push_char(&mut text, '0');
        push_char(&mut text, 'x');
        push_hex_digits(&mut text, bits, 8);
        assert(text@ =~= fourcc_text(status));
    }
    text
}

/// The identifier of the aggregate device created at `nanos` nanoseconds after the epoch.
pub fn aggregate_device_uid(nanos: u128) -> (r: String)
    ensures
        r@ == aggregate_uid_text(nanos as nat),
{
    let mut uid = String::from_str("dev.soundbar.aggregate.");
    push_decimal(&mut uid, nanos);
    uid
}

/// A status is always shown in four characters or in ten (`0x` and eight digits).
pub proof fn law_fourcc_width(status: i32)
    ensures
        fourcc_text(status).len() == 4 || fourcc_text(status).len() == 10,
{
    lemma_hex_digits_len(status_bits(status), 8);
}

/// Four byte values, most significant first, combined into one 32-bit number.
pub open spec fn bytes_value(b0: int, b1: int, b2: int, b3: int) -> int {
    b0 * 0x100_0000 + b1 * 0x1_0000 + b2 * 0x100 + b3
}

/// A byte value that reads as a visible ASCII character or a space.
pub open spec fn printable_byte(b: int) -> bool {
    0x20 <= b <= 0x7e
}

/// Splitting a 32-bit number into four bytes and combining them gives the number back, and
/// no other four bytes give it.
proof fn lemma_bytes_unique(u: nat, b0: int, b1: int, b2: int, b3: int)
    requires
        u < 0x1_0000_0000,
        0 <= b0 < 0x100,
        0 <= b1 < 0x100,
        0 <= b2 < 0x100,
        0 <= b3 < 0x100,
        bytes_value(b0, b1, b2, b3) == u,
    ensures
        b0 == u / 0x100_0000 % 0x100,
        b1 == u / 0x1_0000 % 0x100,
        b2 == u / 0x100 % 0x100,
        b3 == u % 0x100,
{
    let r0 = b1 * 0x1_0000 + b2 * 0x100 + b3;
    lemma_fundamental_div_mod_converse(u as int, 0x100_0000, b0, r0);
    lemma_small_mod(b0 as nat, 0x100);
    let q1 = b0 * 0x100 + b1;
    let r1 = b2 * 0x100 + b3;
    assert(u == q1 * 0x1_0000 + r1);
    lemma_fundamental_div_mod_converse(u as int, 0x1_0000, q1, r1);
    lemma_fundamental_div_mod_converse(q1, 0x100, b0, b1);
    let q2 = q1 * 0x100 + b2;
    assert(u == q2 * 0x100 + b3);
    lemma_fundamental_div_mod_converse(u as int, 0x100, q2, b3);
    lemma_fundamental_div_mod_converse(q2, 0x100, q1, b2);
}

/// A four-character code reads back as the status: its characters are printable and, taken
/// as bytes, make up the status's 32 bits. Otherwise the status is shown as `0x` and eight
/// hexadecimal digits that read back as its 32 bits, and that happens exactly when no four
/// printable bytes make up those bits.
pub proof fn law_fourcc_reads_back(status: i32)
    ensures
        ({
            let t = fourcc_text(status);
            let u = status_bits(status);
            if t.len() == 4 {
                &&& forall|i: int| 0 <= i < 4 ==> printable_byte(#[trigger] t[i] as int)
                &&& bytes_value(t[0] as int, t[1] as int, t[2] as int, t[3] as int) == u
            } else {
                &&& t.len() == 10
                &&& t[0] == '0'
                &&& t[1] == 'x'
                &&& forall|i: int| 2 <= i < 10 ==> is_hex_digit(#[trigger] t[i])
                &&& hex_value(t.skip(2)) == u
                &&& forall|b0: int, b1: int, b2: int, b3: int|
                    printable_byte(b0) && printable_byte(b1) && printable_byte(b2) && printable_byte(b3)
                        ==> #[trigger] bytes_value(b0, b1, b2, b3) != u
            }
        }),
{
    let t = fourcc_text(status);
    let u = status_bits(status);
    let bytes = status_bytes(status);
    assert(pow16(8) == 0x1_0000_0000) by {
        reveal_with_fuel(pow16, 9);
    }
    if forall|i: int| 0 <= i < 4 ==> fourcc_printable(#[trigger] bytes[i]) {
        assert(fourcc_printable(bytes[0]) && fourcc_printable(bytes[1]) && fourcc_printable(bytes[2])
            && fourcc_printable(bytes[3]));
        assert(t.len() == 4);
        assert(bytes_value(t[0] as int, t[1] as int, t[2] as int, t[3] as int) == u);
    } else {
        law_hex_digits_read_back(u, 8);
        assert(t.skip(2) =~= hex_digits(u, 8));
        assert forall|i: int| 2 <= i < 10 implies is_hex_digit(#[trigger] t[i]) by {
            assert(t[i] == hex_digits(u, 8)[i - 2]);
        }
        assert forall|b0: int, b1: int, b2: int, b3: int|
            printable_byte(b0) && printable_byte(b1) && printable_byte(b2) && printable_byte(b3)
                implies #[trigger] bytes_value(b0, b1, b2, b3) != u by {
            if bytes_value(b0, b1, b2, b3) == u {
                lemma_bytes_unique(u, b0, b1, b2, b3);
                assert(fourcc_printable(bytes[0]) && fourcc_printable(bytes[1]) && fourcc_printable(
                    bytes[2],
                ) && fourcc_printable(bytes[3]));
                assert forall|i: int| 0 <= i < 4 implies fourcc_printable(#[trigger] bytes[i]) by {
                }
            }
        }
    }
}

/// The failure report opens with the operation, then " failed with OSStatus ", then the
/// status in decimal, and closes with the status's code in brackets.
pub proof fn law_status_message_parts(operation: Seq<char>, status: i32)
    ensures
        ({
            let m = status_message(operation, status);
            let code = fourcc_text(status);
            &&& m.len() == operation.len() + 22 + signed_decimal(status as int).len() + 2 + code.len() + 1
            &&& m.take(operation.len() as int) == operation
            &&& m.subrange(operation.len() as int, operation.len() + 22int) == " failed with OSStatus "@
            &&& m.subrange(operation.len() + 22int, m.len() - code.len() - 3) == signed_decimal(status as int)
            &&& m.subrange(m.len() - code.len() - 3, m.len() - code.len() - 1) == seq![' ', '(']
            &&& m.subrange(m.len() - code.len() - 1, m.len() - 1) == code
            &&& m.last() == ')'
        }),
{
    reveal_strlit(" failed with OSStatus ");
    reveal_strlit(" (");
    reveal_strlit(")");
    let m = status_message(operation, status);
    let code = fourcc_text(status);
    let d = signed_decimal(status as int);
    assert(m.take(operation.len() as int) =~= operation);
    assert(m.subrange(operation.len() as int, operation.len() + 22int) =~= " failed with OSStatus "@);
    assert(m.subrange(operation.len() + 22int, m.len() - code.len() - 3) =~= d);
    assert(m.subrange(m.len() - code.len() - 3, m.len() - code.len() - 1) =~= seq![' ', '(']);
    assert(m.subrange(m.len() - code.len() - 1, m.len() - 1) =~= code);
}

/// The aggregate device identifier is the fixed prefix followed by decimal digits that read
/// back as the creation time in nanoseconds.
pub proof fn law_aggregate_uid_reads_back(nanos: nat)
    ensures
        ({
            let uid = aggregate_uid_text(nanos);
            &&& uid.take(23) == "dev.soundbar.aggregate."@
            &&& decimal_value(uid.skip(23)) == nanos
            &&& forall|i: int| 23 <= i < uid.len() ==> is_decimal_digit(#[trigger] uid[i])
        }),
{
    reveal_strlit("dev.soundbar.aggregate.");
    law_decimal_reads_back(nanos);
    let uid = aggregate_uid_text(nanos);
    assert(uid.take(23) =~= "dev.soundbar.aggregate."@);
    assert(uid.skip(23) =~= decimal(nanos));
    assert forall|i: int| 23 <= i < uid.len() implies is_decimal_digit(#[trigger] uid[i]) by {
        assert(uid[i] == decimal(nanos)[i - 23]);
    }
}

} // verus!
