//! What errors say.
use crate::error::{Error, Fault};
use vstd::prelude::*;

verus! {

/// `message` is `intro` and what `source` displays.
pub open spec fn shows<T: core::fmt::Display>(message: Seq<char>, intro: Seq<char>, source: T) -> bool {
    exists|shown: String|
        #[trigger] vstd::string::to_string_from_display_ensures(&source, shown) && message == intro
            + shown@
}

/// `err` is a decryption error with this message.
pub open spec fn decryption_error(err: Error, text: Seq<char>) -> bool {
    err matches Error::ProfileDecryption { message } && message@ == text
}

/// `err` is an encryption error with this message.
pub open spec fn encryption_error(err: Error, text: Seq<char>) -> bool {
    err matches Error::ProfileEncryption { message } && message@ == text
}

/// `err` is a decryption error whose message is `intro` and what `source` displays.
pub open spec fn decryption_error_of<T: core::fmt::Display>(
    err: Error,
    intro: Seq<char>,
    source: T,
) -> bool {
    err matches Error::ProfileDecryption { message } && shows(message@, intro, source)
}

/// `err` is an encryption error whose message is `intro` and what `source` displays.
pub open spec fn encryption_error_of<T: core::fmt::Display>(
    err: Error,
    intro: Seq<char>,
    source: T,
) -> bool {
    err matches Error::ProfileEncryption { message } && shows(message@, intro, source)
}

/// Each fault is reported with its own message, whatever the fault carries, and an error with that
/// message reports it.
pub proof fn law_reported_messages(err: Error, fault: Fault)
    ensures
        err.reports(fault) <==> match fault {
            Fault::FieldParts => decryption_error(
                err,
                "invalid encrypted field format: expected 'v1:salt:ciphertext'"@,
            ),
            Fault::SaltParts => decryption_error(
                err,
                "invalid salt-embedded format: expected 'ENC:v1:salt:ciphertext'"@,
            ),
            Fault::SaltEncoding(source) => decryption_error_of(
                err,
                "invalid base64 in salt: "@,
                source,
            ),
            Fault::FieldEncoding(source) => decryption_error_of(
                err,
                "invalid base64 in encrypted field: "@,
                source,
            ),
            Fault::FieldLength(len) => decryption_error(
                err,
                "encrypted field too short: expected at least 12 bytes, got "@
                    + crate::text::decimal_text(len),
            ),
            Fault::FieldOverlong => decryption_error(err, "field decryption failed: aead::Error"@),
            Fault::FieldOpening(source) => decryption_error_of(
                err,
                "field decryption failed: "@,
                source,
            ),
            Fault::FieldText(source) => decryption_error_of(
                err,
                "decrypted field is not valid UTF-8: "@,
                source,
            ),
            Fault::NoSalt => decryption_error(
                err,
                "no encrypted fields found with embedded salt (expected format: ENC:v1:salt:ciphertext)"@,
            ),
            Fault::PlaintextOverlong => encryption_error(
                err,
                "field encryption failed: aead::Error"@,
            ),
            Fault::FieldSealing(source) => encryption_error_of(
                err,
                "field encryption failed: "@,
                source,
            ),
            Fault::KeyCosts(source) => encryption_error_of(
                err,
                "invalid argon2 parameters: "@,
                source,
            ),
            Fault::KeyInputs(source) => encryption_error_of(
                err,
                "failed to derive master key: "@,
                source,
            ),
        },
{
}

/// The number that decimal digits stand for.
pub open spec fn decimal_value(digits: Seq<char>) -> int
    decreases digits.len(),
{
    if digits.len() == 0 {
        0
    } else {
        decimal_value(digits.drop_last()) * 10 + (digits.last() as int - '0' as int)
    }
}

/// A number that is written in decimal stands for itself, in digits of which the first is no zero
/// unless it is the only one.
pub proof fn law_decimal_stands_for_number(n: nat)
    ensures
        decimal_value(crate::text::decimal_text(n)) == n,
        crate::text::decimal_text(n).len() > 0,
        forall|i: int|
            0 <= i < crate::text::decimal_text(n).len() ==> '0' <= #[trigger] crate::text::decimal_text(
                n,
            )[i] <= '9',
        n > 0 ==> crate::text::decimal_text(n)[0] != '0',
    decreases n,
{
    reveal_strlit("0");
    reveal_strlit("1");
    reveal_strlit("2");
    reveal_strlit("3");
    reveal_strlit("4");
    reveal_strlit("5");
    reveal_strlit("6");
    reveal_strlit("7");
    reveal_strlit("8");
    reveal_strlit("9");
    let text = crate::text::decimal_text(n);
    let last = crate::text::digit_text(n % 10);
    assert(last.len() == 1);
    assert(last[0] as int - '0' as int == n % 10);
    if n < 10 {
        assert(text.drop_last() =~= Seq::<char>::empty());
        assert(decimal_value(text.drop_last()) == 0);
    } else {
        law_decimal_stands_for_number(n / 10);
        assert(text.drop_last() =~= crate::text::decimal_text(n / 10));
        assert(text.last() == last[0]);
    }
}

} // verus!
