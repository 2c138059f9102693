//! Session identifiers: 128-bit UUIDs and the texts that name them.
use vstd::prelude::*;
use crate::text::lowered;

verus! {

/// The UUID of a Codex session (a thread of the app server).
#[derive(Clone, Copy, Debug, PartialEq, Eq, Structural, Hash)]
pub struct SessionId {
    pub value: u128,
}

/// One lower-case hexadecimal digit.
pub open spec fn hex_char(digit: nat) -> char {
    if digit < 10 {
        ('0' as u32 + digit) as char
    } else {
        ('a' as u32 + digit - 10) as char
    }
}

/// The last `width` hexadecimal digits of a number, the most significant first.
pub open spec fn hex(value: nat, width: nat) -> Seq<char>
    decreases width,
{
    if width == 0 {
        Seq::empty()
    } else {
        hex(value / 16, (width - 1) as nat).push(hex_char(value % 16))
    }
}

/// The 32 digits of a UUID.
pub open spec fn compact_text(value: u128) -> Seq<char> {
    hex(value as nat, 32)
}

/// The 32 digits of a UUID in groups of 8, 4, 4, 4 and 12, with hyphens between them.
pub open spec fn hyphenated_text(value: u128) -> Seq<char> {
    let digits = compact_text(value);
    digits.subrange(0, 8) + seq!['-'] + digits.subrange(8, 12) + seq!['-'] + digits.subrange(12, 16)
        + seq!['-'] + digits.subrange(16, 20) + seq!['-'] + digits.subrange(20, 32)
}

/// The number that a hexadecimal digit of either case stands for.
pub open spec fn digit_value(c: char) -> Option<nat> {
    if '0' <= c <= '9' {
        Some((c as u32 - '0' as u32) as nat)
    } else if 'a' <= c <= 'f' {
        Some((c as u32 - 'a' as u32 + 10) as nat)
    } else if 'A' <= c <= 'F' {
        Some((c as u32 - 'A' as u32 + 10) as nat)
    } else {
        None
    }
}

/// The number that a sequence of hexadecimal digits stands for.
pub open spec fn hex_value(digits: Seq<char>) -> Option<nat>
    decreases digits.len(),
{
    if digits.len() == 0 {
        Some(0)
    } else {
        match (hex_value(digits.drop_last()), digit_value(digits.last())) {
            (Some(high), Some(low)) => Some(high * 16 + low),
            _ => None,
        }
    }
}

/// The number that 36 characters in hyphenated form stand for.
pub open spec fn hyphenated_value(text: Seq<char>) -> Option<nat> {
    if text.len() == 36 && text[8] == '-' && text[13] == '-' && text[18] == '-' && text[23] == '-' {
        hex_value(
            text.subrange(0, 8) + text.subrange(9, 13) + text.subrange(14, 18) + text.subrange(19, 23)
                + text.subrange(24, 36),
        )
    } else {
        None
    }
}

/// The UUID that a text names: 32 digits, the hyphenated form, that form in braces, or after
/// `urn:uuid:` in any case.
pub open spec fn uuid_value(text: Seq<char>) -> Option<nat> {
    if text.len() == 32 {
        hex_value(text)
    } else if text.len() == 36 {
        hyphenated_value(text)
    } else if text.len() == 38 && text[0] == '{' && text[37] == '}' {
        hyphenated_value(text.subrange(1, 37))
    } else if text.len() == 45 && lowered(text.take(9)) == "urn:uuid:"@ {
        hyphenated_value(text.skip(9))
    } else {
        None
    }
}

/// What `uuid` says of a text that names no UUID.
pub uninterp spec fn uuid_complaint(text: Seq<char>) -> Seq<char>;

/// `uuid::Uuid::parse_str`: the UUID that the text names in any of the four forms, or else the
/// message of the error.
#[verifier::external_body]
fn parse_uuid(text: &str) -> (r: Result<u128, String>)
    ensures
        match r {
            Ok(value) => uuid_value(text@) == Some(value as nat),
            Err(complaint) => uuid_value(text@) is None && complaint@ == uuid_complaint(text@),
        },
{
    match uuid::Uuid::parse_str(text) {
        Ok(id) => Ok(id.as_u128()),
        Err(error) => Err(error.to_string()),
    }
}

/// `uuid::Uuid::simple`, displayed: the 32 lower-case digits.
#[verifier::external_body]
fn simple_uuid(value: u128) -> (r: String)
    ensures
        r@ == compact_text(value),
{
    uuid::Uuid::from_u128(value).simple().to_string()
}

/// `uuid::Uuid`, displayed: the lower-case digits in five groups with hyphens between them.
#[verifier::external_body]
fn display_uuid(value: u128) -> (r: String)
    ensures
        r@ == hyphenated_text(value),
{
    uuid::Uuid::from_u128(value).to_string()
}

impl SessionId {
    /// The session that a text names, or why it names none.
    pub fn parse(text: &str) -> (r: Result<SessionId, String>)
        ensures
            match r {
                Ok(id) => uuid_value(text@) == Some(id.value as nat),
                Err(complaint) => uuid_value(text@) is None && complaint@ == uuid_complaint(text@),
            },
    {
        match parse_uuid(text) {
            Ok(value) => Ok(SessionId { value }),
            Err(complaint) => Err(complaint),
        }
    }

    /// The session that a text names, if it names one.
    pub fn find(text: &str) -> (r: Option<SessionId>)
        ensures
            r == named_session(text@),
    {
        match SessionId::parse(text) {
            Ok(id) => Some(id),
            Err(_) => None,
        }
    }

    /// The 32 digits.
    pub fn compact(&self) -> (r: String)
        ensures
            r@ == compact_text(self.value),
    {
        simple_uuid(self.value)
    }

    /// The canonical text.
    pub fn text(&self) -> (r: String)
        ensures
            r@ == hyphenated_text(self.value),
    {
        display_uuid(self.value)
    }
}

/// The session that a text names, if it names one.
pub open spec fn named_session(text: Seq<char>) -> Option<SessionId> {
    match uuid_value(text) {
        Some(value) => Some(SessionId { value: value as u128 }),
        None => None,
    }
}

/// Sixteen to the power of `width`.
pub open spec fn hex_bound(width: nat) -> nat
    decreases width,
{
    if width == 0 {
        1
    } else {
        16 * hex_bound((width - 1) as nat)
    }
}

proof fn lemma_hex_reads_back(value: nat, width: nat)
    requires
        value < hex_bound(width),
    ensures
        hex(value, width).len() == width,
        hex_value(hex(value, width)) == Some(value),
    decreases width,
{
    if width > 0 {
        lemma_hex_reads_back(value / 16, (width - 1) as nat);
        let digits = hex(value, width);
        assert(digits.drop_last() == hex(value / 16, (width - 1) as nat));
        assert(digits.last() == hex_char(value % 16));
        assert(digit_value(hex_char(value % 16)) == Some(value % 16));
    }
}

pub proof fn lemma_compact_text(value: u128)
    ensures
        compact_text(value).len() == 32,
        hex_value(compact_text(value)) == Some(value as nat),
{
    assert(hex_bound(32) == 0x1_0000_0000_0000_0000_0000_0000_0000_0000nat) by {
        reveal_with_fuel(hex_bound, 33);
    }
    lemma_hex_reads_back(value as nat, 32);
}

proof fn lemma_hex_ascii(value: nat, width: nat)
    ensures
        forall|i: int| 0 <= i < hex(value, width).len() ==> '0' <= #[trigger] hex(value, width)[i] <= 'f',
    decreases width,
{
    if width > 0 {
        lemma_hex_ascii(value / 16, (width - 1) as nat);
        let before = hex(value / 16, (width - 1) as nat);
        assert forall|i: int| 0 <= i < hex(value, width).len() implies '0' <= #[trigger] hex(
            value,
            width,
        )[i] <= 'f' by {
            if i < before.len() {
                assert(hex(value, width)[i] == before[i]);
            } else {
                assert(hex(value, width)[i] == hex_char(value % 16));
            }
        }
    }
}

pub proof fn lemma_ascii(value: u128)
    ensures
        hyphenated_text(value).len() == 36,
        forall|i: int| 0 <= i < 36 ==> '-' <= #[trigger] hyphenated_text(value)[i] <= 'f',
{
    lemma_compact_text(value);
    lemma_hex_ascii(value as nat, 32);
}

/// Reading either text of an identifier gives the identifier back.
pub proof fn law_session_id_reads_back(id: SessionId)
    ensures
        named_session(compact_text(id.value)) == Some(id),
        named_session(hyphenated_text(id.value)) == Some(id),
{
    lemma_compact_text(id.value);
    let digits = compact_text(id.value);
    let text = hyphenated_text(id.value);
    assert(text.len() == 36);
    assert(text.subrange(0, 8) + text.subrange(9, 13) + text.subrange(14, 18) + text.subrange(
        19,
        23,
    ) + text.subrange(24, 36) =~= digits);
}

/// Two identifiers with the same text are the same identifier.
pub proof fn law_session_id_texts_differ(left: SessionId, right: SessionId)
    ensures
        compact_text(left.value) == compact_text(right.value) ==> left == right,
        hyphenated_text(left.value) == hyphenated_text(right.value) ==> left == right,
{
    law_session_id_reads_back(left);
    law_session_id_reads_back(right);
}

/// Hexadecimal digits are read from the left, each worth a sixteenth of the one before it, in either
/// case; anything that is no digit spoils the number.
pub proof fn law_hexadecimal(digits: Seq<char>, c: char, value: nat)
    requires
        hex_value(digits) == Some(value),
    ensures
        '0' <= c <= '9' ==> hex_value(digits.push(c)) == Some(
            (16 * value + (c as u32 - '0' as u32)) as nat,
        ),
        'a' <= c <= 'f' ==> hex_value(digits.push(c)) == Some(
            (16 * value + 10 + (c as u32 - 'a' as u32)) as nat,
        ),
        'A' <= c <= 'F' ==> hex_value(digits.push(c)) == Some(
            (16 * value + 10 + (c as u32 - 'A' as u32)) as nat,
        ),
        !('0' <= c <= '9' || 'a' <= c <= 'f' || 'A' <= c <= 'F') ==> hex_value(digits.push(c))
            is None,
{
    assert(digits.push(c).drop_last() =~= digits);
}

/// An identifier is written with 32 digits of which the first are the most significant, and in groups
/// of 8, 4, 4, 4 and 12 of these.
pub proof fn law_texts_of_identifiers(id: SessionId)
    ensures
        compact_text(id.value).len() == 32,
        hex_value(compact_text(id.value)) == Some(id.value as nat),
        hyphenated_text(id.value).len() == 36,
        hyphenated_text(id.value)[8] == '-',
        hyphenated_text(id.value)[13] == '-',
        hyphenated_text(id.value)[18] == '-',
        hyphenated_text(id.value)[23] == '-',
        forall|i: int|
            0 <= i < 32 ==> ('0' <= #[trigger] compact_text(id.value)[i] <= '9' || 'a'
                <= compact_text(id.value)[i] <= 'f'),
{
    lemma_compact_text(id.value);
    lemma_hex_lower(id.value as nat, 32);
}

proof fn lemma_hex_lower(value: nat, width: nat)
    ensures
        hex(value, width).len() == width,
        forall|i: int|
            0 <= i < width ==> ('0' <= #[trigger] hex(value, width)[i] <= '9' || 'a' <= hex(
                value,
                width,
            )[i] <= 'f'),
    decreases width,
{
    if width > 0 {
        let before = hex(value / 16, (width - 1) as nat);
        lemma_hex_lower(value / 16, (width - 1) as nat);
        assert forall|i: int| 0 <= i < width implies ('0' <= #[trigger] hex(value, width)[i] <= '9'
            || 'a' <= hex(value, width)[i] <= 'f') by {
            if i < width - 1 {
                assert(hex(value, width)[i] == before[i]);
            } else {
                assert(hex(value, width)[i] == hex_char(value % 16));
            }
        }
    }
}

/// An identifier is also named by its hyphenated text in braces or behind `urn:uuid:`, and by nothing
/// of another length.
pub proof fn law_other_names_of_identifiers(id: SessionId, text: Seq<char>)
    ensures
        named_session(seq!['{'] + hyphenated_text(id.value) + seq!['}']) == Some(id),
        named_session("urn:uuid:"@ + hyphenated_text(id.value)) == Some(id),
        text.len() != 32 && text.len() != 36 && text.len() != 38 && text.len() != 45
            ==> named_session(text) is None,
{
    let own = hyphenated_text(id.value);
    law_texts_of_identifiers(id);
    law_session_id_reads_back(id);
    let braced = seq!['{'] + own + seq!['}'];
    assert(braced.subrange(1, 37) =~= own);
    reveal_strlit("urn:uuid:");
    let urn = "urn:uuid:"@ + own;
    assert("urn:uuid:"@.len() == 9);
    assert(urn.take(9) =~= "urn:uuid:"@);
    assert(lowered("urn:uuid:"@) =~= "urn:uuid:"@);
    assert(urn.skip(9) =~= own);
}

} // verus!
