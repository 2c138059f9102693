//! Bytes that may be text.
use vstd::prelude::*;
use vstd::utf8::{decode_utf8, valid_utf8};

verus! {

/// What `String::from_utf8` says of bytes that are no text.
pub uninterp spec fn utf8_complaint(bytes: Seq<u8>) -> Seq<char>;

/// What `String::from_utf8_lossy` makes of bytes.
pub uninterp spec fn lossy_text(bytes: Seq<u8>) -> Seq<char>;

/// `String::from_utf8`: the text that the bytes encode, where they encode one, or else the message
/// of the error.
#[verifier::external_body]
fn from_utf8(bytes: Vec<u8>) -> (r: Result<String, String>)
    ensures
        match r {
            Ok(text) => valid_utf8(bytes@) && text@ == decode_utf8(bytes@),
            Err(complaint) => !valid_utf8(bytes@) && complaint@ == utf8_complaint(bytes@),
        },
{
    String::from_utf8(bytes).map_err(|error| error.to_string())
}

/// `String::from_utf8_lossy`: the text that the bytes encode, where they encode one. What stands for
/// bytes that encode none is not said here.
#[verifier::external_body]
fn from_utf8_lossy(bytes: &[u8]) -> (r: String)
    ensures
        r@ == lossy_text(bytes@),
        valid_utf8(bytes@) ==> r@ == decode_utf8(bytes@),
{
    String::from_utf8_lossy(bytes).into_owned()
}

/// What bytes say: a text, or why they are none.
pub open spec fn read_text(bytes: Seq<u8>) -> Result<Seq<char>, Seq<char>> {
    if valid_utf8(bytes) {
        Ok(decode_utf8(bytes))
    } else {
        Err(utf8_complaint(bytes))
    }
}

/// What bytes say, come what may.
pub open spec fn guessed_text(bytes: Seq<u8>) -> Seq<char> {
    if valid_utf8(bytes) {
        decode_utf8(bytes)
    } else {
        lossy_text(bytes)
    }
}

/// What bytes say: a text, or why they are none.
pub fn read(bytes: Vec<u8>) -> (r: Result<String, String>)
    ensures
        match read_text(bytes@) {
            Ok(text) => r is Ok && r->Ok_0@ == text,
            Err(complaint) => r is Err && r->Err_0@ == complaint,
        },
{
    from_utf8(bytes)
}

/// What bytes say, come what may.
pub fn guess(bytes: &Vec<u8>) -> (r: String)
    ensures
        r@ == guessed_text(bytes@),
{
    from_utf8_lossy(bytes.as_slice())
}

/// How many bytes a character takes.
pub open spec fn width(c: char) -> nat {
    if (c as u32) < 0x80 {
        1
    } else if (c as u32) < 0x800 {
        2
    } else if (c as u32) < 0x10000 {
        3
    } else {
        4
    }
}

/// How many bytes a text takes.
pub open spec fn size(text: Seq<char>) -> nat
    decreases text.len(),
{
    if text.len() == 0 {
        0
    } else {
        size(text.drop_last()) + width(text.last())
    }
}

/// The longest beginning of a text that takes no more than so many bytes.
pub open spec fn fitting(text: Seq<char>, limit: nat) -> Seq<char>
    decreases text.len(),
{
    if text.len() == 0 || size(text) <= limit {
        text
    } else {
        fitting(text.drop_last(), limit)
    }
}

proof fn lemma_fitting(text: Seq<char>, at: int, limit: nat)
    requires
        0 <= at < text.len(),
        size(text.take(at)) <= limit,
        size(text.take(at + 1)) > limit,
    ensures
        fitting(text, limit) == text.take(at),
    decreases text.len(),
{
    lemma_size_grows(text, at + 1);
    if at == text.len() - 1 {
        assert(text.drop_last() =~= text.take(at));
        reveal_with_fuel(fitting, 2);
    } else {
        let before = text.drop_last();
        assert(before.take(at) =~= text.take(at));
        assert(before.take(at + 1) =~= text.take(at + 1));
        lemma_fitting(before, at, limit);
    }
}

proof fn lemma_size_grows(text: Seq<char>, at: int)
    requires
        0 <= at <= text.len(),
    ensures
        size(text.take(at)) <= size(text),
    decreases text.len(),
{
    if at < text.len() {
        assert(text.drop_last().take(at) =~= text.take(at));
        lemma_size_grows(text.drop_last(), at);
    } else {
        assert(text.take(at) =~= text);
    }
}

/// What fits is a beginning of the text, it fits, and with one more character it would not.
pub proof fn law_fitting_is_longest(text: Seq<char>, limit: nat)
    ensures
        fitting(text, limit).is_prefix_of(text),
        size(fitting(text, limit)) <= limit,
        fitting(text, limit).len() < text.len() ==> size(
            text.take(fitting(text, limit).len() as int + 1),
        ) > limit,
    decreases text.len(),
{
    if text.len() > 0 && size(text) > limit {
        let before = text.drop_last();
        law_fitting_is_longest(before, limit);
        let kept = fitting(text, limit);
        assert(text.take(kept.len() as int) =~= before.take(kept.len() as int));
        if kept.len() < before.len() {
            assert(text.take(kept.len() as int + 1) =~= before.take(kept.len() as int + 1));
        } else {
            assert(text.take(kept.len() as int + 1) =~= text);
        }
    } else {
        assert(text.take(text.len() as int) =~= text);
    }
}

/// The longest beginning of a text that takes no more than so many bytes.
pub fn fit(text: &str, limit: usize) -> (r: String)
    requires
        limit < usize::MAX - 4,
    ensures
        r@ == fitting(text@, limit as nat),
{
    let chars = crate::text::characters(text);
    let mut used: usize = 0;
    let mut i: usize = 0;
    while i < chars.len()
        invariant
            i <= chars@.len(),
            chars@ == text@,
            limit < usize::MAX - 4,
            used == size(text@.take(i as int)),
            used <= limit,
        decreases chars@.len() - i,
    {
        let code = chars[i] as u32;
        let wide: usize = if code < 0x80 {
            1
        } else if code < 0x800 {
            2
        } else if code < 0x10000 {
            3
        } else {
            4
        };
        assert(text@.take(i + 1).drop_last() == text@.take(i as int));
        if used + wide > limit {
            proof {
                lemma_fitting(text@, i as int, limit as nat);
            }
            return crate::text::assembled(&chars, 0, i);
        }
        used += wide;
        i += 1;
    }
    assert(text@.take(i as int) == text@);
    text.to_owned()
}

/// A text takes as many bytes as its parts do: one for ASCII, up to four for the rest.
pub proof fn law_sizes(left: Seq<char>, right: Seq<char>)
    ensures
        size(left + right) == size(left) + size(right),
        size(Seq::empty()) == 0,
        left.len() == 1 && (left[0] as u32) < 0x80 ==> size(left) == 1,
        left.len() == 1 && 0x80 <= left[0] as u32 && (left[0] as u32) < 0x800 ==> size(left) == 2,
        left.len() == 1 && 0x800 <= left[0] as u32 && (left[0] as u32) < 0x1_0000 ==> size(left) == 3,
        left.len() == 1 && 0x1_0000 <= left[0] as u32 ==> size(left) == 4,
    decreases right.len(),
{
    if left.len() == 1 {
        assert(left.drop_last() =~= Seq::<char>::empty());
        assert(size(left.drop_last()) == 0);
    }
    if right.len() == 0 {
        assert(left + right =~= left);
    } else {
        law_sizes(left, right.drop_last());
        assert((left + right).drop_last() =~= left + right.drop_last());
        assert((left + right).last() == right.last());
    }
}

/// Bytes that encode a text say that text, to whoever reads them; a text that fits is kept whole.
pub proof fn law_readings(bytes: Seq<u8>, text: Seq<char>, limit: nat)
    ensures
        valid_utf8(bytes) ==> read_text(bytes) == Ok::<Seq<char>, Seq<char>>(decode_utf8(bytes))
            && guessed_text(bytes) == decode_utf8(bytes),
        !valid_utf8(bytes) ==> read_text(bytes) is Err,
        size(text) <= limit ==> fitting(text, limit) == text,
{
}

} // verus!
