//! Text as sequences of characters: classification, trimming, splitting and joining.
use vstd::prelude::*;

verus! {

/// `String::push` appends the given character to the end of the string.
pub assume_specification[ String::push ](s: &mut String, c: char)
    ensures
        final(s)@ == old(s)@.push(c),
;

/// `str` equality holds exactly when both slices hold the same characters.
pub assume_specification[ <str as PartialEq>::eq ](left: &str, right: &str) -> (equal: bool)
    ensures
        equal == (left@ == right@),
;

/// The characters with the Unicode `White_Space` property.
pub open spec fn is_white(c: char) -> bool {
    ||| '\u{9}' <= c <= '\u{d}'
    ||| c == ' '
    ||| c == '\u{85}'
    ||| c == '\u{a0}'
    ||| c == '\u{1680}'
    ||| '\u{2000}' <= c <= '\u{200a}'
    ||| c == '\u{2028}'
    ||| c == '\u{2029}'
    ||| c == '\u{202f}'
    ||| c == '\u{205f}'
    ||| c == '\u{3000}'
}

/// The characters of the Unicode general category `Cc`.
pub open spec fn is_control(c: char) -> bool {
    c <= '\u{1f}' || '\u{7f}' <= c <= '\u{9f}'
}

pub open spec fn is_upper(c: char) -> bool {
    'A' <= c <= 'Z'
}

pub open spec fn is_lower(c: char) -> bool {
    'a' <= c <= 'z'
}

pub open spec fn is_digit(c: char) -> bool {
    '0' <= c <= '9'
}

pub open spec fn is_alphanumeric(c: char) -> bool {
    is_upper(c) || is_lower(c) || is_digit(c)
}

/// The ASCII lower-case form of a character; other characters stay as they are.
pub open spec fn lower(c: char) -> char {
    if is_upper(c) {
        (c as u32 + 32) as char
    } else {
        c
    }
}

pub open spec fn lowered(text: Seq<char>) -> Seq<char> {
    text.map_values(|c: char| lower(c))
}

/// The texts that a sequence of strings holds.
pub open spec fn texts(strings: Seq<String>) -> Seq<Seq<char>> {
    strings.map_values(|s: String| s@)
}

/// The text that an optional string holds.
pub open spec fn opt_text(value: Option<String>) -> Option<Seq<char>> {
    match value {
        Some(text) => Some(text@),
        None => None,
    }
}

/// The text that an optional string slice holds.
pub open spec fn opt_str(value: Option<&str>) -> Option<Seq<char>> {
    match value {
        Some(text) => Some(text@),
        None => None,
    }
}

pub open spec fn trim_start(text: Seq<char>) -> Seq<char>
    decreases text.len(),
{
    if text.len() > 0 && is_white(text[0]) {
        trim_start(text.drop_first())
    } else {
        text
    }
}

pub open spec fn trim_end(text: Seq<char>) -> Seq<char>
    decreases text.len(),
{
    if text.len() > 0 && is_white(text.last()) {
        trim_end(text.drop_last())
    } else {
        text
    }
}

/// A text without the white space at its two ends.
pub open spec fn trimmed(text: Seq<char>) -> Seq<char> {
    trim_end(trim_start(text))
}

/// A text that holds nothing but white space.
pub open spec fn is_blank(text: Seq<char>) -> bool {
    trimmed(text).len() == 0
}

/// The first `limit` characters of a text, or all of it where it is shorter.
pub open spec fn clipped(text: Seq<char>, limit: nat) -> Seq<char> {
    if text.len() <= limit {
        text
    } else {
        text.take(limit as int)
    }
}

/// What a run of characters is made of.
#[derive(Clone, Copy, Debug, PartialEq, Eq, Structural)]
pub enum Class {
    /// Anything but white space.
    Visible,
    /// ASCII letters and digits.
    Alphanumeric,
}

pub open spec fn belongs(class: Class, c: char) -> bool {
    match class {
        Class::Visible => !is_white(c),
        Class::Alphanumeric => is_alphanumeric(c),
    }
}

/// The closed runs of a text, and the run that is still open at its end.
pub open spec fn scanned(text: Seq<char>, class: Class) -> (Seq<Seq<char>>, Seq<char>)
    decreases text.len(),
{
    if text.len() == 0 {
        (Seq::empty(), Seq::empty())
    } else {
        let (closed, open) = scanned(text.drop_last(), class);
        if belongs(class, text.last()) {
            (closed, open.push(text.last()))
        } else if open.len() > 0 {
            (closed.push(open), Seq::empty())
        } else {
            (closed, open)
        }
    }
}

/// The maximal runs of characters of one class, in order.
pub open spec fn runs(text: Seq<char>, class: Class) -> Seq<Seq<char>> {
    let (closed, open) = scanned(text, class);
    if open.len() > 0 {
        closed.push(open)
    } else {
        closed
    }
}

/// The parts in order, with the separator between each two.
pub open spec fn joined(parts: Seq<Seq<char>>, separator: Seq<char>) -> Seq<char>
    decreases parts.len(),
{
    if parts.len() == 0 {
        Seq::empty()
    } else if parts.len() == 1 {
        parts[0]
    } else {
        joined(parts.drop_last(), separator) + separator + parts.last()
    }
}

/// The parts without those that repeat the part before them.
pub open spec fn deduped(parts: Seq<Seq<char>>) -> Seq<Seq<char>>
    decreases parts.len(),
{
    if parts.len() == 0 {
        Seq::empty()
    } else {
        let before = deduped(parts.drop_last());
        if before.len() > 0 && before.last() == parts.last() {
            before
        } else {
            before.push(parts.last())
        }
    }
}

/// A text with every occurrence of one character replaced.
pub open spec fn replaced(text: Seq<char>, from: char, to: Seq<char>) -> Seq<char>
    decreases text.len(),
{
    if text.len() == 0 {
        Seq::empty()
    } else if text.last() == from {
        replaced(text.drop_last(), from, to) + to
    } else {
        replaced(text.drop_last(), from, to).push(text.last())
    }
}

pub open spec fn digit_char(digit: nat) -> char {
    ('0' as u32 + digit) as char
}

/// The decimal digits of a natural number, without leading zeros.
pub open spec fn decimal(value: nat) -> Seq<char>
    decreases value,
{
    if value < 10 {
        seq![digit_char(value)]
    } else {
        decimal(value / 10).push(digit_char(value % 10))
    }
}

/// The decimal form of an integer, with a minus sign where it is negative.
pub open spec fn signed_decimal(value: int) -> Seq<char> {
    if value < 0 {
        seq!['-'] + decimal((-value) as nat)
    } else {
        decimal(value as nat)
    }
}

/// Whether two texts hold the same characters.
pub fn same(left: &str, right: &str) -> (r: bool)
    ensures
        r == (left@ == right@),
{
    *left == *right
}

pub fn white(c: char) -> (r: bool)
    ensures
        r == is_white(c),
{
    ('\u{9}' <= c && c <= '\u{d}') || c == ' ' || c == '\u{85}' || c == '\u{a0}' || c == '\u{1680}'
        || ('\u{2000}' <= c && c <= '\u{200a}') || c == '\u{2028}' || c == '\u{2029}' || c
        == '\u{202f}' || c == '\u{205f}' || c == '\u{3000}'
}

pub fn control_character(c: char) -> (r: bool)
    ensures
        r == is_control(c),
{
    c <= '\u{1f}' || ('\u{7f}' <= c && c <= '\u{9f}')
}

pub fn alphanumeric(c: char) -> (r: bool)
    ensures
        r == is_alphanumeric(c),
{
    ('A' <= c && c <= 'Z') || ('a' <= c && c <= 'z') || ('0' <= c && c <= '9')
}

pub fn to_lower(c: char) -> (r: char)
    ensures
        r == lower(c),
{
    if 'A' <= c && c <= 'Z' {
        let code: u8 = c as u8;
        (code + 32) as char
    } else {
        c
    }
}

fn of_class(class: Class, c: char) -> (r: bool)
    ensures
        r == belongs(class, c),
{
    match class {
        Class::Visible => !white(c),
        Class::Alphanumeric => alphanumeric(c),
    }
}

/// The characters of a text.
pub fn characters(text: &str) -> (r: Vec<char>)
    ensures
        r@ == text@,
{
    let mut out: Vec<char> = Vec::new();
    for c in it: text.chars()
        invariant
            it.seq() == text@,
            out@ == text@.take(it.index()),
    {
        out.push(c);
    }
    assert(text@.take(text@.len() as int) == text@);
    out
}

/// The text of the characters from `from` up to `to`.
pub fn assembled(chars: &Vec<char>, from: usize, to: usize) -> (r: String)
    requires
        from <= to <= chars@.len(),
    ensures
        r@ == chars@.subrange(from as int, to as int),
{
    let mut out = String::new();
    let mut i: usize = from;
    while i < to
        invariant
            from <= i <= to <= chars@.len(),
            out@ == chars@.subrange(from as int, i as int),
        decreases to - i,
    {
        out.push(chars[i]);
        i += 1;
        assert(chars@.subrange(from as int, i as int) == chars@.subrange(
            from as int,
            i - 1,
        ).push(chars@[i - 1]));
    }
    out
}

/// Trimming the start of a text drops exactly the white space before its first visible character.
proof fn lemma_trim_start(text: Seq<char>, from: int)
    requires
        0 <= from <= text.len(),
        forall|i: int| 0 <= i < from ==> is_white(text[i]),
        from < text.len() ==> !is_white(text[from]),
    ensures
        trim_start(text) == text.skip(from),
    decreases text.len(),
{
    if from > 0 {
        let rest = text.drop_first();
        assert(forall|i: int| 0 <= i < from - 1 ==> rest[i] == text[i + 1]);
        lemma_trim_start(rest, from - 1);
        assert(rest.skip(from - 1) == text.skip(from));
    } else {
        assert(text.skip(0) == text);
    }
}

/// Trimming the end of a text drops exactly the white space after its last visible character.
proof fn lemma_trim_end(text: Seq<char>, to: int)
    requires
        0 <= to <= text.len(),
        forall|i: int| to <= i < text.len() ==> is_white(text[i]),
        to > 0 ==> !is_white(text[to - 1]),
    ensures
        trim_end(text) == text.take(to),
    decreases text.len(),
{
    if to < text.len() {
        let rest = text.drop_last();
        lemma_trim_end(rest, to);
        assert(rest.take(to) == text.take(to));
    } else {
        assert(text.take(to) == text);
    }
}

proof fn lemma_trim_start_visible(text: Seq<char>)
    ensures
        trim_start(text).len() > 0 ==> !is_white(trim_start(text)[0]),
    decreases text.len(),
{
    if text.len() > 0 && is_white(text[0]) {
        lemma_trim_start_visible(text.drop_first());
    }
}

proof fn lemma_trim_end_visible(text: Seq<char>)
    ensures
        trim_end(text).is_prefix_of(text),
        trim_end(text).len() > 0 ==> !is_white(trim_end(text).last()),
    decreases text.len(),
{
    if text.len() > 0 && is_white(text.last()) {
        lemma_trim_end_visible(text.drop_last());
        let kept = trim_end(text);
        assert(kept =~= text.take(kept.len() as int));
    } else {
        assert(text =~= text.take(text.len() as int));
    }
}

/// A trimmed text has no white space at its ends, so that trimming it again changes nothing.
pub proof fn lemma_trimmed(text: Seq<char>)
    ensures
        trimmed(trimmed(text)) == trimmed(text),
{
    let kept = trimmed(text);
    lemma_trim_start_visible(text);
    lemma_trim_end_visible(trim_start(text));
    if kept.len() > 0 {
        assert(kept[0] == trim_start(text)[0]);
    }
}

/// The text without the white space at its two ends.
pub fn trim(text: &str) -> (r: String)
    ensures
        r@ == trimmed(text@),
{
    let chars = characters(text);
    let count: usize = chars.len();
    let mut from: usize = 0;
    while from < count && white(chars[from])
        invariant
            from <= count,
            count == chars@.len(),
            forall|i: int| 0 <= i < from ==> is_white(chars@[i]),
        decreases count - from,
    {
        from += 1;
    }
    let mut to: usize = count;
    while to > from && white(chars[to - 1])
        invariant
            from <= to <= count,
            count == chars@.len(),
            forall|i: int| to <= i < count ==> is_white(chars@[i]),
        decreases to,
    {
        to -= 1;
    }
    proof {
        lemma_trim_start(chars@, from as int);
        let rest = chars@.skip(from as int);
        assert(forall|i: int| to - from <= i < rest.len() ==> rest[i] == chars@[i + from]);
        lemma_trim_end(rest, to - from);
        assert(rest.take(to - from) == chars@.subrange(from as int, to as int));
    }
    assembled(&chars, from, to)
}

/// Whether a text holds nothing but white space.
pub fn blank(text: &str) -> (r: bool)
    ensures
        r == is_blank(text@),
{
    trim(text).as_str().is_empty()
}

/// The first `limit` characters of `value`, or all of them where there are fewer.
pub fn truncate_chars(value: &str, limit: usize) -> (r: String)
    ensures
        r@ == clipped(value@, limit as nat),
{
    let mut out = String::new();
    let mut count: usize = 0;
    for c in it: value.chars()
        invariant
            it.seq() == value@,
            count <= limit,
            count == if it.index() <= limit { it.index() } else { limit as int },
            out@ == value@.take(count as int),
    {
        if count < limit {
            out.push(c);
            count += 1;
        }
    }
    assert(value@.take(value@.len() as int) == value@);
    out
}

/// Whether a text holds more than `limit` characters.
pub fn longer_than(value: &str, limit: usize) -> (r: bool)
    requires
        limit < usize::MAX,
    ensures
        r == (value@.len() > limit),
{
    let mut count: usize = 0;
    for c in it: value.chars()
        invariant
            it.seq() == value@,
            limit < usize::MAX,
            count == if it.index() <= limit { it.index() } else { limit + 1 },
    {
        if count <= limit {
            count += 1;
        }
    }
    count > limit
}

/// The maximal runs of characters of one class, in order.
pub fn split_runs(text: &str, class: Class) -> (r: Vec<String>)
    ensures
        texts(r@) == runs(text@, class),
{
    let mut closed: Vec<String> = Vec::new();
    let mut open = String::new();
    for c in it: text.chars()
        invariant
            it.seq() == text@,
            scanned(text@.take(it.index()), class) == (texts(closed@), open@),
    {
        let ghost before = text@.take(it.index());
        let ghost after = text@.take(it.index() + 1);
        assert(after.drop_last() == before);
        assert(after.last() == c);
        if of_class(class, c) {
            open.push(c);
        } else if !open.as_str().is_empty() {
            let ghost words = closed@;
            let ghost word = open;
            closed.push(open);
            assert(texts(closed@) == texts(words).push(word@));
            open = String::new();
        }
    }
    assert(text@.take(text@.len() as int) == text@);
    if !open.as_str().is_empty() {
        let ghost words = closed@;
        let ghost word = open;
        closed.push(open);
        assert(texts(closed@) == texts(words).push(word@));
    }
    closed
}

/// The parts in order, with the separator between each two.
pub fn join(parts: &Vec<String>, separator: &str) -> (r: String)
    ensures
        r@ == joined(texts(parts@), separator@),
{
    let mut out = String::new();
    let mut i: usize = 0;
    while i < parts.len()
        invariant
            i <= parts@.len(),
            out@ == joined(texts(parts@).take(i as int), separator@),
        decreases parts@.len() - i,
    {
        let ghost all = texts(parts@);
        assert(all.take(i + 1).drop_last() == all.take(i as int));
        assert(all.take(i + 1).last() == parts@[i as int]@);
        if i > 0 {
            out.append(separator);
        }
        out.append(parts[i].as_str());
        i += 1;
    }
    assert(texts(parts@).take(i as int) == texts(parts@));
    out
}

/// The parts without those that repeat the part before them.
pub fn dedup(parts: Vec<String>) -> (r: Vec<String>)
    ensures
        texts(r@) == deduped(texts(parts@)),
{
    let mut kept: Vec<String> = Vec::new();
    let mut i: usize = 0;
    while i < parts.len()
        invariant
            i <= parts@.len(),
            texts(kept@) == deduped(texts(parts@).take(i as int)),
        decreases parts@.len() - i,
    {
        let ghost all = texts(parts@);
        assert(all.take(i + 1).drop_last() == all.take(i as int));
        assert(all.take(i + 1).last() == parts@[i as int]@);
        let repeats = kept.len() > 0 && kept[kept.len() - 1] == parts[i];
        if !repeats {
            let ghost words = kept@;
            kept.push(parts[i].clone());
            assert(texts(kept@) == texts(words).push(parts@[i as int]@));
        }
        i += 1;
    }
    assert(texts(parts@).take(i as int) == texts(parts@));
    kept
}

/// The text with every occurrence of one character replaced.
pub fn replace(text: &str, from: char, to: &str) -> (r: String)
    ensures
        r@ == replaced(text@, from, to@),
{
    let mut out = String::new();
    for c in it: text.chars()
        invariant
            it.seq() == text@,
            out@ == replaced(text@.take(it.index()), from, to@),
    {
        let ghost after = text@.take(it.index() + 1);
        assert(after.drop_last() == text@.take(it.index()));
        assert(after.last() == c);
        if c == from {
            out.append(to);
        } else {
            out.push(c);
        }
    }
    assert(text@.take(text@.len() as int) == text@);
    out
}

fn digit(value: u64) -> (r: char)
    requires
        value < 10,
    ensures
        r == digit_char(value as nat),
{
    let code: u8 = 48 + value as u8;
    code as char
}

/// The decimal digits of a number.
pub fn number(value: u64) -> (r: String)
    ensures
        r@ == decimal(value as nat),
    decreases value,
{
    if value < 10 {
        let mut out = String::new();
        out.push(digit(value));
        assert(out@ == seq![digit_char(value as nat)]);
        out
    } else {
        let mut out = number(value / 10);
        out.push(digit(value % 10));
        out
    }
}

/// The decimal form of a signed number.
pub fn signed_number(value: i64) -> (r: String)
    ensures
        r@ == signed_decimal(value as int),
{
    if value < 0 {
        let magnitude: u64 = (-(value as i128)) as u64;
        let mut out = String::new();
        out.push('-');
        out.append(number(magnitude).as_str());
        out
    } else {
        number(value as u64)
    }
}

/// Whether two texts are the same but for ASCII case.
pub fn same_ignoring_case(left: &str, right: &str) -> (r: bool)
    ensures
        r == (lowered(left@) == lowered(right@)),
{
    let left_chars = characters(left);
    let right_chars = characters(right);
    if left_chars.len() != right_chars.len() {
        assert(lowered(left@).len() != lowered(right@).len());
        return false;
    }
    let mut i: usize = 0;
    while i < left_chars.len()
        invariant
            i <= left_chars@.len() == right_chars@.len(),
            left_chars@ == left@,
            right_chars@ == right@,
            forall|j: int| 0 <= j < i ==> lower(left@[j]) == lower(right@[j]),
        decreases left_chars@.len() - i,
    {
        if to_lower(left_chars[i]) != to_lower(right_chars[i]) {
            assert(lowered(left@)[i as int] != lowered(right@)[i as int]);
            return false;
        }
        i += 1;
    }
    assert(lowered(left@) =~= lowered(right@));
    true
}

/// Whether `text` begins with `prefix`.
pub fn begins_with(text: &str, prefix: &str) -> (r: bool)
    ensures
        r == prefix@.is_prefix_of(text@),
{
    strip_prefix(text, prefix).is_some()
}

/// What follows `prefix` in `text`, where `text` begins with it.
pub fn strip_prefix(text: &str, prefix: &str) -> (r: Option<String>)
    ensures
        r is Some <==> prefix@.is_prefix_of(text@),
        r matches Some(rest) ==> rest@ == text@.skip(prefix@.len() as int),
{
    let chars = characters(text);
    let wanted = characters(prefix);
    if wanted.len() > chars.len() {
        return None;
    }
    let mut i: usize = 0;
    while i < wanted.len()
        invariant
            i <= wanted@.len() <= chars@.len(),
            wanted@ == prefix@,
            chars@ == text@,
            forall|j: int| 0 <= j < i ==> wanted@[j] == chars@[j],
        decreases wanted@.len() - i,
    {
        if wanted[i] != chars[i] {
            return None;
        }
        i += 1;
    }
    let count: usize = chars.len();
    assert(prefix@ =~= text@.take(prefix@.len() as int));
    Some(assembled(&chars, i, count))
}

/// What stands before the first occurrence of a character, or the whole text where there is none.
pub open spec fn until(text: Seq<char>, at: char) -> Seq<char>
    decreases text.len(),
{
    if text.len() == 0 || text[0] == at {
        Seq::empty()
    } else {
        seq![text[0]] + until(text.drop_first(), at)
    }
}

/// What stands after the first occurrence of a character.
pub open spec fn after(text: Seq<char>, at: char) -> Seq<char> {
    text.skip(until(text, at).len() as int + 1)
}

pub proof fn lemma_until(text: Seq<char>, at: char, index: int)
    requires
        0 <= index < text.len(),
        text[index] == at,
        forall|i: int| 0 <= i < index ==> text[i] != at,
    ensures
        until(text, at) == text.take(index),
    decreases text.len(),
{
    if index > 0 {
        lemma_until(text.drop_first(), at, index - 1);
        assert(seq![text[0]] + text.drop_first().take(index - 1) =~= text.take(index));
    } else {
        assert(text.take(0) =~= Seq::<char>::empty());
    }
}

/// What stands before and after the first occurrence of a character.
pub fn split_once(text: &str, at: char) -> (r: Option<(String, String)>)
    ensures
        r is Some <==> text@.contains(at),
        r matches Some(parts) ==> parts.0@ == until(text@, at) && parts.1@ == after(text@, at),
{
    let chars = characters(text);
    let count: usize = chars.len();
    let mut i: usize = 0;
    while i < count
        invariant
            i <= count == chars@.len(),
            chars@ == text@,
            forall|j: int| 0 <= j < i ==> chars@[j] != at,
        decreases count - i,
    {
        if chars[i] == at {
            proof {
                lemma_until(text@, at, i as int);
            }
            return Some((assembled(&chars, 0, i), assembled(&chars, i + 1, count)));
        }
        i += 1;
    }
    None
}

/// Whether the first text comes before the second by code points.
pub open spec fn text_less(left: Seq<char>, right: Seq<char>) -> bool
    decreases left.len(),
{
    if right.len() == 0 {
        false
    } else if left.len() == 0 {
        true
    } else if left[0] != right[0] {
        left[0] < right[0]
    } else {
        text_less(left.drop_first(), right.drop_first())
    }
}

proof fn lemma_text_irreflexive(a: Seq<char>)
    ensures
        !text_less(a, a),
    decreases a.len(),
{
    if a.len() > 0 {
        lemma_text_irreflexive(a.drop_first());
    }
}

/// The order of texts is strict, total and transitive.
pub proof fn lemma_text_order(a: Seq<char>, b: Seq<char>, c: Seq<char>)
    ensures
        text_less(a, b) ==> !text_less(b, a),
        !text_less(a, b) && !text_less(b, a) ==> a == b,
        !text_less(a, a),
        text_less(a, b) && text_less(b, c) ==> text_less(a, c),
    decreases a.len() + b.len() + c.len(),
{
    if a.len() > 0 && b.len() > 0 && c.len() > 0 {
        lemma_text_order(a.drop_first(), b.drop_first(), c.drop_first());
    } else if a.len() > 0 && b.len() > 0 {
        lemma_text_order(a.drop_first(), b.drop_first(), c);
    }
    lemma_text_irreflexive(a);
    if !text_less(a, b) && !text_less(b, a) {
        if a.len() > 0 && b.len() > 0 {
            assert(a =~= seq![a[0]] + a.drop_first());
            assert(b =~= seq![b[0]] + b.drop_first());
        } else {
            assert(a =~= b);
        }
    }
}

/// Whether the first text comes before the second by code points.
pub fn comes_before(left: &str, right: &str) -> (r: bool)
    ensures
        r == text_less(left@, right@),
{
    let left_chars = characters(left);
    let right_chars = characters(right);
    let mut i: usize = 0;
    assert(left@.skip(0) == left@);
    assert(right@.skip(0) == right@);
    while i < left_chars.len() && i < right_chars.len()
        invariant
            i <= left_chars@.len(),
            i <= right_chars@.len(),
            left_chars@ == left@,
            right_chars@ == right@,
            text_less(left@.skip(i as int), right@.skip(i as int)) == text_less(left@, right@),
        decreases left_chars@.len() - i,
    {
        let ghost rest_left = left@.skip(i as int);
        let ghost rest_right = right@.skip(i as int);
        assert(rest_left[0] == left@[i as int] && rest_right[0] == right@[i as int]);
        if left_chars[i] != right_chars[i] {
            return left_chars[i] < right_chars[i];
        }
        i += 1;
        assert(rest_left.drop_first() == left@.skip(i as int));
        assert(rest_right.drop_first() == right@.skip(i as int));
    }
    i < right_chars.len()
}

/// Whether a text holds a given character.
pub fn holds(text: &str, wanted: char) -> (r: bool)
    ensures
        r == text@.contains(wanted),
{
    let chars = characters(text);
    let mut i: usize = 0;
    while i < chars.len()
        invariant
            i <= chars@.len(),
            chars@ == text@,
            forall|j: int| 0 <= j < i ==> chars@[j] != wanted,
        decreases chars@.len() - i,
    {
        if chars[i] == wanted {
            return true;
        }
        i += 1;
    }
    false
}

/// The text without any of the given character at its end.
pub open spec fn without_trailing(text: Seq<char>, unwanted: char) -> Seq<char>
    decreases text.len(),
{
    if text.len() > 0 && text.last() == unwanted {
        without_trailing(text.drop_last(), unwanted)
    } else {
        text
    }
}

/// The text without any of the given character at its end.
pub fn trim_trailing(text: &str, unwanted: char) -> (r: String)
    ensures
        r@ == without_trailing(text@, unwanted),
{
    let chars = characters(text);
    let mut to: usize = chars.len();
    assert(chars@.take(to as int) == text@);
    while to > 0 && chars[to - 1] == unwanted
        invariant
            to <= chars@.len(),
            chars@ == text@,
            without_trailing(chars@.take(to as int), unwanted) == without_trailing(text@, unwanted),
        decreases to,
    {
        assert(chars@.take(to as int).drop_last() == chars@.take(to - 1));
        to -= 1;
    }
    assert(chars@.take(to as int) == chars@.subrange(0, to as int));
    assembled(&chars, 0, to)
}

/// Whether `names` holds `wanted`.
pub fn listed(names: &Vec<String>, wanted: &str) -> (r: bool)
    ensures
        r == texts(names@).contains(wanted@),
{
    let mut i: usize = 0;
    while i < names.len()
        invariant
            i <= names@.len(),
            forall|j: int| 0 <= j < i ==> names@[j]@ != wanted@,
        decreases names@.len() - i,
    {
        if same(names[i].as_str(), wanted) {
            assert(texts(names@)[i as int] == wanted@);
            return true;
        }
        i += 1;
    }
    false
}

/// Two texts, one after the other.
pub fn glue2(first: &str, second: &str) -> (r: String)
    ensures
        r@ == first@ + second@,
{
    let mut out = first.to_owned();
    out.append(second);
    out
}

/// Three texts, one after the other.
pub fn glue3(first: &str, second: &str, third: &str) -> (r: String)
    ensures
        r@ == first@ + second@ + third@,
{
    let mut out = glue2(first, second);
    out.append(third);
    out
}

/// Four texts, one after the other.
pub fn glue4(first: &str, second: &str, third: &str, fourth: &str) -> (r: String)
    ensures
        r@ == first@ + second@ + third@ + fourth@,
{
    let mut out = glue3(first, second, third);
    out.append(fourth);
    out
}

/// Five texts, one after the other.
pub fn glue5(first: &str, second: &str, third: &str, fourth: &str, fifth: &str) -> (r: String)
    ensures
        r@ == first@ + second@ + third@ + fourth@ + fifth@,
{
    let mut out = glue4(first, second, third, fourth);
    out.append(fifth);
    out
}

/// Dropping repetitions keeps the last part, and adds none.
pub proof fn lemma_deduped(parts: Seq<Seq<char>>)
    ensures
        forall|i: int|
            0 <= i < deduped(parts).len() ==> parts.contains(#[trigger] deduped(parts)[i]),
        parts.len() > 0 ==> deduped(parts).len() > 0 && deduped(parts).last() == parts.last(),
        forall|i: int|
            0 <= i < deduped(parts).len() - 1 ==> #[trigger] deduped(parts)[i] != deduped(parts)[i
                + 1],
    decreases parts.len(),
{
    if parts.len() > 0 {
        let before = parts.drop_last();
        lemma_deduped(before);
        assert forall|i: int| 0 <= i < deduped(parts).len() implies parts.contains(
            #[trigger] deduped(parts)[i],
        ) by {
            if i < deduped(before).len() {
                assert(deduped(parts)[i] == deduped(before)[i]);
                let j = before.index_of(deduped(before)[i]);
                assert(before.contains(deduped(before)[i]));
                assert(parts[j] == before[j]);
            } else {
                assert(parts[parts.len() - 1] == deduped(parts)[i]);
            }
        }
    }
}

/// A run: at least one character, and only characters of its class.
pub open spec fn is_run(word: Seq<char>, class: Class) -> bool {
    word.len() > 0 && forall|j: int| 0 <= j < word.len() ==> belongs(class, #[trigger] word[j])
}

proof fn lemma_scanned(text: Seq<char>, class: Class)
    ensures
        forall|i: int|
            0 <= i < scanned(text, class).0.len() ==> is_run(
                #[trigger] scanned(text, class).0[i],
                class,
            ),
        scanned(text, class).1.len() > 0 ==> is_run(scanned(text, class).1, class),
    decreases text.len(),
{
    if text.len() > 0 {
        lemma_scanned(text.drop_last(), class);
        let (closed, open) = scanned(text.drop_last(), class);
        assert forall|i: int| 0 <= i < scanned(text, class).0.len() implies is_run(
            #[trigger] scanned(text, class).0[i],
            class,
        ) by {
            if i < closed.len() {
                assert(scanned(text, class).0[i] == closed[i]);
            }
        }
    }
}

/// Texts without a character, joined by one without it, are without it.
pub proof fn lemma_joined_without(parts: Seq<Seq<char>>, separator: Seq<char>, c: char)
    requires
        !separator.contains(c),
        forall|i: int| 0 <= i < parts.len() ==> !(#[trigger] parts[i]).contains(c),
    ensures
        !joined(parts, separator).contains(c),
    decreases parts.len(),
{
    if parts.len() > 1 {
        let before = parts.drop_last();
        assert(forall|i: int| 0 <= i < before.len() ==> before[i] == parts[i]);
        lemma_joined_without(before, separator, c);
        let left = joined(before, separator);
        let whole = joined(parts, separator);
        assert(!parts[parts.len() - 1].contains(c));
        assert forall|i: int| 0 <= i < whole.len() implies whole[i] != c by {
            if i < left.len() {
                assert(whole[i] == left[i]);
            } else if i < left.len() + separator.len() {
                assert(whole[i] == separator[i - left.len()]);
            } else {
                assert(whole[i] == parts.last()[i - left.len() - separator.len()]);
            }
        }
    } else if parts.len() == 1 {
        assert(!parts[0].contains(c));
    }
}

proof fn lemma_scanned_fits(text: Seq<char>, class: Class, separator: Seq<char>)
    requires
        separator.len() == 1,
    ensures
        ({
            let (closed, open) = scanned(text, class);
            let taken = if closed.len() > 0 {
                joined(closed, separator).len() + 1
            } else {
                0
            };
            taken + open.len() <= text.len()
        }),
    decreases text.len(),
{
    if text.len() > 0 {
        lemma_scanned_fits(text.drop_last(), class, separator);
        let (closed, open) = scanned(text.drop_last(), class);
        assert(closed.push(open).drop_last() =~= closed);
    }
}

/// The runs of a text, joined by single characters, are no longer than the text.
pub proof fn lemma_runs_fit(text: Seq<char>, class: Class, separator: Seq<char>)
    requires
        separator.len() == 1,
    ensures
        joined(runs(text, class), separator).len() <= text.len(),
{
    lemma_scanned_fits(text, class, separator);
    let (closed, open) = scanned(text, class);
    assert(closed.push(open).drop_last() =~= closed);
}

/// The runs of a text are runs.
pub proof fn lemma_runs(text: Seq<char>, class: Class)
    ensures
        forall|i: int|
            0 <= i < runs(text, class).len() ==> is_run(#[trigger] runs(text, class)[i], class),
{
    lemma_scanned(text, class);
}

/// The characters with the Unicode `White_Space` property, by code point.
pub proof fn law_white_space(c: char)
    ensures
        is_white(c) <==> {
            let code = c as u32;
            ||| 9 <= code <= 13
            ||| code == 32
            ||| code == 133
            ||| code == 160
            ||| code == 5760
            ||| 8192 <= code <= 8202
            ||| code == 8232
            ||| code == 8233
            ||| code == 8239
            ||| code == 8287
            ||| code == 12288
        },
{
}

/// A trimmed text is what stands between the first and the last visible character of the text, both
/// counted; there is white space on either side of it and none at its ends.
pub proof fn law_trimmed_text(text: Seq<char>)
    ensures
        exists|from: int, to: int|
            0 <= from <= to <= text.len() && trimmed(text) == #[trigger] text.subrange(from, to)
                && (forall|i: int| 0 <= i < from || to <= i < text.len() ==> is_white(#[trigger] text[i]))
                && (from < to ==> !is_white(text[from]) && !is_white(text[to - 1])),
        is_blank(text) <==> forall|i: int| 0 <= i < text.len() ==> is_white(#[trigger] text[i]),
        text.len() > 0 && !is_white(text[0]) && !is_white(text.last()) ==> trimmed(text) == text,
{
    let from = lemma_first_visible(text);
    lemma_trim_start(text, from);
    let rest = text.skip(from);
    let to = from + lemma_last_visible(rest);
    lemma_trim_end(rest, to - from);
    assert(rest.take(to - from) =~= text.subrange(from, to));
    assert forall|i: int| 0 <= i < from || to <= i < text.len() implies is_white(#[trigger] text[i]) by {
        if to <= i {
            assert(rest[i - from] == text[i]);
        }
    }
    if from < to {
        assert(rest[0] == text[from]);
        assert(rest[to - from - 1] == text[to - 1]);
    }
    if text.len() > 0 && !is_white(text[0]) && !is_white(text.last()) {
        assert(from == 0);
        assert(text[text.len() - 1] == text.last());
        assert(to == text.len());
        assert(text.subrange(0, text.len() as int) =~= text);
    }
    if from == to {
        assert forall|i: int| 0 <= i < text.len() implies is_white(#[trigger] text[i]) by {}
    } else {
        assert(!is_white(text[from]));
    }
}

proof fn lemma_first_visible(text: Seq<char>) -> (from: int)
    ensures
        0 <= from <= text.len(),
        forall|i: int| 0 <= i < from ==> is_white(#[trigger] text[i]),
        from < text.len() ==> !is_white(text[from]),
    decreases text.len(),
{
    if text.len() > 0 && is_white(text[0]) {
        let rest = text.drop_first();
        let from = lemma_first_visible(rest);
        assert forall|i: int| 0 <= i < from + 1 implies is_white(#[trigger] text[i]) by {
            if i > 0 {
                assert(rest[i - 1] == text[i]);
            }
        }
        from + 1
    } else {
        0
    }
}

proof fn lemma_last_visible(text: Seq<char>) -> (to: int)
    ensures
        0 <= to <= text.len(),
        forall|i: int| to <= i < text.len() ==> is_white(#[trigger] text[i]),
        to > 0 ==> !is_white(text[to - 1]),
    decreases text.len(),
{
    if text.len() > 0 && is_white(text.last()) {
        let rest = text.drop_last();
        let to = lemma_last_visible(rest);
        assert forall|i: int| to <= i < text.len() implies is_white(#[trigger] text[i]) by {
            if i < rest.len() {
                assert(rest[i] == text[i]);
            }
        }
        to
    } else {
        text.len() as int
    }
}

/// A text that is cut at a limit is its own beginning: all of it, or as many characters as the limit
/// says.
pub proof fn law_clipped_text(text: Seq<char>, limit: nat)
    ensures
        clipped(text, limit).len() == if text.len() < limit {
            text.len()
        } else {
            limit
        },
        forall|i: int| 0 <= i < clipped(text, limit).len() ==> #[trigger] clipped(text, limit)[i] == text[i],
{
}

proof fn lemma_scanned_apart(left: Seq<char>, between: char, right: Seq<char>, class: Class)
    requires
        !belongs(class, between),
    ensures
        scanned(left.push(between) + right, class).0 == runs(left, class) + scanned(right, class).0,
        scanned(left.push(between) + right, class).1 == scanned(right, class).1,
    decreases right.len(),
{
    let whole = left.push(between) + right;
    if right.len() == 0 {
        assert(whole.drop_last() =~= left);
        assert(whole.last() == between);
        assert(scanned(whole, class).0 =~= runs(left, class) + scanned(right, class).0);
    } else {
        let fewer = right.drop_last();
        lemma_scanned_apart(left, between, fewer, class);
        assert(whole.drop_last() =~= left.push(between) + fewer);
        assert(whole.last() == right.last());
        assert(scanned(whole, class).0 =~= runs(left, class) + scanned(right, class).0);
    }
}

proof fn lemma_scanned_run(word: Seq<char>, class: Class)
    requires
        forall|i: int| 0 <= i < word.len() ==> belongs(class, #[trigger] word[i]),
    ensures
        scanned(word, class).0.len() == 0,
        scanned(word, class).1 == word,
    decreases word.len(),
{
    if word.len() > 0 {
        let before = word.drop_last();
        assert(forall|i: int| 0 <= i < before.len() ==> before[i] == word[i]);
        lemma_scanned_run(before, class);
        assert(belongs(class, word[word.len() - 1]));
        assert(before.push(word.last()) =~= word);
    } else {
        assert(scanned(word, class).1 =~= word);
    }
}

/// The words of a text: a text of one class throughout is one word, an empty text holds none, and a
/// character of another class stands between the words before it and those behind it.
pub proof fn law_words(left: Seq<char>, between: char, right: Seq<char>, class: Class)
    ensures
        runs(Seq::empty(), class).len() == 0,
        left.len() > 0 && (forall|i: int| 0 <= i < left.len() ==> belongs(class, #[trigger] left[i]))
            ==> runs(left, class) == seq![left],
        !belongs(class, between) ==> runs(left.push(between) + right, class) == runs(left, class)
            + runs(right, class),
{
    if left.len() > 0 && (forall|i: int| 0 <= i < left.len() ==> belongs(class, #[trigger] left[i])) {
        lemma_scanned_run(left, class);
        assert(scanned(left, class).0.push(left) =~= seq![left]);
    }
    if !belongs(class, between) {
        lemma_scanned_apart(left, between, right, class);
        assert(runs(left.push(between) + right, class) =~= runs(left, class) + runs(right, class));
    }
}

/// Which characters make up a word: all but white space, or the ASCII letters and digits.
pub proof fn law_classes(c: char)
    ensures
        belongs(Class::Visible, c) <==> !is_white(c),
        belongs(Class::Alphanumeric, c) <==> ('0' <= c <= '9' || 'A' <= c <= 'Z' || 'a' <= c <= 'z'),
{
}

/// Joined parts: nothing for none, a part for itself, and two rows of parts with the separator
/// between them.
pub proof fn law_joined_parts(left: Seq<Seq<char>>, right: Seq<Seq<char>>, separator: Seq<char>)
    ensures
        joined(Seq::empty(), separator).len() == 0,
        left.len() == 1 ==> joined(left, separator) == left[0],
        left.len() > 0 && right.len() > 0 ==> joined(left + right, separator) == joined(left, separator)
            + separator + joined(right, separator),
    decreases right.len(),
{
    if left.len() > 0 && right.len() > 0 {
        let whole = left + right;
        let fewer = right.drop_last();
        assert(whole.drop_last() =~= left + fewer);
        assert(whole.last() == right.last());
        if right.len() > 1 {
            law_joined_parts(left, fewer, separator);
            assert(joined(whole, separator) =~= joined(left, separator) + separator + joined(
                right,
                separator,
            ));
        } else {
            assert(left + fewer =~= left);
        }
    }
}

/// Parts of which no two neighbours are alike stay as they are when repetitions are dropped, and no
/// part is ever lost altogether.
pub proof fn law_repetitions_are_dropped(parts: Seq<Seq<char>>)
    ensures
        (forall|i: int| 0 < i < parts.len() ==> parts[i - 1] != #[trigger] parts[i]) ==> deduped(parts)
            == parts,
        forall|i: int| 0 <= i < parts.len() ==> deduped(parts).contains(#[trigger] parts[i]),
    decreases parts.len(),
{
    if parts.len() > 0 {
        let before = parts.drop_last();
        law_repetitions_are_dropped(before);
        if forall|i: int| 0 < i < parts.len() ==> parts[i - 1] != #[trigger] parts[i] {
            assert forall|i: int| 0 < i < before.len() implies before[i - 1] != #[trigger] before[i] by {
                assert(parts[i] == before[i]);
            }
            if before.len() > 0 {
                assert(parts[parts.len() - 1] != before.last());
            }
            assert(before.push(parts.last()) =~= parts);
        }
        let kept = deduped(before);
        let all = deduped(parts);
        assert forall|i: int| 0 <= i < parts.len() implies all.contains(#[trigger] parts[i]) by {
            if i < before.len() {
                assert(before[i] == parts[i]);
                assert(kept.contains(before[i]));
                let k = choose|k: int| 0 <= k < kept.len() && kept[k] == parts[i];
                assert(all[k] == parts[i]);
            } else {
                assert(all[all.len() - 1] == parts.last());
            }
        }
    } else {
        assert(deduped(parts) =~= parts);
    }
}

/// Replacing goes character by character.
pub proof fn law_replaced_text(left: Seq<char>, right: Seq<char>, from: char, to: Seq<char>)
    ensures
        replaced(left + right, from, to) == replaced(left, from, to) + replaced(right, from, to),
        left.len() == 1 ==> replaced(left, from, to) == if left[0] == from {
            to
        } else {
            left
        },
    decreases right.len(),
{
    if left.len() == 1 {
        assert(left.drop_last() =~= Seq::<char>::empty());
        assert(replaced(left.drop_last(), from, to) =~= Seq::<char>::empty());
        assert(Seq::<char>::empty() + to =~= to);
        assert(Seq::<char>::empty().push(left.last()) =~= left);
    }
    if right.len() == 0 {
        assert(left + right =~= left);
        assert(replaced(left, from, to) + replaced(right, from, to) =~= replaced(left, from, to));
    } else {
        let fewer = right.drop_last();
        law_replaced_text(left, fewer, from, to);
        assert((left + right).drop_last() =~= left + fewer);
        assert((left + right).last() == right.last());
        assert(replaced(left + right, from, to) =~= replaced(left, from, to) + replaced(
            right,
            from,
            to,
        ));
    }
}

/// The number that decimal digits stand for.
pub open spec fn digits_value(digits: Seq<char>) -> int
    decreases digits.len(),
{
    if digits.len() == 0 {
        0
    } else {
        digits_value(digits.drop_last()) * 10 + (digits.last() as u32 - '0' as u32)
    }
}

/// Decimal digits read back as the number, and they begin with a zero only where they are one.
pub proof fn law_decimal_reads_back(value: nat)
    ensures
        digits_value(decimal(value)) == value,
        decimal(value).len() > 0,
        forall|i: int| 0 <= i < decimal(value).len() ==> '0' <= #[trigger] decimal(value)[i] <= '9',
        decimal(value)[0] == '0' ==> value == 0 && decimal(value).len() == 1,
    decreases value,
{
    if value < 10 {
        assert(seq![digit_char(value)].drop_last() =~= Seq::<char>::empty());
        reveal_with_fuel(digits_value, 2);
    } else {
        law_decimal_reads_back(value / 10);
        let before = decimal(value / 10);
        assert(decimal(value).drop_last() =~= before);
        assert(decimal(value)[0] == before[0]);
        assert(value == (value / 10) * 10 + value % 10);
    }
}

/// A negative number is a minus sign and its magnitude.
pub proof fn law_signed_decimal_reads_back(value: int)
    ensures
        value >= 0 ==> digits_value(signed_decimal(value)) == value,
        value < 0 ==> signed_decimal(value)[0] == '-' && digits_value(signed_decimal(value).skip(1))
            == -value,
{
    if value < 0 {
        law_decimal_reads_back((-value) as nat);
        assert(signed_decimal(value).skip(1) =~= decimal((-value) as nat));
    } else {
        law_decimal_reads_back(value as nat);
    }
}

/// A text is what stands before the first occurrence of a character, the character, and the rest.
pub proof fn law_split_text(left: Seq<char>, at: char, right: Seq<char>)
    requires
        !left.contains(at),
    ensures
        until(left.push(at) + right, at) == left,
        after(left.push(at) + right, at) == right,
{
    let whole = left.push(at) + right;
    let index = left.len() as int;
    assert(whole[index] == at);
    assert forall|i: int| 0 <= i < index implies whole[i] != at by {
        assert(whole[i] == left[i]);
        assert(left.contains(left[i]));
    }
    lemma_until(whole, at, index);
    assert(whole.take(index) =~= left);
    assert(whole.skip(index + 1) =~= right);
}

/// Texts are compared from the front: what they begin with in common does not matter, the first
/// difference decides by code point, and the shorter of two that do not differ comes first.
pub proof fn law_text_comparison(common: Seq<char>, left: Seq<char>, right: Seq<char>)
    ensures
        text_less(common + left, common + right) == text_less(left, right),
        left.len() == 0 ==> (text_less(left, right) <==> right.len() > 0),
        right.len() == 0 ==> !text_less(left, right),
        left.len() > 0 && right.len() > 0 && left[0] != right[0] ==> (text_less(left, right) <==> left[0]
            < right[0]),
    decreases common.len(),
{
    if common.len() > 0 {
        let rest = common.drop_first();
        law_text_comparison(rest, left, right);
        assert((common + left).drop_first() =~= rest + left);
        assert((common + right).drop_first() =~= rest + right);
        assert((common + left)[0] == common[0] && (common + right)[0] == common[0]);
    } else {
        assert(common + left =~= left);
        assert(common + right =~= right);
    }
}

/// What is taken from the end of a text is one character over and over, and none of it is left there.
pub proof fn law_trailing_text(text: Seq<char>, unwanted: char)
    ensures
        ({
            let kept = without_trailing(text, unwanted);
            &&& kept.len() <= text.len()
            &&& kept == text.take(kept.len() as int)
            &&& kept.len() > 0 ==> kept.last() != unwanted
            &&& forall|i: int| kept.len() <= i < text.len() ==> #[trigger] text[i] == unwanted
        }),
    decreases text.len(),
{
    if text.len() > 0 && text.last() == unwanted {
        let before = text.drop_last();
        law_trailing_text(before, unwanted);
        let kept = without_trailing(text, unwanted);
        assert(kept =~= text.take(kept.len() as int));
        assert forall|i: int| kept.len() <= i < text.len() implies #[trigger] text[i] == unwanted by {
            if i < before.len() {
                assert(before[i] == text[i]);
            }
        }
    } else {
        assert(text.take(text.len() as int) =~= text);
    }
}

/// Lower case changes the ASCII capitals, each into its small letter, and nothing else.
pub proof fn law_lower_case(text: Seq<char>)
    ensures
        lowered(text).len() == text.len(),
        forall|i: int|
            0 <= i < text.len() ==> if 'A' <= #[trigger] text[i] <= 'Z' {
                lowered(text)[i] as u32 == text[i] as u32 + 32
            } else {
                lowered(text)[i] == text[i]
            },
{
}

} // verus!
