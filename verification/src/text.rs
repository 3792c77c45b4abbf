//! Text building blocks: decimal and hexadecimal numerals, joins, URL trimming, and search.

use vstd::prelude::*;

verus! {

/// The texts held by a list of strings.
pub open spec fn texts(items: Seq<String>) -> Seq<Seq<char>> {
    Seq::new(items.len(), |i: int| items[i]@)
}

/// `String::push` appends one character to the end of the string.
pub assume_specification[ String::push ](string: &mut String, ch: char)
    ensures
        final(string)@ == old(string)@.push(ch),
;

/// The numeral for a value below sixteen.
pub open spec fn digit(value: nat) -> char
    recommends
        value < 16,
{
    if value < 10 {
        (48 + value) as char
    } else {
        (87 + value) as char
    }
}

/// The decimal rendering of a number, without leading zeros.
pub open spec fn decimal(value: nat) -> Seq<char>
    decreases value,
{
    if value < 10 {
        seq![digit(value)]
    } else {
        decimal(value / 10).push(digit(value % 10))
    }
}

/// The lowercase hexadecimal rendering of a number, without leading zeros.
pub open spec fn hexadecimal(value: nat) -> Seq<char>
    decreases value,
{
    if value < 16 {
        seq![digit(value)]
    } else {
        hexadecimal(value / 16).push(digit(value % 16))
    }
}

/// The value of one numeral, in any base up to sixteen.
pub open spec fn numeral(ch: char) -> int {
    if '0' <= ch <= '9' {
        ch as u32 - '0' as u32
    } else {
        ch as u32 - 'a' as u32 + 10
    }
}

/// The number that a row of numerals stands for in `base`, the most significant numeral first.
pub open spec fn denoted(text: Seq<char>, base: int) -> int
    decreases text.len(),
{
    if text.len() == 0 {
        0
    } else {
        denoted(text.drop_last(), base) * base + numeral(text.last())
    }
}

/// A decimal rendering stands for the number it renders, uses the ten digits, and has no leading
/// zero but that of zero itself.
pub proof fn decimal_denotes_value(value: nat)
    ensures
        denoted(decimal(value), 10) == value,
        decimal(value).len() > 0,
        forall|i: int| 0 <= i < decimal(value).len() ==> '0' <= #[trigger] decimal(value)[i] <= '9',
        value > 0 ==> decimal(value)[0] != '0',
    decreases value,
{
    if value < 10 {
        let text = seq![digit(value)];
        assert(text.drop_last() =~= Seq::<char>::empty());
        assert(text.last() == digit(value));
        assert(denoted(text.drop_last(), 10) == 0);
    } else {
        decimal_denotes_value(value / 10);
        let text = decimal(value);
        assert(text.drop_last() =~= decimal(value / 10));
        assert(text.last() == digit(value % 10));
    }
}

/// Different numbers have different decimal renderings.
pub proof fn decimal_is_injective(left: nat, right: nat)
    requires
        decimal(left) == decimal(right),
    ensures
        left == right,
{
    decimal_denotes_value(left);
    decimal_denotes_value(right);
}

/// A hexadecimal rendering stands for the number it renders, without a leading zero but that of
/// zero itself.
pub proof fn hexadecimal_denotes_value(value: nat)
    ensures
        denoted(hexadecimal(value), 16) == value,
        hexadecimal(value).len() > 0,
        forall|i: int|
            0 <= i < hexadecimal(value).len() ==> {
                ||| '0' <= #[trigger] hexadecimal(value)[i] <= '9'
                ||| 'a' <= hexadecimal(value)[i] <= 'f'
            },
        value > 0 ==> hexadecimal(value)[0] != '0',
    decreases value,
{
    if value < 16 {
        let text = seq![digit(value)];
        assert(text.drop_last() =~= Seq::<char>::empty());
        assert(text.last() == digit(value));
        assert(denoted(text.drop_last(), 16) == 0);
    } else {
        hexadecimal_denotes_value(value / 16);
        let text = hexadecimal(value);
        assert(text.drop_last() =~= hexadecimal(value / 16));
        assert(text.last() == digit(value % 16));
    }
}

/// Returns the numeral for a value below sixteen.
pub fn digit_char(value: u8) -> (ch: char)
    requires
        value < 16,
    ensures
        ch == digit(value as nat),
{
    if value < 10 {
        (48u8 + value) as char
    } else {
        (87u8 + value) as char
    }
}

/// Appends the decimal rendering of `value`.
pub fn push_decimal(out: &mut String, value: u64)
    ensures
        final(out)@ == old(out)@ + decimal(value as nat),
    decreases value,
{
    if value >= 10 {
        push_decimal(out, value / 10);
    }
    out.push(digit_char((value % 10) as u8));
    proof {
        assert(out@ =~= old(out)@ + decimal(value as nat));
    }
}

/// Appends the lowercase hexadecimal rendering of `value`.
pub fn push_hexadecimal(out: &mut String, value: u128)
    ensures
        final(out)@ == old(out)@ + hexadecimal(value as nat),
    decreases value,
{
    if value >= 16 {
        push_hexadecimal(out, value / 16);
    }
    out.push(digit_char((value % 16) as u8));
    proof {
        assert(out@ =~= old(out)@ + hexadecimal(value as nat));
    }
}

/// Returns the decimal rendering of `value`.
pub fn decimal_text(value: u64) -> (text: String)
    ensures
        text@ == decimal(value as nat),
{
    let mut text = String::new();
    push_decimal(&mut text, value);
    proof {
        assert(text@ =~= decimal(value as nat));
    }
    text
}

/// The parts of a list separated by `separator`.
pub open spec fn joined(parts: Seq<Seq<char>>, separator: Seq<char>) -> Seq<char>
    decreases parts.len(),
{
    if parts.len() == 0 {
        Seq::empty()
    } else if parts.len() == 1 {
        parts[0]
    } else {
        joined(parts.drop_last(), separator) + separator + parts.last()
    }
}

/// Joins the parts of a list with `separator` between neighbours.
pub fn join(parts: &[String], separator: &str) -> (text: String)
    ensures
        text@ == joined(texts(parts@), separator@),
{
    let mut text = String::new();
    let mut i: usize = 0;
    while i < parts.len()
        invariant
            i <= parts.len(),
            text@ == joined(texts(parts@.take(i as int)), separator@),
        decreases parts.len() - i,
    {
        if i > 0 {
            text.append(separator);
        }
        text.append(parts[i].as_str());
        proof {
            let all = texts(parts@.take(i + 1));
            assert(all.drop_last() =~= texts(parts@.take(i as int)));
            assert(all.last() == parts@[i as int]@);
            assert(text@ =~= joined(all, separator@));
        }
        i += 1;
    }
    proof {
        assert(parts@.take(i as int) =~= parts@);
    }
    text
}

/// A text without its trailing run of `/`.
pub open spec fn without_trailing_slashes(text: Seq<char>) -> Seq<char>
    decreases text.len(),
{
    if text.len() > 0 && text.last() == '/' {
        without_trailing_slashes(text.drop_last())
    } else {
        text
    }
}

/// Returns `url` without its trailing run of `/`.
pub fn trim_trailing_slashes(url: &str) -> (trimmed: String)
    ensures
        trimmed@ == without_trailing_slashes(url@),
{
    let mut end: usize = url.unicode_len();
    proof {
        assert(url@.take(end as int) =~= url@);
    }
    while end > 0 && url.get_char(end - 1) == '/'
        invariant
            end <= url@.len(),
            without_trailing_slashes(url@) == without_trailing_slashes(url@.take(end as int)),
        decreases end,
    {
        proof {
            assert(url@.take(end as int).drop_last() =~= url@.take(end - 1));
            assert(url@.take(end as int).last() == url@[end - 1]);
        }
        end = end - 1;
    }
    proof {
        if end > 0 {
            assert(url@.take(end as int).last() == url@[end - 1]);
        }
    }
    let trimmed = url.substring_char(0, end).to_string();
    proof {
        assert(url@.subrange(0, end as int) =~= url@.take(end as int));
    }
    trimmed
}

/// Trimming twice is trimming once, and what is left never ends in `/`.
pub proof fn trimming_is_idempotent(text: Seq<char>)
    ensures
        without_trailing_slashes(without_trailing_slashes(text)) == without_trailing_slashes(text),
        without_trailing_slashes(text).len() > 0 ==> without_trailing_slashes(text).last() != '/',
    decreases text.len(),
{
    if text.len() > 0 && text.last() == '/' {
        trimming_is_idempotent(text.drop_last());
    }
}

/// Whether `needle` occurs in `text` at offset `at`.
pub open spec fn occurs_at(text: Seq<char>, needle: Seq<char>, at: int) -> bool {
    &&& 0 <= at
    &&& at + needle.len() <= text.len()
    &&& text.subrange(at, at + needle.len()) == needle
}

/// Whether `needle` occurs somewhere in `text`.
pub open spec fn contains_text(text: Seq<char>, needle: Seq<char>) -> bool {
    exists|at: int| occurs_at(text, needle, at)
}

/// Whether `text` begins with `prefix`.
pub open spec fn begins_with(text: Seq<char>, prefix: Seq<char>) -> bool {
    occurs_at(text, prefix, 0)
}

/// Returns the characters of `text`.
pub fn chars_of(text: &str) -> (chars: Vec<char>)
    ensures
        chars@ == text@,
{
    let mut chars: Vec<char> = Vec::new();
    for ch in iter: text.chars()
        invariant
            iter.seq() == text@,
            chars@ == text@.take(iter.index() as int),
    {
        proof {
            assert(text@.take(iter.index() + 1) =~= text@.take(iter.index() as int).push(ch));
        }
        chars.push(ch);
    }
    proof {
        assert(text@.take(text@.len() as int) =~= text@);
    }
    chars
}

/// Returns whether `needle` occurs in `text` at offset `at`.
fn matches_at(text: &Vec<char>, needle: &Vec<char>, at: usize) -> (found: bool)
    requires
        at + needle.len() <= text.len(),
    ensures
        found == occurs_at(text@, needle@, at as int),
{
    let mut i: usize = 0;
    while i < needle.len()
        invariant
            i <= needle.len(),
            at + needle.len() <= text.len(),
            forall|j: int| 0 <= j < i ==> text@[at + j] == needle@[j],
        decreases needle.len() - i,
    {
        if text[at + i] != needle[i] {
            proof {
                assert(text@.subrange(at as int, at + needle@.len())[i as int] != needle@[i as int]);
            }
            return false;
        }
        i += 1;
    }
    proof {
        assert(text@.subrange(at as int, at + needle@.len()) =~= needle@);
    }
    true
}

/// Returns whether `needle` occurs in `text`.
pub fn contains(text: &str, needle: &str) -> (found: bool)
    ensures
        found == contains_text(text@, needle@),
{
    let hay = chars_of(text);
    let pin = chars_of(needle);
    if pin.len() > hay.len() {
        return false;
    }
    let mut at: usize = 0;
    while at <= hay.len() - pin.len()
        invariant
            hay@ == text@,
            pin@ == needle@,
            pin.len() <= hay.len(),
            at <= hay.len() - pin.len() + 1,
            forall|k: int| 0 <= k < at ==> !occurs_at(text@, needle@, k),
        decreases hay.len() - at,
    {
        if matches_at(&hay, &pin, at) {
            return true;
        }
        if at == hay.len() - pin.len() {
            return false;
        }
        at += 1;
    }
    false
}

/// Returns whether `text` begins with `prefix`.
pub fn starts_with(text: &str, prefix: &str) -> (found: bool)
    ensures
        found == begins_with(text@, prefix@),
{
    let hay = chars_of(text);
    let pin = chars_of(prefix);
    pin.len() <= hay.len() && matches_at(&hay, &pin, 0)
}

/// Returns the position of the first `ch`.
pub fn find_first(chars: &Vec<char>, ch: char) -> (position: Option<usize>)
    ensures
        match position {
            Some(at) => chars@.index_of_first(ch) == Some(at as int) && at < chars@.len(),
            None => chars@.index_of_first(ch) is None,
        },
{
    proof {
        chars@.index_of_first_ensures(ch);
    }
    let mut i: usize = 0;
    while i < chars.len()
        invariant
            i <= chars.len(),
            forall|j: int| 0 <= j < i ==> chars@[j] != ch,
        decreases chars.len() - i,
    {
        if chars[i] == ch {
            proof {
                chars@.index_of_first_ensures(ch);
            }
            return Some(i);
        }
        i += 1;
    }
    None
}

/// Returns the position of the last `ch`.
pub fn find_last(chars: &Vec<char>, ch: char) -> (position: Option<usize>)
    ensures
        match position {
            Some(at) => chars@.index_of_last(ch) == Some(at as int) && at < chars@.len(),
            None => chars@.index_of_last(ch) is None,
        },
{
    proof {
        chars@.index_of_last_ensures(ch);
    }
    let mut i: usize = chars.len();
    while i > 0
        invariant
            i <= chars.len(),
            forall|j: int| i <= j < chars@.len() ==> chars@[j] != ch,
        decreases i,
    {
        i = i - 1;
        if chars[i] == ch {
            proof {
                chars@.index_of_last_ensures(ch);
            }
            return Some(i);
        }
    }
    None
}

/// Returns the text of the characters from `from` up to `to`.
pub fn slice_text(chars: &Vec<char>, from: usize, to: usize) -> (text: String)
    requires
        from <= to <= chars@.len(),
    ensures
        text@ == chars@.subrange(from as int, to as int),
{
    let mut text = String::new();
    let mut i: usize = from;
    while i < to
        invariant
            from <= i <= to <= chars@.len(),
            text@ == chars@.subrange(from as int, i as int),
        decreases to - i,
    {
        text.push(chars[i]);
        proof {
            assert(chars@.subrange(from as int, i + 1) =~= chars@.subrange(
                from as int,
                i as int,
            ).push(chars@[i as int]));
        }
        i += 1;
    }
    text
}

/// Returns a copy of a list of strings.
pub fn copy_texts(items: &Vec<String>) -> (copies: Vec<String>)
    ensures
        copies@ == items@,
{
    let mut copies: Vec<String> = Vec::new();
    let mut i: usize = 0;
    while i < items.len()
        invariant
            i <= items.len(),
            copies@ == items@.take(i as int),
        decreases items.len() - i,
    {
        copies.push(items[i].clone());
        proof {
            assert(items@.take(i + 1) =~= items@.take(i as int).push(items@[i as int]));
        }
        i += 1;
    }
    proof {
        assert(items@.take(i as int) =~= items@);
    }
    copies
}

/// The lowercase form of a text.
pub uninterp spec fn lowercase(text: Seq<char>) -> Seq<char>;

/// An ASCII text with its capital letters replaced by small ones.
pub open spec fn ascii_lowercase(text: Seq<char>) -> Seq<char> {
    Seq::new(
        text.len(),
        |i: int|
            if 'A' <= text[i] && text[i] <= 'Z' {
                (text[i] as u32 + 32) as char
            } else {
                text[i]
            },
    )
}

/// Returns the lowercase form of a text.
///
/// Calls `str::to_lowercase`. On ASCII text it replaces capital letters by small ones and leaves
/// the rest alone; beyond ASCII it follows Unicode.
#[verifier::external_body]
pub(crate) fn lowercase_text(text: &str) -> (lowered: String)
    ensures
        lowered@ == lowercase(text@),
        (forall|i: int| 0 <= i < text@.len() ==> (#[trigger] text@[i] as nat) < 128) ==> lowered@
            == ascii_lowercase(text@),
{
    text.to_lowercase()
}

/// Trimming takes nothing but `/` away, and only at the end.
pub proof fn trimming_removes_only_slashes(text: Seq<char>)
    ensures
        without_trailing_slashes(text).is_prefix_of(text),
        forall|i: int|
            without_trailing_slashes(text).len() <= i < text.len() ==> #[trigger] text[i] == '/',
    decreases text.len(),
{
    if text.len() > 0 && text.last() == '/' {
        let front = text.drop_last();
        trimming_removes_only_slashes(front);
        let kept = without_trailing_slashes(text);
        assert forall|i: int| kept.len() <= i < text.len() implies #[trigger] text[i] == '/' by {
            if i < front.len() {
                assert(front[i] == text[i]);
            }
        }
    }
}

/// A list is joined by joining two parts of it, with the separator between them.
pub proof fn joining_splits(front: Seq<Seq<char>>, back: Seq<Seq<char>>, separator: Seq<char>)
    requires
        front.len() > 0,
        back.len() > 0,
    ensures
        joined(front + back, separator) == joined(front, separator) + separator + joined(
            back,
            separator,
        ),
        joined(seq![front[0]], separator) == front[0],
        joined(Seq::empty(), separator).len() == 0,
    decreases back.len(),
{
    let all = front + back;
    assert(all.last() == back.last());
    assert(all.drop_last() =~= front + back.drop_last());
    if back.len() == 1 {
        assert(front + back.drop_last() =~= front);
        assert(back[0] == back.last());
    } else {
        joining_splits(front, back.drop_last(), separator);
        assert(joined(all, separator) =~= joined(front, separator) + separator + joined(
            back,
            separator,
        ));
    }
}

/// A text that is put together around another contains it, and a text begins with everything that it is
/// continued from; and what is contained can be cut out.
pub proof fn contained_texts_can_be_cut_out(text: &str, needle: &str, found: bool, begins: bool)
    requires
        call_ensures(contains, (text, needle), found),
        call_ensures(starts_with, (text, needle), begins),
    ensures
        found <==> exists|front: Seq<char>, back: Seq<char>|
            text@ == #[trigger] (front + needle@ + back),
        begins <==> needle@.is_prefix_of(text@),
        begins ==> found,
{
    if found {
        let at = choose|at: int| occurs_at(text@, needle@, at);
        let front = text@.take(at);
        let back = text@.skip(at + needle@.len());
        assert(text@ =~= front + text@.subrange(at, at + needle@.len()) + back);
        assert(text@ == front + needle@ + back);
    }
    if exists|front: Seq<char>, back: Seq<char>| text@ == #[trigger] (front + needle@ + back) {
        let (front, back) = choose|front: Seq<char>, back: Seq<char>|
            text@ == #[trigger] (front + needle@ + back);
        assert(text@.subrange(front.len() as int, front.len() as int + needle@.len()) =~= needle@);
        assert(occurs_at(text@, needle@, front.len() as int));
    }
    if needle@.is_prefix_of(text@) {
        assert(text@.subrange(0, needle@.len() as int) =~= needle@);
    }
}

/// Decimal texts tell numbers apart, and stand for the number they were made from.
pub proof fn decimal_texts_denote_numbers(
    left: u64,
    right: u64,
    first: String,
    second: String,
)
    requires
        call_ensures(decimal_text, (left,), first),
        call_ensures(decimal_text, (right,), second),
    ensures
        denoted(first@, 10) == left,
        first@ == second@ <==> left == right,
{
    decimal_denotes_value(left as nat);
    if first@ == second@ {
        decimal_is_injective(left as nat, right as nat);
    }
}

} // verus!
