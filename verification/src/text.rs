//! Strings: equality, containment, decimal numerals, and text that comes from
//! or goes to C.

use vstd::prelude::*;
use vstd::utf8::{
    decode_utf8, decode_utf8_encode_utf8, encode_utf8, encode_utf8_decode_utf8,
    encode_utf8_valid_utf8, valid_utf8,
};

verus! {

/// `needle` stands in `haystack` at position `at`.
pub open spec fn occurs_at(haystack: Seq<char>, needle: Seq<char>, at: int) -> bool {
    &&& 0 <= at
    &&& at + needle.len() <= haystack.len()
    &&& haystack.subrange(at, at + needle.len()) == needle
}

/// `needle` stands somewhere in `haystack`.
pub open spec fn contains_text(haystack: Seq<char>, needle: Seq<char>) -> bool {
    exists|at: int| occurs_at(haystack, needle, at)
}

/// The first `limit` characters of `s`, or all of them if there are fewer.
pub open spec fn clipped(s: Seq<char>, limit: nat) -> Seq<char> {
    if s.len() <= limit {
        s
    } else {
        s.take(limit as int)
    }
}

/// The character of a decimal digit.
pub open spec fn digit(d: nat) -> char {
    if d == 0 {
        '0'
    } else if d == 1 {
        '1'
    } else if d == 2 {
        '2'
    } else if d == 3 {
        '3'
    } else if d == 4 {
        '4'
    } else if d == 5 {
        '5'
    } else if d == 6 {
        '6'
    } else if d == 7 {
        '7'
    } else if d == 8 {
        '8'
    } else {
        '9'
    }
}

/// The decimal numeral of `n`, without leading zeros.
pub open spec fn decimal(n: nat) -> Seq<char>
    decreases n,
{
    if n < 10 {
        seq![digit(n)]
    } else {
        decimal(n / 10).push(digit(n % 10))
    }
}

/// No NUL character, so the text can be handed out as a C string.
pub open spec fn fits_c_string(s: Seq<char>) -> bool {
    !s.contains('\0')
}

/// The position of the first NUL of a text, in bytes.
pub open spec fn nul_position(s: Seq<char>) -> nat {
    encode_utf8(s.take(s.index_of_first('\0')->0)).len()
}

/// The text that bytes encode: nothing if they are not UTF-8.
pub open spec fn utf8_text(bytes: Seq<u8>) -> Option<Seq<char>> {
    if valid_utf8(bytes) {
        Some(decode_utf8(bytes))
    } else {
        None
    }
}

/// What a C string argument says: nothing if the pointer was null or the bytes
/// are not UTF-8.
pub open spec fn c_text(arg: Option<&[u8]>) -> Option<Seq<char>> {
    match arg {
        Some(bytes) => utf8_text(bytes@),
        None => None,
    }
}

/// The views of a list of strings.
pub open spec fn texts(list: Seq<String>) -> Seq<Seq<char>> {
    Seq::new(list.len(), |i: int| list[i]@)
}

/// An optional string slice as text.
pub open spec fn str_text(s: Option<&str>) -> Option<Seq<char>> {
    match s {
        Some(t) => Some(t@),
        None => None,
    }
}

/// An optional string as text.
pub open spec fn optional_text(s: Option<String>) -> Option<Seq<char>> {
    match s {
        Some(t) => Some(t@),
        None => None,
    }
}

/// Two string slices hold the same text.
pub fn same_text(a: &str, b: &str) -> (r: bool)
    ensures
        r == (a@ == b@),
{
    a.to_owned() == b.to_owned()
}

fn char_vec(s: &str) -> (v: Vec<char>)
    ensures
        v@ == s@,
{
    let mut v: Vec<char> = Vec::new();
    for c in it: s.chars()
        invariant
            v@ == it.seq().take(it.index()),
            it.seq() == s@,
    {
        v.push(c);
    }
    v
}

fn occurs_here(haystack: &Vec<char>, needle: &Vec<char>, at: usize) -> (r: bool)
    requires
        at + needle@.len() <= haystack@.len(),
    ensures
        r == occurs_at(haystack@, needle@, at as int),
{
    let end: usize = haystack.len();
    let mut k: usize = 0;
    while k < needle.len()
        invariant
            k <= needle@.len(),
            end == haystack@.len(),
            at + needle@.len() <= end,
            forall|j: int| 0 <= j < k ==> haystack@[at + j] == needle@[j],
        decreases needle@.len() - k,
    {
        if haystack[at + k] != needle[k] {
            let ghost here = haystack@.subrange(at as int, at + needle@.len());
            assert(here[k as int] != needle@[k as int]);
            return false;
        }
        k += 1;
    }
    assert(haystack@.subrange(at as int, at + needle@.len()) =~= needle@);
    true
}

/// Looks for `needle` in `haystack`, character by character.
pub fn text_contains(haystack: &str, needle: &str) -> (r: bool)
    ensures
        r == contains_text(haystack@, needle@),
{
    let hay = char_vec(haystack);
    let pin = char_vec(needle);
    if pin.len() > hay.len() {
        return false;
    }
    let last: usize = hay.len() - pin.len();
    let mut at: usize = 0;
    loop
        invariant
            at <= last,
            last == hay@.len() - pin@.len(),
            hay@ == haystack@,
            pin@ == needle@,
            forall|i: int| 0 <= i < at ==> !occurs_at(hay@, pin@, i),
        decreases last - at,
    {
        if occurs_here(&hay, &pin, at) {
            return true;
        }
        if at == last {
            return false;
        }
        at += 1;
    }
}

/// The first `limit` characters of a text.
pub fn clip(s: &str, limit: usize) -> (r: String)
    ensures
        r@ == clipped(s@, limit as nat),
{
    if s.unicode_len() <= limit {
        s.to_owned()
    } else {
        let head = s.substring_char(0, limit);
        proof {
            assert(s@.subrange(0, limit as int) =~= s@.take(limit as int));
        }
        head.to_owned()
    }
}

fn digit_text(d: u64) -> (r: &'static str)
    requires
        d < 10,
    ensures
        r@ == seq![digit(d as nat)],
{
    proof {
        reveal_strlit("0");
        reveal_strlit("1");
        reveal_strlit("2");
        reveal_strlit("3");
        reveal_strlit("4");
        reveal_strlit("5");
        reveal_strlit("6");
        reveal_strlit("7");
        reveal_strlit("8");
        reveal_strlit("9");
    }
    if d == 0 {
        "0"
    } else if d == 1 {
        "1"
    } else if d == 2 {
        "2"
    } else if d == 3 {
        "3"
    } else if d == 4 {
        "4"
    } else if d == 5 {
        "5"
    } else if d == 6 {
        "6"
    } else if d == 7 {
        "7"
    } else if d == 8 {
        "8"
    } else {
        "9"
    }
}

/// Writes a number in decimal.
pub fn decimal_text(n: u64) -> (r: String)
    ensures
        r@ == decimal(n as nat),
    decreases n,
{
    let mut r = if n < 10 {
        String::new()
    } else {
        decimal_text(n / 10)
    };
    r.append(digit_text(n % 10));
    r
}

/// Looks for the first NUL of a text and gives its position in bytes.
pub fn find_nul(s: &str) -> (r: Option<usize>)
    ensures
        match r {
            Some(at) => !fits_c_string(s@) && at == nul_position(s@),
            None => fits_c_string(s@),
        },
{
    let chars = char_vec(s);
    let mut i: usize = 0;
    while i < chars.len()
        invariant
            i <= chars@.len(),
            chars@ == s@,
            forall|j: int| 0 <= j < i ==> s@[j] != '\0',
        decreases chars@.len() - i,
    {
        if chars[i] == '\0' {
            let head = s.substring_char(0, i);
            proof {
                assert(s@[i as int] == '\0');
                s@.index_of_first_ensures('\0');
                assert(s@.subrange(0, i as int) =~= s@.take(i as int));
            }
            return Some(head.as_bytes().len());
        }
        i += 1;
    }
    None
}

/// Whether a text can be handed out as a C string.
pub fn is_c_string(s: &str) -> (r: bool)
    ensures
        r == fits_c_string(s@),
{
    find_nul(s).is_none()
}

/// `std::str::from_utf8`: the text that the bytes encode, or nothing exactly
/// when they are not valid UTF-8.
#[verifier::external_body]
fn decoded(bytes: &[u8]) -> (r: Option<String>)
    ensures
        match r {
            Some(s) => utf8_text(bytes@) == Some(s@),
            None => utf8_text(bytes@) is None,
        },
{
    match std::str::from_utf8(bytes) {
        Ok(s) => Some(s.to_owned()),
        Err(_) => None,
    }
}

/// Reads a C string argument, given as its bytes without the terminator.
pub fn read_c_text(arg: Option<&[u8]>) -> (r: Option<String>)
    ensures
        match r {
            Some(s) => c_text(arg) == Some(s@),
            None => c_text(arg) is None,
        },
{
    match arg {
        Some(bytes) => decoded(bytes),
        None => None,
    }
}

/// The lower-case form of a text, as Unicode defines it.
pub uninterp spec fn lowercase(s: Seq<char>) -> Seq<char>;

/// `str::to_lowercase`: the lower-case equivalent of a text, by the Unicode
/// property `Lowercase`. Which character maps to which is not stated.
#[verifier::external_body]
pub(crate) fn to_lowercase(s: &str) -> (r: String)
    ensures
        r@ == lowercase(s@),
{
    s.to_lowercase()
}

/// A text contains another exactly if it is the other one with something, or
/// nothing, before it and behind it.
pub proof fn law_containing_is_having_around(haystack: Seq<char>, needle: Seq<char>)
    ensures
        contains_text(haystack, needle) <==> exists|before: Seq<char>, after: Seq<char>|
            haystack == #[trigger] (before + needle + after),
{
    if contains_text(haystack, needle) {
        let at = choose|at: int| occurs_at(haystack, needle, at);
        let before = haystack.take(at);
        let after = haystack.skip(at + needle.len());
        assert(haystack =~= before + needle + after);
    }
    if exists|before: Seq<char>, after: Seq<char>|
        haystack == #[trigger] (before + needle + after) {
        let (before, after) = choose|before: Seq<char>, after: Seq<char>|
            haystack == #[trigger] (before + needle + after);
        let at = before.len() as int;
        assert(haystack.subrange(at, at + needle.len()) =~= needle);
        assert(occurs_at(haystack, needle, at));
    }
}

/// Clipping keeps the first characters, as many as the limit allows.
pub proof fn law_clipping_keeps_the_head(s: Seq<char>, limit: nat)
    ensures
        clipped(s, limit).len() == (if s.len() < limit {
            s.len()
        } else {
            limit
        }),
        forall|i: int| 0 <= i < clipped(s, limit).len() ==> #[trigger] clipped(s, limit)[i] == s[i],
{
}

/// The number that a string of decimal digits stands for.
pub open spec fn numeral_value(s: Seq<char>) -> int
    decreases s.len(),
{
    if s.len() == 0 {
        0
    } else {
        10 * numeral_value(s.drop_last()) + (s.last() as int - '0' as int)
    }
}

/// A numeral has decimal digits only, none of them a leading zero, and reads as
/// the number that it was written for.
pub proof fn law_numeral_reads_back(n: nat)
    ensures
        numeral_value(decimal(n)) == n,
        decimal(n).len() > 0,
        forall|i: int| 0 <= i < decimal(n).len() ==> '0' <= #[trigger] decimal(n)[i] <= '9',
        decimal(n)[0] == '0' ==> n == 0,
    decreases n,
{
    if n < 10 {
        assert(decimal(n).drop_last() =~= Seq::<char>::empty());
        assert(numeral_value(decimal(n).drop_last()) == 0);
    } else {
        law_numeral_reads_back(n / 10);
        assert(decimal(n).drop_last() =~= decimal(n / 10));
        assert(decimal(n)[0] == decimal(n / 10)[0]);
    }
}

/// A text fits a C string exactly if none of its characters is NUL.
pub proof fn law_c_string_has_no_nul(s: Seq<char>)
    ensures
        fits_c_string(s) <==> forall|i: int| 0 <= i < s.len() ==> #[trigger] s[i] != '\0',
{
}

/// The first NUL stands where the bytes of what comes before it end.
pub proof fn law_first_nul(before: Seq<char>, after: Seq<char>)
    requires
        forall|i: int| 0 <= i < before.len() ==> #[trigger] before[i] != '\0',
    ensures
        !fits_c_string(before + seq!['\0'] + after),
        nul_position(before + seq!['\0'] + after) == encode_utf8(before).len(),
{
    let s = before + seq!['\0'] + after;
    assert(s[before.len() as int] == '\0');
    s.index_of_first_ensures('\0');
    let at = s.index_of_first('\0')->0;
    if at < before.len() {
        assert(s[at] == before[at]);
    }
    assert(s.take(at) =~= before);
}

/// Bytes are read as a text exactly if they are its UTF-8 encoding, and a null
/// pointer is read as none.
pub proof fn law_c_text_is_decoded(arg: Option<&[u8]>, text: Seq<char>)
    ensures
        c_text(arg) == Some(text) <==> arg is Some && arg->0@ == encode_utf8(text),
        arg is Some ==> c_text(arg) == utf8_text(arg->0@),
        arg is None ==> c_text(arg) is None,
        utf8_text(encode_utf8(text)) == Some(text),
{
    encode_utf8_valid_utf8(text);
    encode_utf8_decode_utf8(text);
    if arg is Some && valid_utf8(arg->0@) {
        decode_utf8_encode_utf8(arg->0@);
    }
}

/// A list of strings is seen string by string, and an optional string as its text.
pub proof fn law_strings_are_seen(
    list: Seq<String>,
    i: int,
    slice: Option<&str>,
    string: Option<String>,
)
    ensures
        texts(list).len() == list.len(),
        0 <= i < list.len() ==> texts(list)[i] == list[i]@,
        slice is Some ==> str_text(slice) == Some(slice->0@),
        slice is None ==> str_text(slice) is None,
        string is Some ==> optional_text(string) == Some(string->0@),
        string is None ==> optional_text(string) is None,
{
}

} // verus!
