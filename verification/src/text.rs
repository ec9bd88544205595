//! Text building blocks: decimal rendering of integers and joining of pieces.

use vstd::prelude::*;
use vstd::string::*;
use vstd::utf8::encode_utf8;
use vstd::utf8::encode_utf8_decode_utf8;

verus! {

/// The character that stands for the decimal digit `d`.
pub open spec fn digit_char(d: nat) -> char {
    if d == 0 {
        '0'
    } else if d == 1 {
        '1'
    } else if d == 2 {
        '2'
    } else if d == 3 {
        '3'
    } else if d == 4 {
        '4'
    } else if d == 5 {
        '5'
    } else if d == 6 {
        '6'
    } else if d == 7 {
        '7'
    } else if d == 8 {
        '8'
    } else {
        '9'
    }
}

/// The decimal numeral of `n`, without sign or leading zeros.
pub open spec fn decimal(n: nat) -> Seq<char>
    decreases n,
{
    if n < 10 {
        seq![digit_char(n)]
    } else {
        decimal(n / 10).push(digit_char(n % 10))
    }
}

fn digit_str(d: u64) -> (s: &'static str)
    requires
        d < 10,
    ensures
        s@ == seq![digit_char(d as nat)],
{
    proof {
        reveal_strlit("0");
        reveal_strlit("1");
        reveal_strlit("2");
        reveal_strlit("3");
        reveal_strlit("4");
        reveal_strlit("5");
        reveal_strlit("6");
        reveal_strlit("7");
        reveal_strlit("8");
        reveal_strlit("9");
    }
    let s = if d == 0 {
        "0"
    } else if d == 1 {
        "1"
    } else if d == 2 {
        "2"
    } else if d == 3 {
        "3"
    } else if d == 4 {
        "4"
    } else if d == 5 {
        "5"
    } else if d == 6 {
        "6"
    } else if d == 7 {
        "7"
    } else if d == 8 {
        "8"
    } else {
        "9"
    };
    assert(s@ =~= seq![digit_char(d as nat)]);
    s
}

/// Appends the decimal numeral of `n` to `out`.
pub fn push_decimal(out: &mut String, n: u64)
    ensures
        final(out)@ == old(out)@ + decimal(n as nat),
    decreases n,
{
    if n >= 10 {
        push_decimal(out, n / 10);
    }
    let d = digit_str(n % 10);
    out.append(d);
    proof {
        if n >= 10 {
            assert(final(out)@ =~= old(out)@ + decimal(n as nat));
        } else {
            assert(final(out)@ =~= old(out)@ + decimal(n as nat));
        }
    }
}

/// The decimal numeral of `n` as a string.
pub fn to_decimal(n: u64) -> (s: String)
    ensures
        s@ == decimal(n as nat),
{
    let mut s = String::new();
    push_decimal(&mut s, n);
    assert(s@ =~= decimal(n as nat));
    s
}

/// Texts with the same bytes are the same text.
pub proof fn lemma_same_bytes_same_text(a: Seq<char>, b: Seq<char>)
    requires
        encode_utf8(a) == encode_utf8(b),
    ensures
        a == b,
{
    encode_utf8_decode_utf8(a);
    encode_utf8_decode_utf8(b);
}

/// Whether `s` holds the text `literal`.
pub fn text_is(s: &str, literal: &str) -> (same: bool)
    ensures
        same == (s@ == literal@),
{
    let a = s.as_bytes();
    let b = literal.as_bytes();
    if a.len() != b.len() {
        return false;
    }
    let mut i: usize = 0;
    while i < a.len()
        invariant
            i <= a.len(),
            a@.len() == b@.len(),
            a@ == encode_utf8(s@),
            b@ == encode_utf8(literal@),
            forall|j: int| 0 <= j < i ==> a@[j] == b@[j],
        decreases a.len() - i,
    {
        if a[i] != b[i] {
            return false;
        }
        i += 1;
    }
    proof {
        assert(a@ =~= b@);
        lemma_same_bytes_same_text(s@, literal@);
    }
    true
}

/// The characters of `text`.
pub fn chars_of(text: &str) -> (chars: Vec<char>)
    ensures
        chars@ == text@,
{
    let mut chars: Vec<char> = Vec::new();
    for c in it: text.chars()
        invariant
            it.seq() == text@,
            chars@ == text@.take(it.index() as int),
    {
        chars.push(c);
        assert(chars@ =~= text@.take(it.index() + 1));
    }
    assert(chars@ =~= text@);
    chars
}

/// The strings `s`, each by its view.
pub open spec fn strings_view(s: Seq<String>) -> Seq<Seq<char>> {
    s.map_values(|t: String| t@)
}

/// The pieces of `s` between the occurrences of `sep`: one more than there
/// are occurrences, each without a `sep`, empty ones included.
pub open spec fn split_on(s: Seq<char>, sep: char) -> Seq<Seq<char>>
    decreases s.len(),
{
    if s.len() == 0 {
        seq![Seq::empty()]
    } else if s.last() == sep {
        split_on(s.drop_last(), sep).push(Seq::empty())
    } else {
        let before = split_on(s.drop_last(), sep);
        before.drop_last().push(before.last().push(s.last()))
    }
}

/// The pieces of `text` between the occurrences of `sep`, from left to
/// right.
pub fn split_text(text: &str, sep: char) -> (pieces: Vec<String>)
    ensures
        strings_view(pieces@) == split_on(text@, sep),
{
    let chars = chars_of(text);
    let mut pieces: Vec<String> = Vec::new();
    let mut start: usize = 0;
    let mut i: usize = 0;
    assert(text@.take(0) =~= Seq::<char>::empty());
    assert(strings_view(pieces@).push(text@.subrange(0, 0)) =~= split_on(text@.take(0), sep));
    while i < chars.len()
        invariant
            start <= i <= chars.len(),
            chars@ == text@,
            split_on(text@.take(i as int), sep) == strings_view(pieces@).push(
                text@.subrange(start as int, i as int),
            ),
        decreases chars.len() - i,
    {
        let ghost before = split_on(text@.take(i as int), sep);
        let ghost done = strings_view(pieces@);
        let c = chars[i];
        proof {
            let longer = text@.take(i + 1);
            assert(longer.drop_last() =~= text@.take(i as int));
            assert(longer.last() == c);
            assert(before.last() == text@.subrange(start as int, i as int));
            assert(before.drop_last() =~= done);
        }
        if c == sep {
            let piece = String::from_str(text.substring_char(start, i));
            proof {
                assert(strings_view(pieces@.push(piece)) =~= done.push(piece@));
            }
            pieces.push(piece);
            start = i + 1;
            assert(text@.subrange(start as int, i + 1) =~= Seq::<char>::empty());
        } else {
            assert(text@.subrange(start as int, i + 1) =~= text@.subrange(
                start as int,
                i as int,
            ).push(c));
        }
        i += 1;
    }
    assert(text@.take(i as int) =~= text@);
    let last = String::from_str(text.substring_char(start, i));
    proof {
        assert(strings_view(pieces@.push(last)) =~= strings_view(pieces@).push(last@));
    }
    pieces.push(last);
    pieces
}

/// Whether a character is white space: one of the characters with the
/// Unicode property White_Space, which `char::is_whitespace` and
/// `str::trim` go by.
pub open spec fn white_space(c: char) -> bool {
    let n = c as u32;
    (0x09 <= n && n <= 0x0D) || n == 0x20 || n == 0x85 || n == 0xA0 || n == 0x1680 || (0x2000
        <= n && n <= 0x200A) || n == 0x2028 || n == 0x2029 || n == 0x202F || n == 0x205F || n
        == 0x3000
}

/// Whether `c` is white space.
pub fn is_white_space(c: char) -> (white: bool)
    ensures
        white == white_space(c),
{
    let n = c as u32;
    (0x09 <= n && n <= 0x0D) || n == 0x20 || n == 0x85 || n == 0xA0 || n == 0x1680 || (0x2000
        <= n && n <= 0x200A) || n == 0x2028 || n == 0x2029 || n == 0x202F || n == 0x205F || n
        == 0x3000
}

/// `s` without the white space at its start.
pub open spec fn trimmed_start(s: Seq<char>) -> Seq<char>
    decreases s.len(),
{
    if s.len() > 0 && white_space(s[0]) {
        trimmed_start(s.skip(1))
    } else {
        s
    }
}

/// `s` without the white space at its end.
pub open spec fn trimmed_end(s: Seq<char>) -> Seq<char>
    decreases s.len(),
{
    if s.len() > 0 && white_space(s.last()) {
        trimmed_end(s.drop_last())
    } else {
        s
    }
}

/// `s` without the white space at its start and at its end.
pub open spec fn trimmed(s: Seq<char>) -> Seq<char> {
    trimmed_end(trimmed_start(s))
}

/// `text` without the white space at its start and at its end.
pub fn trim_text(text: &str) -> (inner: String)
    ensures
        inner@ == trimmed(text@),
{
    let chars = chars_of(text);
    let n = chars.len();
    let mut a: usize = 0;
    assert(text@.skip(0) =~= text@);
    while a < n && is_white_space(chars[a])
        invariant
            a <= n,
            n == chars@.len(),
            chars@ == text@,
            trimmed_start(text@) == trimmed_start(text@.skip(a as int)),
        decreases n - a,
    {
        assert(text@.skip(a as int).skip(1) =~= text@.skip(a + 1));
        a += 1;
    }
    assert(trimmed_start(text@) == text@.skip(a as int));
    let mut b: usize = n;
    assert(text@.skip(a as int) =~= text@.subrange(a as int, b as int));
    while b > a && is_white_space(chars[b - 1])
        invariant
            a <= b <= n,
            n == chars@.len(),
            chars@ == text@,
            trimmed(text@) == trimmed_end(text@.subrange(a as int, b as int)),
        decreases b,
    {
        assert(text@.subrange(a as int, b as int).drop_last() =~= text@.subrange(
            a as int,
            b - 1,
        ));
        b -= 1;
    }
    String::from_str(text.substring_char(a, b))
}

/// Whether `s` begins with `prefix`.
pub open spec fn begins_with(s: Seq<char>, prefix: Seq<char>) -> bool {
    s.len() >= prefix.len() && s.subrange(0, prefix.len() as int) == prefix
}

/// Whether what stands in `chars` from `start` on begins with `prefix`.
fn begins_at(chars: &Vec<char>, start: usize, prefix: &Vec<char>) -> (found: bool)
    requires
        start <= chars@.len(),
    ensures
        found == begins_with(chars@.skip(start as int), prefix@),
{
    let rest = chars.len() - start;
    if rest < prefix.len() {
        return false;
    }
    let ghost s = chars@.skip(start as int);
    let mut i: usize = 0;
    while i < prefix.len()
        invariant
            i <= prefix.len(),
            start + prefix.len() <= chars.len(),
            s == chars@.skip(start as int),
            forall|j: int| 0 <= j < i ==> s[j] == prefix@[j],
        decreases prefix.len() - i,
    {
        if chars[start + i] != prefix[i] {
            assert(s.subrange(0, prefix@.len() as int)[i as int] != prefix@[i as int]);
            return false;
        }
        i += 1;
    }
    assert(s.subrange(0, prefix@.len() as int) =~= prefix@);
    true
}

/// Whether `text` begins with `prefix`.
pub fn text_begins_with(text: &str, prefix: &str) -> (found: bool)
    ensures
        found == begins_with(text@, prefix@),
{
    let chars = chars_of(text);
    let wanted = chars_of(prefix);
    assert(chars@.skip(0) =~= chars@);
    begins_at(&chars, 0, &wanted)
}

/// `s` after `prefix` has been taken off its start as often as it stands
/// there.
pub open spec fn without_prefixes(s: Seq<char>, prefix: Seq<char>) -> Seq<char>
    decreases s.len(),
{
    if prefix.len() > 0 && begins_with(s, prefix) {
        without_prefixes(s.skip(prefix.len() as int), prefix)
    } else {
        s
    }
}

/// `text` after `prefix` has been taken off its start as often as it stands
/// there.
pub fn strip_prefixes(text: &str, prefix: &str) -> (rest: String)
    ensures
        rest@ == without_prefixes(text@, prefix@),
{
    let chars = chars_of(text);
    let wanted = chars_of(prefix);
    let n = chars.len();
    let mut start: usize = 0;
    assert(text@.skip(0) =~= text@);
    if wanted.len() > 0 {
        while begins_at(&chars, start, &wanted)
            invariant
                start <= n,
                n == chars@.len(),
                chars@ == text@,
                wanted@ == prefix@,
                wanted@.len() > 0,
                without_prefixes(text@, prefix@) == without_prefixes(
                    text@.skip(start as int),
                    prefix@,
                ),
            decreases n - start,
        {
            assert(text@.skip(start as int).skip(prefix@.len() as int) =~= text@.skip(
                start + prefix@.len(),
            ));
            start += wanted.len();
        }
    }
    assert(text@.skip(start as int) =~= text@.subrange(start as int, n as int));
    String::from_str(text.substring_char(start, n))
}

} // verus!
