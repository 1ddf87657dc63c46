//! Small operations on text.

use vstd::prelude::*;

verus! {

/// The characters of a text.
pub fn chars_of(text: &str) -> (out: Vec<char>)
    ensures
        out@ == text@,
{
    let mut out: Vec<char> = Vec::new();
    for c in it: text.chars()
        invariant
            it.seq() == text@,
            out@ == text@.take(it.index() as int),
    {
        assert(text@.take(it.index() + 1) =~= text@.take(it.index() as int).push(c));
        out.push(c);
    }
    assert(text@.take(text@.len() as int) =~= text@);
    out
}

/// Whether characters spell a text.
pub fn spells(chars: &Vec<char>, text: &str) -> (yes: bool)
    ensures
        yes == (chars@ == text@),
{
    let other = chars_of(text);
    if chars.len() != other.len() {
        return false;
    }
    for i in 0..chars.len()
        invariant
            chars@.len() == other@.len(),
            other@ == text@,
            chars@.take(i as int) =~= other@.take(i as int),
    {
        if chars[i] != other[i] {
            return false;
        }
        assert(chars@.take(i + 1) =~= chars@.take(i as int).push(chars@[i as int]));
        assert(other@.take(i + 1) =~= other@.take(i as int).push(other@[i as int]));
    }
    assert(chars@.take(chars@.len() as int) =~= chars@);
    assert(other@.take(other@.len() as int) =~= other@);
    true
}

/// Whether two texts are the same.
pub fn same(a: &str, b: &str) -> (yes: bool)
    ensures
        yes == (a@ == b@),
{
    spells(&chars_of(a), b)
}

/// Whether characters end in a text.
pub fn ends_in(chars: &Vec<char>, end: &str) -> (yes: bool)
    ensures
        yes == end@.is_suffix_of(chars@),
{
    let other = chars_of(end);
    if chars.len() < other.len() {
        return false;
    }
    let start: usize = chars.len() - other.len();
    let mut tail: Vec<char> = Vec::new();
    for i in start..chars.len()
        invariant
            start <= chars@.len(),
            tail@ =~= chars@.subrange(start as int, i as int),
    {
        tail.push(chars[i]);
    }
    spells(&tail, end)
}

/// A character with the capital letters of ASCII made small.
pub open spec fn lower(c: char) -> char {
    if 65 <= c as int <= 90 {
        (c as int + 32) as char
    } else {
        c
    }
}

/// A text with the capital letters of ASCII made small.
pub open spec fn lower_text(text: Seq<char>) -> Seq<char> {
    text.map_values(|c: char| lower(c))
}

/// The code of a character.
pub fn code(c: char) -> (n: u32)
    ensures
        n as int == c as int,
{
    c as u32
}

fn lower_char(c: char) -> (small: char)
    ensures
        small == lower(c),
{
    let code = c as u32;
    if 65 <= code && code <= 90 {
        ((code as u8) + 32) as char
    } else {
        c
    }
}

/// The characters of a text, with the capital letters of ASCII made small.
pub fn lower_chars(text: &str) -> (out: Vec<char>)
    ensures
        out@ == lower_text(text@),
{
    let chars = chars_of(text);
    let mut out: Vec<char> = Vec::new();
    for i in 0..chars.len()
        invariant
            chars@ == text@,
            out@ =~= lower_text(text@).take(i as int),
    {
        out.push(lower_char(chars[i]));
    }
    out
}

/// The decimal digits of a number, without leading zeros.
pub open spec fn decimal(n: nat) -> Seq<char>
    decreases n,
{
    if n < 10 {
        seq![digit(n)]
    } else {
        decimal(n / 10).push(digit(n % 10))
    }
}

/// The character of one decimal digit.
pub open spec fn digit(n: nat) -> char {
    (48 + n) as char
}

/// Different numbers have different digits.
pub proof fn lemma_decimal_injective(a: nat, b: nat)
    requires
        decimal(a) == decimal(b),
    ensures
        a == b,
    decreases a,
{
    assert(forall|n: nat| n < 10 ==> #[trigger] digit(n) as int == 48 + n);
    lemma_decimal_nonempty(a / 10);
    lemma_decimal_nonempty(b / 10);
    assert(decimal(a).last() == digit(a % 10));
    assert(decimal(b).last() == digit(b % 10));
    if a >= 10 && b >= 10 {
        assert(decimal(a).drop_last() =~= decimal(a / 10));
        assert(decimal(b).drop_last() =~= decimal(b / 10));
        lemma_decimal_injective(a / 10, b / 10);
    }
}

proof fn lemma_decimal_nonempty(n: nat)
    ensures
        decimal(n).len() > 0,
{
}

fn digit_text(n: u128) -> (out: &'static str)
    requires
        n < 10,
    ensures
        out@ == seq![digit(n as nat)],
{
    proof {
        reveal_strlit("0");
        reveal_strlit("1");
        reveal_strlit("2");
        reveal_strlit("3");
        reveal_strlit("4");
        reveal_strlit("5");
        reveal_strlit("6");
        reveal_strlit("7");
        reveal_strlit("8");
        reveal_strlit("9");
    }
    let out = match n {
        0 => "0",
        1 => "1",
        2 => "2",
        3 => "3",
        4 => "4",
        5 => "5",
        6 => "6",
        7 => "7",
        8 => "8",
        _ => "9",
    };
    assert(out@ =~= seq![digit(n as nat)]);
    out
}

/// A number in decimal digits.
pub fn decimal_text(n: u128) -> (out: String)
    ensures
        out@ == decimal(n as nat),
    decreases n,
{
    if n < 10 {
        digit_text(n).to_owned()
    } else {
        let mut out = decimal_text(n / 10);
        out.append(digit_text(n % 10));
        assert(out@ =~= decimal((n / 10) as nat).push(digit((n % 10) as nat)));
        out
    }
}

/// Where a character first occurs in a text.
pub open spec fn find(text: Seq<char>, c: char) -> Option<int>
    decreases text.len(),
{
    if text.len() == 0 {
        None
    } else if text[0] == c {
        Some(0)
    } else {
        match find(text.drop_first(), c) {
            Some(i) => Some(i + 1),
            None => None,
        }
    }
}

/// `find` gives the first occurrence, if there is one.
pub proof fn lemma_find(text: Seq<char>, c: char)
    ensures
        match find(text, c) {
            Some(i) => 0 <= i < text.len() && text[i] == c && (forall|j: int|
                0 <= j < i ==> text[j] != c),
            None => forall|j: int| 0 <= j < text.len() ==> text[j] != c,
        },
    decreases text.len(),
{
    if text.len() > 0 && text[0] != c {
        lemma_find(text.drop_first(), c);
        let rest = text.drop_first();
        assert(forall|j: int| 0 < j < text.len() ==> text[j] == rest[j - 1]);
    }
}

/// The first occurrence is where it is.
pub proof fn lemma_find_at(text: Seq<char>, c: char, i: int)
    requires
        0 <= i < text.len(),
        text[i] == c,
        forall|j: int| 0 <= j < i ==> text[j] != c,
    ensures
        find(text, c) == Some(i),
{
    lemma_find(text, c);
}

/// A character that occurs nowhere is not found.
pub proof fn lemma_find_none(text: Seq<char>, c: char)
    requires
        forall|j: int| 0 <= j < text.len() ==> text[j] != c,
    ensures
        find(text, c) is None,
{
    lemma_find(text, c);
}

/// The parts of a text before and after the first occurrence of a separator.
pub open spec fn split_once(text: Seq<char>, separator: char) -> Option<(Seq<char>, Seq<char>)> {
    match find(text, separator) {
        Some(i) => Some((text.take(i), text.skip(i + 1))),
        None => None,
    }
}

/// Cuts a text at the first occurrence of a separator.
pub fn cut_once<'a>(text: &'a str, separator: char) -> (parts: Option<(&'a str, &'a str)>)
    ensures
        match parts {
            Some((head, tail)) => split_once(text@, separator) == Some((head@, tail@)),
            None => split_once(text@, separator) is None,
        },
{
    let chars = chars_of(text);
    for i in 0..chars.len()
        invariant
            chars@ == text@,
            forall|j: int| 0 <= j < i ==> text@[j] != separator,
    {
        if chars[i] == separator {
            proof {
                lemma_find_at(text@, separator, i as int);
            }
            let head = text.substring_char(0, i);
            let tail = text.substring_char(i + 1, chars.len());
            assert(head@ =~= text@.take(i as int));
            assert(tail@ =~= text@.skip(i + 1));
            return Some((head, tail));
        }
    }
    proof {
        lemma_find_none(text@, separator);
    }
    None
}

/// The parts of a text between the occurrences of a separator.
pub open spec fn split_all(text: Seq<char>, separator: char) -> Seq<Seq<char>>
    decreases text.len(),
{
    match find(text, separator) {
        Some(i) => if 0 <= i < text.len() {
            seq![text.take(i)] + split_all(text.skip(i + 1), separator)
        } else {
            seq![text]
        },
        None => seq![text],
    }
}

/// Every text has at least one part.
pub proof fn lemma_split_all_nonempty(text: Seq<char>, separator: char)
    ensures
        split_all(text, separator).len() > 0,
{
}

/// Texts one after the other, with a separator between them.
pub open spec fn join(parts: Seq<Seq<char>>, separator: Seq<char>) -> Seq<char>
    decreases parts.len(),
{
    if parts.len() == 0 {
        Seq::empty()
    } else if parts.len() == 1 {
        parts[0]
    } else {
        parts[0] + separator + join(parts.drop_first(), separator)
    }
}

/// One part more at the end.
pub proof fn lemma_join_push(parts: Seq<Seq<char>>, part: Seq<char>, separator: Seq<char>)
    ensures
        join(parts.push(part), separator) == if parts.len() == 0 {
            part
        } else {
            join(parts, separator) + separator + part
        },
    decreases parts.len(),
{
    if parts.len() == 1 {
        assert(parts.push(part).drop_first() =~= seq![part]);
        assert(join(seq![part], separator) == part);
    } else if parts.len() > 1 {
        lemma_join_push(parts.drop_first(), part, separator);
        assert(parts.push(part).drop_first() =~= parts.drop_first().push(part));
        assert(join(parts.push(part), separator) =~= join(parts, separator) + separator + part);
    }
}

/// A text without the separators at its end.
pub open spec fn trim_end(text: Seq<char>, end: char) -> Seq<char>
    decreases text.len(),
{
    if text.len() > 0 && text.last() == end {
        trim_end(text.drop_last(), end)
    } else {
        text
    }
}

/// Cuts off the separators at the end of a text.
pub fn trimmed_end<'a>(text: &'a str, end: char) -> (out: &'a str)
    ensures
        out@ == trim_end(text@, end),
{
    let chars = chars_of(text);
    let mut n: usize = chars.len();
    assert(text@.take(n as int) =~= text@);
    while n > 0 && chars[n - 1] == end
        invariant
            n <= chars@.len(),
            chars@ == text@,
            trim_end(text@.take(n as int), end) == trim_end(text@, end),
        decreases n,
    {
        assert(text@.take(n as int).drop_last() =~= text@.take(n - 1));
        n = n - 1;
    }
    let out = text.substring_char(0, n);
    assert(out@ =~= text@.take(n as int));
    out
}

/// A text made small has its length, and each of its characters in its place:
/// the capital letters of ASCII as the small ones, all others as they are.
pub proof fn law_small_letters(text: Seq<char>, i: int)
    requires
        0 <= i < text.len(),
    ensures
        lower_text(text).len() == text.len(),
        'A' <= text[i] <= 'Z' ==> lower_text(text)[i] as int == text[i] as int + 32,
        !('A' <= text[i] <= 'Z') ==> lower_text(text)[i] == text[i],
{
}

/// The number that some digits spell.
pub open spec fn spelled(digits: Seq<char>) -> int
    decreases digits.len(),
{
    if digits.len() == 0 {
        0
    } else {
        10 * spelled(digits.drop_last()) + (digits.last() as int - '0' as int)
    }
}

/// The digits of a number spell it, and begin with a zero only where that is
/// all there is.
pub proof fn law_digits_spell_the_number(n: nat)
    ensures
        spelled(decimal(n)) == n,
        forall|i: int| 0 <= i < decimal(n).len() ==> '0' <= #[trigger] decimal(n)[i] <= '9',
        decimal(n).len() > 0,
        n > 0 ==> decimal(n)[0] != '0',
    decreases n,
{
    if n < 10 {
        assert(decimal(n).drop_last() =~= Seq::empty());
        assert(spelled(decimal(n).drop_last()) == 0);
        assert(digit(n) as int == 48 + n);
    } else {
        law_digits_spell_the_number(n / 10);
        assert(decimal(n).drop_last() =~= decimal(n / 10));
        assert(digit(n % 10) as int == 48 + n % 10);
    }
}

/// Trimming a text takes away the separators at its end, all of them and
/// nothing else.
pub proof fn law_only_the_end_is_trimmed(text: Seq<char>, end: char)
    ensures
        ({
            let out = trim_end(text, end);
            &&& out.len() <= text.len()
            &&& out == text.take(out.len() as int)
            &&& forall|i: int| out.len() <= i < text.len() ==> text[i] == end
            &&& out.len() > 0 ==> out.last() != end
        }),
    decreases text.len(),
{
    if text.len() > 0 && text.last() == end {
        let front = text.drop_last();
        law_only_the_end_is_trimmed(front, end);
        let out = trim_end(text, end);
        assert(front.take(out.len() as int) =~= text.take(out.len() as int));
        assert forall|i: int| out.len() <= i < text.len() implies text[i] == end by {
            if i < front.len() {
                assert(front[i] == text[i]);
            }
        }
    } else {
        assert(text.take(text.len() as int) =~= text);
    }
}

/// The parts of a text hold no separator, and joined by it they are the text.
pub proof fn law_parts_make_up_the_text(text: Seq<char>, separator: char)
    ensures
        join(split_all(text, separator), seq![separator]) == text,
        forall|i: int, j: int|
            0 <= i < split_all(text, separator).len() && 0 <= j < split_all(
                text,
                separator,
            )[i].len() ==> (#[trigger] split_all(text, separator)[i][j]) != separator,
    decreases text.len(),
{
    lemma_find(text, separator);
    let all = split_all(text, separator);
    match find(text, separator) {
        Some(at) => {
            let rest = text.skip(at + 1);
            law_parts_make_up_the_text(rest, separator);
            lemma_split_all_nonempty(rest, separator);
            assert(all.drop_first() =~= split_all(rest, separator));
            assert(text.take(at) + seq![separator] + rest =~= text);
            assert forall|i: int, j: int| 0 <= i < all.len() && 0 <= j < all[i].len() implies (
            #[trigger] all[i][j]) != separator by {
                if i > 0 {
                    assert(all[i] == split_all(rest, separator)[i - 1]);
                } else {
                    assert(all[0][j] == text[j]);
                }
            }
        },
        None => {},
    }
}

} // verus!
