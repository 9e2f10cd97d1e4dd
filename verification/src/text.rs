//! Text building blocks: decimal numbers, string tests and message chunks.

use vstd::prelude::*;
use vstd::string::*;

verus! {

/// The character of a decimal digit.
pub open spec fn digit_char(d: nat) -> char
    recommends
        d < 10,
{
    ('0' as nat + d) as char
}

/// The decimal numeral of `n`, most significant digit first, without leading zeros.
pub open spec fn decimal(n: nat) -> Seq<char>
    decreases n,
{
    if n < 10 {
        seq![digit_char(n)]
    } else {
        decimal(n / 10).push(digit_char(n % 10))
    }
}

fn digit_str(d: usize) -> (r: &'static str)
    requires
        d < 10,
    ensures
        r@ == seq![digit_char(d as nat)],
{
    proof {
        reveal_strlit("0");
        reveal_strlit("1");
        reveal_strlit("2");
        reveal_strlit("3");
        reveal_strlit("4");
        reveal_strlit("5");
        reveal_strlit("6");
        reveal_strlit("7");
        reveal_strlit("8");
        reveal_strlit("9");
    }
    match d {
        0 => "0",
        1 => "1",
        2 => "2",
        3 => "3",
        4 => "4",
        5 => "5",
        6 => "6",
        7 => "7",
        8 => "8",
        _ => "9",
    }
}

/// Writes `n` in decimal.
pub fn decimal_string(n: usize) -> (r: String)
    ensures
        r@ == decimal(n as nat),
    decreases n,
{
    let mut text: String = if n < 10 {
        String::new()
    } else {
        decimal_string(n / 10)
    };
    text.append(digit_str(n % 10));
    text
}

/// Whether two strings hold the same characters.
pub fn same_text(a: &String, b: &str) -> (r: bool)
    ensures
        r == (a@ == b@),
{
    *a == b.to_owned()
}

/// `text` cut into pieces of `size` characters, the last one possibly shorter.
pub open spec fn chunks(text: Seq<char>, size: nat) -> Seq<Seq<char>>
    decreases text.len(),
{
    if text.len() == 0 || size == 0 {
        Seq::empty()
    } else if text.len() <= size {
        seq![text]
    } else {
        seq![text.take(size as int)] + chunks(text.skip(size as int), size)
    }
}

/// The characters of each string of a list.
pub open spec fn texts(list: Seq<String>) -> Seq<Seq<char>> {
    list.map_values(|s: String| s@)
}

/// Cuts `text` into pieces of `size` characters.
pub fn split_chunks(text: &String, size: usize) -> (r: Vec<String>)
    requires
        size > 0,
    ensures
        texts(r@) == chunks(text@, size as nat),
{
    let total: usize = text.as_str().unicode_len();
    let mut pieces: Vec<String> = Vec::new();
    let mut from: usize = 0;
    proof {
        assert(text@.skip(0) =~= text@);
        assert(texts(pieces@) + chunks(text@, size as nat) =~= chunks(text@, size as nat));
    }
    while from < total
        invariant
            from <= total,
            total == text@.len(),
            size > 0,
            texts(pieces@) + chunks(text@.skip(from as int), size as nat) == chunks(
                text@,
                size as nat,
            ),
        decreases total - from,
    {
        let to: usize = if total - from <= size {
            total
        } else {
            from + size
        };
        let piece: String = text.as_str().substring_char(from, to).to_owned();
        let ghost before = texts(pieces@);
        let ghost rest = text@.skip(from as int);
        pieces.push(piece);
        proof {
            assert(texts(pieces@) =~= before.push(piece@));
            assert(piece@ =~= rest.take(to - from));
            assert(rest.skip(to - from) =~= text@.skip(to as int));
            if rest.len() <= size {
                assert(rest.take(to - from) =~= rest);
                assert(chunks(rest, size as nat) =~= seq![piece@]);
                assert(chunks(text@.skip(to as int), size as nat) =~= Seq::<Seq<char>>::empty());
            }
            assert(before + chunks(rest, size as nat) =~= before.push(piece@) + chunks(
                text@.skip(to as int),
                size as nat,
            ));
        }
        from = to;
    }
    proof {
        assert(chunks(text@.skip(from as int), size as nat) =~= Seq::<Seq<char>>::empty());
        assert(texts(pieces@) + Seq::<Seq<char>>::empty() =~= texts(pieces@));
    }
    pieces
}

/// The number that a string of decimal digits stands for.
pub open spec fn numeral_value(digits: Seq<char>) -> nat
    decreases digits.len(),
{
    if digits.len() == 0 {
        0
    } else {
        (numeral_value(digits.drop_last()) * 10 + (digits.last() as nat - '0' as nat)) as nat
    }
}

/// A decimal numeral consists of digits and reads back as the number it was written from.
pub proof fn law_decimal_reads_back(n: nat)
    ensures
        decimal(n).len() > 0,
        forall|i: int| 0 <= i < decimal(n).len() ==> '0' <= #[trigger] decimal(n)[i] <= '9',
        numeral_value(decimal(n)) == n,
    decreases n,
{
    if n < 10 {
        assert(decimal(n).drop_last() =~= Seq::<char>::empty());
        assert(numeral_value(Seq::<char>::empty()) == 0);
    } else {
        law_decimal_reads_back(n / 10);
        assert(decimal(n).drop_last() =~= decimal(n / 10));
    }
}

/// Different numbers have different decimal numerals.
pub proof fn law_decimal_tells_numbers_apart(a: nat, b: nat)
    requires
        decimal(a) == decimal(b),
    ensures
        a == b,
{
    law_decimal_reads_back(a);
    law_decimal_reads_back(b);
}

/// The chunks of a text put together again are the text. No chunk is empty or too long, and
/// only the last one may be short.
pub proof fn law_chunks_rebuild_text(text: Seq<char>, size: nat)
    requires
        size > 0,
    ensures
        chunks(text, size).flatten() == text,
        chunks(text, size).len() == 0 <==> text.len() == 0,
        forall|i: int|
            0 <= i < chunks(text, size).len() ==> 0 < (#[trigger] chunks(text, size)[i]).len()
                <= size,
        forall|i: int|
            0 <= i < chunks(text, size).len() - 1 ==> (#[trigger] chunks(text, size)[i]).len()
                == size,
    decreases text.len(),
{
    let all = chunks(text, size);
    if text.len() == 0 {
        assert(all.flatten() =~= text);
    } else if text.len() <= size {
        assert(all.drop_first() =~= Seq::<Seq<char>>::empty());
        assert(all.drop_first().flatten() =~= Seq::<char>::empty());
        assert(all.flatten() =~= text);
    } else {
        let rest = text.skip(size as int);
        law_chunks_rebuild_text(rest, size);
        assert(all.drop_first() =~= chunks(rest, size));
        assert(all.flatten() =~= text);
        assert forall|i: int| 0 <= i < all.len() implies 0 < (#[trigger] all[i]).len() <= size by {
            if i > 0 {
                assert(all[i] == chunks(rest, size)[i - 1]);
            }
        }
        assert forall|i: int| 0 <= i < all.len() - 1 implies (#[trigger] all[i]).len() == size by {
            if i > 0 {
                assert(all[i] == chunks(rest, size)[i - 1]);
            }
        }
    }
}

/// Decimal numerals are written digit by digit: a number below ten is its digit, and a digit
/// behind a numeral multiplies by ten and adds.
pub proof fn law_decimal_digit_by_digit(n: nat, d: nat)
    requires
        d < 10,
    ensures
        decimal(d) == seq!["0123456789"@[d as int]],
        n > 0 ==> decimal(10 * n + d) == decimal(n).push("0123456789"@[d as int]),
{
    reveal_strlit("0123456789");
    assert(digit_char(d) == "0123456789"@[d as int]);
    if n > 0 {
        assert((10 * n + d) / 10 == n);
        assert((10 * n + d) % 10 == d);
    }
}

/// A list of strings has one text for each string, in the same place.
pub proof fn law_texts_are_the_strings(list: Seq<String>)
    ensures
        texts(list).len() == list.len(),
        forall|i: int| 0 <= i < list.len() ==> #[trigger] texts(list)[i] == list[i]@,
{
}

} // verus!
