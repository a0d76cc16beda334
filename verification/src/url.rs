//! The addresses at which the pages of the listing are served.

use vstd::prelude::*;
use vstd::string::*;

use crate::sort::{
    is_lowercase_letter, lemma_token_is_lowercase_word, lemma_tokens_are_distinct, SortBy,
};

verus! {

/// The address under which every page of the listing lies.
pub open spec fn listing_root() -> Seq<char> {
    "https://beatsaver.com/api/maps/"@
}

/// The character that writes the digit `d`.
pub open spec fn digit(d: nat) -> char {
    "0123456789"@[d as int]
}

/// The digit that `c` writes; 0 for any other character.
pub open spec fn digit_value(c: char) -> nat {
    match c {
        '1' => 1,
        '2' => 2,
        '3' => 3,
        '4' => 4,
        '5' => 5,
        '6' => 6,
        '7' => 7,
        '8' => 8,
        '9' => 9,
        _ => 0,
    }
}

/// `n` in decimal notation: its digits from the most significant to the
/// least, with no leading zero but for zero itself.
pub open spec fn decimal(n: nat) -> Seq<char>
    decreases n,
{
    if n < 10 {
        seq![digit(n)]
    } else {
        decimal(n / 10).push(digit(n % 10))
    }
}

/// The number that a string of digits writes in decimal notation.
pub open spec fn decimal_value(digits: Seq<char>) -> nat
    decreases digits.len(),
{
    if digits.len() == 0 {
        0
    } else {
        10 * decimal_value(digits.drop_last()) + digit_value(digits.last())
    }
}

/// The address of page `page` of the listing in the order `sort_by`.
pub open spec fn page_url(sort_by: SortBy, page: u32) -> Seq<char> {
    listing_root() + sort_by.token() + "/"@ + decimal(page as nat)
}

/// Decimal notation uses digits only, starts with a zero for zero alone, and
/// reads back as the number it was written for.
pub proof fn lemma_decimal_reads_back(n: nat)
    ensures
        decimal(n).len() > 0,
        forall|i: int| 0 <= i < decimal(n).len() ==> '0' <= #[trigger] decimal(n)[i] <= '9',
        decimal(n)[0] == '0' <==> n == 0,
        decimal_value(decimal(n)) == n,
    decreases n,
{
    reveal_strlit("0123456789");
    if n < 10 {
        assert(decimal(n).drop_last() =~= Seq::<char>::empty());
        assert(decimal_value(decimal(n).drop_last()) == 0);
    } else {
        lemma_decimal_reads_back(n / 10);
        assert(decimal(n).drop_last() =~= decimal(n / 10));
        assert(decimal(n)[0] == decimal(n / 10)[0]);
    }
}

/// No two pages share an address: an address tells both the order and the
/// number of its page.
pub proof fn lemma_addresses_are_distinct(
    sort_a: SortBy,
    page_a: u32,
    sort_b: SortBy,
    page_b: u32,
)
    ensures
        page_url(sort_a, page_a) == page_url(sort_b, page_b) <==> sort_a == sort_b && page_a
            == page_b,
{
    let url_a = page_url(sort_a, page_a);
    let url_b = page_url(sort_b, page_b);
    if url_a == url_b {
        let base = listing_root().len() as int;
        let token_a = sort_a.token();
        let token_b = sort_b.token();
        let digits_a = decimal(page_a as nat);
        let digits_b = decimal(page_b as nat);
        reveal_strlit("/");
        lemma_token_is_lowercase_word(sort_a);
        lemma_token_is_lowercase_word(sort_b);
        assert(url_a[base + token_a.len()] == '/');
        assert(url_b[base + token_b.len()] == '/');
        if token_a.len() < token_b.len() {
            assert(url_b[base + token_a.len()] == token_b[token_a.len() as int]);
            assert(is_lowercase_letter(token_b[token_a.len() as int]));
        }
        if token_b.len() < token_a.len() {
            assert(url_a[base + token_b.len()] == token_a[token_b.len() as int]);
            assert(is_lowercase_letter(token_a[token_b.len() as int]));
        }
        assert(token_a =~= token_b) by {
            assert forall|i: int| 0 <= i < token_a.len() implies token_a[i] == token_b[i] by {
                assert(url_a[base + i] == token_a[i]);
                assert(url_b[base + i] == token_b[i]);
            }
        }
        lemma_tokens_are_distinct(sort_a, sort_b);
        let start = base + token_a.len() + 1;
        assert(url_a.len() == start + digits_a.len());
        assert(url_b.len() == start + digits_b.len());
        assert(digits_a =~= digits_b) by {
            assert forall|i: int| 0 <= i < digits_a.len() implies digits_a[i] == digits_b[i] by {
                assert(url_a[start + i] == digits_a[i]);
                assert(url_b[start + i] == digits_b[i]);
            }
        }
        lemma_decimal_reads_back(page_a as nat);
        lemma_decimal_reads_back(page_b as nat);
    }
}

/// The one-character string that writes the digit `d`.
fn digit_str(d: u32) -> (text: &'static str)
    requires
        d < 10,
    ensures
        text@ == seq![digit(d as nat)],
{
    proof {
        reveal_strlit("0123456789");
        reveal_strlit("0");
        reveal_strlit("1");
        reveal_strlit("2");
        reveal_strlit("3");
        reveal_strlit("4");
        reveal_strlit("5");
        reveal_strlit("6");
        reveal_strlit("7");
        reveal_strlit("8");
        reveal_strlit("9");
    }
    let text = match d {
        0 => "0",
        1 => "1",
        2 => "2",
        3 => "3",
        4 => "4",
        5 => "5",
        6 => "6",
        7 => "7",
        8 => "8",
        _ => "9",
    };
    assert(text@ =~= seq![digit(d as nat)]);
    text
}

/// Appends `n` in decimal notation to `out`.
fn push_decimal(out: &mut String, n: u32)
    ensures
        final(out)@ == old(out)@ + decimal(n as nat),
    decreases n,
{
    if n >= 10 {
        push_decimal(out, n / 10);
    }
    out.append(digit_str(n % 10));
    assert(out@ =~= old(out)@ + decimal(n as nat));
}

/// The address of page `page` of the listing in the order `sort_by`.
pub fn page_address(sort_by: SortBy, page: u32) -> (url: String)
    ensures
        url@ == page_url(sort_by, page),
{
    let mut url = String::from_str("https://beatsaver.com/api/maps/");
    url.append(sort_by.path());
    url.append("/");
    push_decimal(&mut url, page);
    assert(url@ =~= page_url(sort_by, page));
    url
}

} // verus!
