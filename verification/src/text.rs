//! Text of numbers, and comparison of texts.
use vstd::prelude::*;
use vstd::string::*;

verus! {

/// The decimal digits of `n`, most significant first, without leading zeros.
pub open spec fn decimal(n: nat) -> Seq<char>
    decreases n,
{
    if n < 10 {
        seq![(48 + n) as char]
    } else {
        decimal(n / 10).push((48 + n % 10) as char)
    }
}

/// The digit of a number below ten.
fn digit(n: u64) -> (text: &'static str)
    requires
        n < 10,
    ensures
        text@ == decimal(n as nat),
{
    proof {
        reveal_strlit("0");
        reveal_strlit("1");
        reveal_strlit("2");
        reveal_strlit("3");
        reveal_strlit("4");
        reveal_strlit("5");
        reveal_strlit("6");
        reveal_strlit("7");
        reveal_strlit("8");
        reveal_strlit("9");
    }
    let text = match n {
        0 => "0",
        1 => "1",
        2 => "2",
        3 => "3",
        4 => "4",
        5 => "5",
        6 => "6",
        7 => "7",
        8 => "8",
        _ => "9",
    };
    assert(text@ =~= decimal(n as nat));
    text
}

/// The decimal digits of a number.
pub fn decimal_text(n: u64) -> (text: String)
    ensures
        text@ == decimal(n as nat),
    decreases n,
{
    if n < 10 {
        digit(n).to_owned()
    } else {
        let mut text = decimal_text(n / 10);
        text.append(digit(n % 10));
        assert(text@ =~= decimal(n as nat));
        text
    }
}

/// Whether two texts have the same characters.
pub(crate) fn same_text(a: &str, b: &str) -> (same: bool)
    ensures
        same == (a@ == b@),
{
    a.to_owned() == b.to_owned()
}

/// `part` is in the text at place `i`.
pub open spec fn occurs_at(text: Seq<char>, part: Seq<char>, i: int) -> bool {
    0 <= i && i + part.len() <= text.len() && text.subrange(i, i + part.len()) == part
}

/// `part` is in the text at place `i`, and at none before.
pub open spec fn first_at(text: Seq<char>, part: Seq<char>, i: int) -> bool {
    occurs_at(text, part, i) && forall|j: int| 0 <= j < i ==> !#[trigger] occurs_at(text, part, j)
}

/// The text with the first `part` in it replaced by `other`.
pub open spec fn replaced(text: Seq<char>, part: Seq<char>, other: Seq<char>) -> Seq<char> {
    if exists|i: int| first_at(text, part, i) {
        let i = choose|i: int| first_at(text, part, i);
        text.take(i) + other + text.skip(i + part.len())
    } else {
        text
    }
}

/// The text with the first `part` in it replaced by `other`.
pub(crate) fn replace_first(text: &str, part: &str, other: &str) -> (result: String)
    ensures
        result@ == replaced(text@, part@, other@),
{
    let n: usize = text.unicode_len();
    let m: usize = part.unicode_len();
    let mut i: usize = 0;
    while i <= n && m <= n - i
        invariant
            n == text@.len(),
            m == part@.len(),
            i <= n,
            forall|j: int| 0 <= j < i ==> !#[trigger] occurs_at(text@, part@, j),
        decreases n + 1 - i,
    {
        if same_text(text.substring_char(i, i + m), part) {
            assert(first_at(text@, part@, i as int));
            assert forall|k: int| first_at(text@, part@, k) implies k == i by {
                if k < i {
                    assert(!occurs_at(text@, part@, k));
                } else if i < k {
                    assert(!occurs_at(text@, part@, i as int));
                }
            }
            let mut result = text.substring_char(0, i).to_owned();
            result.append(other);
            result.append(text.substring_char(i + m, n));
            assert(result@ =~= replaced(text@, part@, other@));
            return result;
        }
        assert(m > 0) by {
            if m == 0 {
                assert(text@.subrange(i as int, i as int) =~= part@);
            }
        }
        i = i + 1;
    }
    assert forall|k: int| !first_at(text@, part@, k) by {
        if 0 <= k < i {
            assert(!occurs_at(text@, part@, k));
        }
    }
    text.to_owned()
}

/// The number that decimal digits are.
pub open spec fn number(digits: Seq<char>) -> nat
    decreases digits.len(),
{
    if digits.len() == 0 {
        0
    } else {
        10 * number(digits.drop_last()) + (digits.last() as nat - 48) as nat
    }
}

/// A number is read back from its decimal text, which has digits only, and no more of them than it
/// takes.
pub proof fn law_decimal_is_read_back(n: nat)
    ensures
        number(decimal(n)) == n,
        decimal(n).len() > 0,
        decimal(n).len() > 1 ==> decimal(n)[0] != '0',
        forall|i: int| 0 <= i < decimal(n).len() ==> '0' <= #[trigger] decimal(n)[i] <= '9',
    decreases n,
{
    if n < 10 {
        assert(decimal(n).drop_last() =~= Seq::<char>::empty());
        assert(number(decimal(n).drop_last()) == 0);
    } else {
        law_decimal_is_read_back(n / 10);
        assert(decimal(n).drop_last() =~= decimal(n / 10));
        if decimal(n).len() == 2 {
            assert(number(decimal(n / 10).drop_last()) == 0) by {
                assert(decimal(n / 10).drop_last() =~= Seq::<char>::empty());
            }
        }
    }
}

/// Replacing puts the other text where the part is first, and leaves what is before and behind it as
/// it is; without the part there is nothing to replace.
pub proof fn law_only_the_first_is_replaced(
    text: Seq<char>,
    part: Seq<char>,
    other: Seq<char>,
    before: Seq<char>,
    behind: Seq<char>,
)
    requires
        text == before + part + behind,
        forall|i: int|
            0 <= i < before.len() ==> (#[trigger] text.subrange(i, i + part.len())) != part,
    ensures
        replaced(text, part, other) == before + other + behind,
{
    let k = before.len() as int;
    assert(text.subrange(k, k + part.len()) =~= part);
    assert forall|j: int| 0 <= j < k implies !#[trigger] occurs_at(text, part, j) by {}
    assert(first_at(text, part, k));
    let i = choose|i: int| first_at(text, part, i);
    assert(i == k) by {
        if i < k {
            assert(!occurs_at(text, part, i));
        } else if k < i {
            assert(!occurs_at(text, part, k));
        }
    }
    assert(text.take(k) =~= before);
    assert(text.skip(k + part.len()) =~= behind);
}

} // verus!
