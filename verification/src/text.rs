//! Text helpers: decimal numbers, searching, and comparing.

use vstd::prelude::*;
use vstd::string::StringExecFns;

verus! {

/// The decimal digit `d`, for `d` below ten.
pub open spec fn digit(d: nat) -> char
    recommends
        d < 10,
{
    ('0' as int + d) as char
}

/// The usual decimal notation of `n`: no sign, no leading zeros, `0` for zero.
pub open spec fn decimal(n: nat) -> Seq<char>
    decreases n,
{
    if n < 10 {
        seq![digit(n)]
    } else {
        decimal(n / 10).push(digit(n % 10))
    }
}

/// `part` occurs somewhere in `whole`, as one run of characters.
pub open spec fn occurs_in(part: Seq<char>, whole: Seq<char>) -> bool {
    exists|at: int| #[trigger] occurs_at(part, whole, at)
}

/// `part` occurs in `whole` at position `at`.
pub open spec fn occurs_at(part: Seq<char>, whole: Seq<char>, at: int) -> bool {
    &&& 0 <= at
    &&& at + part.len() <= whole.len()
    &&& whole.subrange(at, at + part.len()) =~= part
}

/// The number that a row of decimal digits stands for.
pub open spec fn number(text: Seq<char>) -> int
    decreases text.len(),
{
    if text.len() == 0 {
        0
    } else {
        10 * number(text.drop_last()) + (text.last() as int - '0' as int)
    }
}

/// Decimal notation reads back as the number that was written, holds digits only, and has no
/// leading zero.
pub proof fn lemma_decimal_reads_back(n: nat)
    ensures
        number(decimal(n)) == n,
        decimal(n).len() > 0,
        forall|i: int|
            0 <= i < decimal(n).len() ==> '0' as int <= (#[trigger] decimal(n)[i]) as int <= '9' as int,
        decimal(n).len() > 1 ==> decimal(n)[0] != '0',
    decreases n,
{
    reveal_with_fuel(number, 2);
    let last = ('0' as int + n % 10) as char;
    assert(last as int == '0' as int + n % 10);
    if n < 10 {
        assert(decimal(n) =~= seq![last]);
        assert(seq![last].drop_last() =~= seq![]);
    } else {
        let front = decimal(n / 10);
        lemma_decimal_reads_back(n / 10);
        assert(decimal(n) =~= front.push(last));
        assert(front.push(last).drop_last() =~= front);
        assert forall|i: int| 0 <= i < decimal(n).len() implies '0' as int
            <= (#[trigger] decimal(n)[i]) as int <= '9' as int by {
            if i < front.len() {
                assert(decimal(n)[i] == front[i]);
            }
        }
        if n / 10 < 10 {
            assert(front[0] as int == '0' as int + n / 10);
        }
    }
}

/// A text occurs in another exactly if the other is made of something, this text and something
/// more.
pub proof fn lemma_occurs_between(part: Seq<char>, whole: Seq<char>)
    ensures
        occurs_in(part, whole) <==> exists|front: Seq<char>, back: Seq<char>|
            whole == #[trigger] (front + part + back),
{
    if occurs_in(part, whole) {
        let at = choose|at: int| #[trigger] occurs_at(part, whole, at);
        let front = whole.subrange(0, at);
        let back = whole.subrange(at + part.len(), whole.len() as int);
        assert(whole =~= front + whole.subrange(at, at + part.len()) + back);
        assert(whole == front + part + back);
    }
    if exists|front: Seq<char>, back: Seq<char>| whole == #[trigger] (front + part + back) {
        let (front, back) = choose|front: Seq<char>, back: Seq<char>|
            whole == #[trigger] (front + part + back);
        assert(whole.subrange(front.len() as int, (front.len() + part.len()) as int) =~= part);
        assert(occurs_at(part, whole, front.len() as int));
    }
}

/// A text occurs at the start of another exactly if the other is this text and something more.
pub proof fn lemma_occurs_at_start(part: Seq<char>, whole: Seq<char>)
    ensures
        occurs_at(part, whole, 0) <==> exists|back: Seq<char>| whole == #[trigger] (part + back),
{
    if occurs_at(part, whole, 0) {
        let back = whole.subrange(part.len() as int, whole.len() as int);
        assert(whole =~= whole.subrange(0, part.len() as int) + back);
        assert(whole == part + back);
    }
    if exists|back: Seq<char>| whole == #[trigger] (part + back) {
        let back = choose|back: Seq<char>| whole == #[trigger] (part + back);
        assert(whole.subrange(0, part.len() as int) =~= part);
    }
}

/// One decimal digit as text.
fn digit_text(d: u64) -> (r: &'static str)
    requires
        d < 10,
    ensures
        r@ =~= seq![digit(d as nat)],
{
    proof {
        reveal_strlit("0");
        reveal_strlit("1");
        reveal_strlit("2");
        reveal_strlit("3");
        reveal_strlit("4");
        reveal_strlit("5");
        reveal_strlit("6");
        reveal_strlit("7");
        reveal_strlit("8");
        reveal_strlit("9");
    }
    match d {
        0 => "0",
        1 => "1",
        2 => "2",
        3 => "3",
        4 => "4",
        5 => "5",
        6 => "6",
        7 => "7",
        8 => "8",
        _ => "9",
    }
}

/// Writes `n` in decimal.
pub fn decimal_text(n: u64) -> (r: String)
    ensures
        r@ == decimal(n as nat),
    decreases n,
{
    let mut text = if n < 10 {
        String::new()
    } else {
        decimal_text(n / 10)
    };
    text.append(digit_text(n % 10));
    text
}

/// The characters of `s`, in order.
pub fn chars_of(s: &str) -> (r: Vec<char>)
    ensures
        r@ == s@,
{
    let mut chars: Vec<char> = Vec::new();
    for c in it: s.chars()
        invariant
            chars@ == it.seq().take(it.index() as int),
    {
        chars.push(c);
    }
    chars
}

/// Whether `part` stands in `whole` at position `at`.
fn stands_at(part: &Vec<char>, whole: &Vec<char>, at: usize) -> (r: bool)
    requires
        at + part@.len() <= whole@.len(),
    ensures
        r == occurs_at(part@, whole@, at as int),
{
    let end: usize = whole.len();
    let mut i: usize = 0;
    while i < part.len()
        invariant
            i <= part@.len(),
            at + part@.len() <= end,
            end == whole@.len(),
            forall|k: int| 0 <= k < i ==> whole@[at + k] == part@[k],
        decreases part@.len() - i,
    {
        if whole[at + i] != part[i] {
            proof {
                assert(whole@.subrange(at as int, at + part@.len())[i as int] != part@[i as int]);
            }
            return false;
        }
        i += 1;
    }
    true
}

/// Whether `whole` holds `part` as one run of characters.
pub fn contains_text(whole: &str, part: &str) -> (r: bool)
    ensures
        r == occurs_in(part@, whole@),
{
    let text = chars_of(whole);
    let pattern = chars_of(part);
    if pattern.len() > text.len() {
        return false;
    }
    let last: usize = text.len() - pattern.len();
    let mut at: usize = 0;
    while at <= last
        invariant
            text@ == whole@,
            pattern@ == part@,
            pattern@.len() <= text@.len(),
            last == text@.len() - pattern@.len(),
            at <= last + 1,
            forall|k: int| 0 <= k < at ==> !occurs_at(part@, whole@, k),
        decreases last + 1 - at,
    {
        if stands_at(&pattern, &text, at) {
            return true;
        }
        if at == last {
            return false;
        }
        at += 1;
    }
    false
}

/// Whether `whole` begins with `part`.
pub fn begins_with(whole: &str, part: &str) -> (r: bool)
    ensures
        r == occurs_at(part@, whole@, 0),
{
    let text = chars_of(whole);
    let pattern = chars_of(part);
    if pattern.len() > text.len() {
        return false;
    }
    stands_at(&pattern, &text, 0)
}

/// Whether two texts hold the same characters.
pub fn same_text(a: &str, b: &str) -> (r: bool)
    ensures
        r == (a@ == b@),
{
    let left = chars_of(a);
    let right = chars_of(b);
    if left.len() != right.len() {
        return false;
    }
    let same = stands_at(&left, &right, 0);
    proof {
        assert(right@.subrange(0, right@.len() as int) =~= right@);
    }
    same
}

} // verus!
