//! Small operations on byte strings and lists of texts.
use vstd::prelude::*;
use vstd::string::StringExecFns;

verus! {

/// The characters of each text, in the order of the texts.
pub open spec fn texts_view(texts: Seq<String>) -> Seq<Seq<char>> {
    Seq::new(texts.len(), |i: int| texts[i]@)
}

/// The bytes of each byte string, in the order of the byte strings.
pub open spec fn bytes_view(items: Seq<Vec<u8>>) -> Seq<Seq<u8>> {
    Seq::new(items.len(), |i: int| items[i]@)
}

/// What is left of `s` when every item that has already occurred is dropped.
pub open spec fn first_occurrences<A>(s: Seq<A>) -> Seq<A>
    decreases s.len(),
{
    if s.len() == 0 {
        Seq::empty()
    } else {
        let kept = first_occurrences(s.drop_last());
        if kept.contains(s.last()) {
            kept
        } else {
            kept.push(s.last())
        }
    }
}

/// Whether `a` stands in `s` before `b` does for the first time.
pub open spec fn comes_before<A>(s: Seq<A>, a: A, b: A) -> bool {
    exists|p: int|
        0 <= p < s.len() && #[trigger] s[p] == a && forall|q: int|
            0 <= q < s.len() && #[trigger] s[q] == b ==> p < q
}

/// Drops from `src` every text that has already occurred, and keeps the others in their
/// order.
pub fn dedup_ord(src: &[String]) -> (kept: Vec<String>)
    ensures
        texts_view(kept@) == first_occurrences(texts_view(src@)),
        forall|i: int, j: int|
            0 <= i < j < kept@.len() ==> (#[trigger] kept@[i])@ != (#[trigger] kept@[j])@,
        forall|i: int|
            0 <= i < src@.len() ==> exists|k: int|
                0 <= k < kept@.len() && #[trigger] kept@[k]@ == (#[trigger] src@[i])@,
        forall|k: int|
            0 <= k < kept@.len() ==> exists|i: int|
                0 <= i < src@.len() && #[trigger] src@[i]@ == (#[trigger] kept@[k])@,
{
    let mut kept: Vec<String> = Vec::new();
    let mut i: usize = 0;
    let ghost all = texts_view(src@);
    assert(texts_view(kept@) =~= first_occurrences(all.take(0)));
    while i < src.len()
        invariant
            i <= src@.len(),
            all == texts_view(src@),
            texts_view(kept@) == first_occurrences(all.take(i as int)),
        decreases src@.len() - i,
    {
        let mut seen: bool = false;
        let mut j: usize = 0;
        while j < kept.len()
            invariant
                i < src@.len(),
                j <= kept@.len(),
                seen <==> exists|k: int| 0 <= k < j && (#[trigger] kept@[k])@ == src@[i as int]@,
            decreases kept@.len() - j,
        {
            if kept[j] == src[i] {
                seen = true;
            }
            j += 1;
        }
        let ghost before = kept@;
        if !seen {
            kept.push(src[i].clone());
        }
        proof {
            let step = all.take(i + 1);
            assert(step.drop_last() =~= all.take(i as int));
            assert(step.last() == src@[i as int]@);
            assert(seen <==> texts_view(before).contains(step.last())) by {
                if seen {
                    let k = choose|k: int|
                        0 <= k < before.len() && (#[trigger] before[k])@ == src@[i as int]@;
                    assert(texts_view(before)[k] == step.last());
                }
                if texts_view(before).contains(step.last()) {
                    let k = choose|k: int|
                        0 <= k < texts_view(before).len() && texts_view(before)[k] == step.last();
                    assert(before[k]@ == src@[i as int]@);
                }
            }
            if !seen {
                assert(texts_view(kept@) =~= texts_view(before).push(step.last()));
            }
        }
        i += 1;
    }
    assert(all.take(src@.len() as int) =~= all);
    proof {
        law_first_occurrences_are_the_items_once(all);
        let view = texts_view(kept@);
        assert forall|i: int, j: int| 0 <= i < j < kept@.len() implies (#[trigger] kept@[i])@ != (
        #[trigger] kept@[j])@ by {
            assert(view[i] != view[j]);
        }
        assert forall|i: int| 0 <= i < src@.len() implies exists|k: int|
            0 <= k < kept@.len() && #[trigger] kept@[k]@ == (#[trigger] src@[i])@ by {
            assert(all[i] == src@[i]@);
            assert(all.contains(src@[i]@));
            assert(view.contains(src@[i]@));
            let k = choose|k: int| 0 <= k < view.len() && view[k] == src@[i]@;
            assert(kept@[k]@ == src@[i]@);
        }
        assert forall|k: int| 0 <= k < kept@.len() implies exists|i: int|
            0 <= i < src@.len() && #[trigger] src@[i]@ == (#[trigger] kept@[k])@ by {
            assert(view[k] == kept@[k]@);
            assert(view.contains(kept@[k]@));
            assert(all.contains(kept@[k]@));
            let i = choose|i: int| 0 <= i < all.len() && all[i] == kept@[k]@;
            assert(src@[i]@ == kept@[k]@);
        }
    }
    kept
}

/// The decimal digit of a number below ten.
pub open spec fn decimal_digit(n: nat) -> char {
    (0x30 + n) as char
}

/// A number in decimal digits, without leading zeros.
pub open spec fn decimal_digits(n: nat) -> Seq<char>
    decreases n,
{
    if n < 10 {
        seq![decimal_digit(n)]
    } else {
        decimal_digits(n / 10).push(decimal_digit(n % 10))
    }
}

/// Writes a number in decimal digits.
pub fn decimal(n: u64) -> (digits: String)
    ensures
        digits@ == decimal_digits(n as nat),
    decreases n,
{
    proof {
        reveal_strlit("0");
        reveal_strlit("1");
        reveal_strlit("2");
        reveal_strlit("3");
        reveal_strlit("4");
        reveal_strlit("5");
        reveal_strlit("6");
        reveal_strlit("7");
        reveal_strlit("8");
        reveal_strlit("9");
    }
    let mut digits = if n < 10 {
        String::new()
    } else {
        decimal(n / 10)
    };
    let last: u64 = n % 10;
    let digit = match last {
        0 => "0",
        1 => "1",
        2 => "2",
        3 => "3",
        4 => "4",
        5 => "5",
        6 => "6",
        7 => "7",
        8 => "8",
        _ => "9",
    };
    assert(digit@ =~= seq![decimal_digit(last as nat)]);
    digits.append(digit);
    assert(digits@ =~= decimal_digits(n as nat));
    digits
}

/// Whether two addresses are the same.
pub fn same_address(a: &[u8; 20], b: &[u8; 20]) -> (same: bool)
    ensures
        same == (a@ == b@),
        same <==> forall|i: int| 0 <= i < 20 ==> a@[i] == b@[i],
{
    let mut i: usize = 0;
    while i < 20
        invariant
            i <= 20,
            forall|k: int| 0 <= k < i ==> a@[k] == b@[k],
        decreases 20 - i,
    {
        if a[i] != b[i] {
            return false;
        }
        i += 1;
    }
    assert(a@ =~= b@);
    true
}

/// The address that stands for none.
pub open spec fn zero_address() -> Seq<u8> {
    Seq::new(20, |i: int| 0u8)
}

/// Whether an address stands for none.
pub fn is_zero_address(address: &[u8; 20]) -> (zero: bool)
    ensures
        zero == (address@ == zero_address()),
        zero <==> forall|i: int| 0 <= i < 20 ==> address@[i] == 0,
{
    let mut i: usize = 0;
    while i < 20
        invariant
            i <= 20,
            forall|k: int| 0 <= k < i ==> address@[k] == 0,
        decreases 20 - i,
    {
        if address[i] != 0 {
            assert(address@[i as int] != zero_address()[i as int]);
            return false;
        }
        i += 1;
    }
    assert(address@ =~= zero_address());
    true
}

/// The items of `s` occur once each among its first occurrences, and nothing else does.
pub proof fn law_first_occurrences_are_the_items_once<A>(s: Seq<A>)
    ensures
        first_occurrences(s).no_duplicates(),
        forall|item: A| first_occurrences(s).contains(item) <==> s.contains(item),
    decreases s.len(),
{
    if s.len() > 0 {
        let rest = s.drop_last();
        let kept = first_occurrences(rest);
        law_first_occurrences_are_the_items_once(rest);
        assert forall|item: A| first_occurrences(s).contains(item) <==> s.contains(item) by {
            assert(s.contains(item) <==> rest.contains(item) || item == s.last()) by {
                if s.contains(item) {
                    let k = choose|k: int| 0 <= k < s.len() && s[k] == item;
                    if k < rest.len() {
                        assert(rest[k] == item);
                    }
                }
                if rest.contains(item) {
                    let k = choose|k: int| 0 <= k < rest.len() && rest[k] == item;
                    assert(s[k] == item);
                }
                assert(s[s.len() - 1] == s.last());
            }
            if !kept.contains(s.last()) {
                let longer = kept.push(s.last());
                if kept.contains(item) {
                    let k = choose|k: int| 0 <= k < kept.len() && kept[k] == item;
                    assert(longer[k] == item);
                }
                assert(longer[kept.len() as int] == s.last());
                if longer.contains(item) && item != s.last() {
                    let k = choose|k: int| 0 <= k < longer.len() && longer[k] == item;
                    assert(kept[k] == item);
                }
            }
        }
    }
}

/// First occurrences stand in the order in which `s` first has them.
pub proof fn law_first_occurrences_keep_order<A>(s: Seq<A>)
    ensures
        forall|i: int, j: int|
            #![trigger first_occurrences(s)[i], first_occurrences(s)[j]]
            0 <= i < j < first_occurrences(s).len() ==> comes_before(
                s,
                first_occurrences(s)[i],
                first_occurrences(s)[j],
            ),
    decreases s.len(),
{
    if s.len() > 0 {
        let rest = s.drop_last();
        let kept = first_occurrences(rest);
        let all = first_occurrences(s);
        law_first_occurrences_keep_order(rest);
        law_first_occurrences_are_the_items_once(rest);
        law_first_occurrences_are_the_items_once(s);
        assert forall|i: int, j: int| 0 <= i < j < all.len() implies comes_before(
            s,
            #[trigger] all[i],
            #[trigger] all[j],
        ) by {
            assert(all[i] == kept[i]);
            if j < kept.len() {
                assert(all[j] == kept[j]);
                assert(comes_before(rest, kept[i], kept[j]));
                let p = choose|p: int|
                    0 <= p < rest.len() && #[trigger] rest[p] == kept[i] && forall|q: int|
                        0 <= q < rest.len() && #[trigger] rest[q] == kept[j] ==> p < q;
                assert(s[p] == all[i]);
                assert forall|q: int| 0 <= q < s.len() && #[trigger] s[q] == all[j] implies p
                    < q by {
                    if q < rest.len() {
                        assert(rest[q] == kept[j]);
                    }
                }
            } else {
                assert(kept.contains(kept[i]));
                assert(rest.contains(kept[i]));
                let p = choose|p: int| 0 <= p < rest.len() && rest[p] == kept[i];
                assert(s[p] == all[i]);
                assert(!rest.contains(all[j]));
                assert forall|q: int| 0 <= q < s.len() && #[trigger] s[q] == all[j] implies p
                    < q by {
                    if q < rest.len() {
                        assert(rest[q] == all[j]);
                    }
                }
            }
        }
    }
}

/// Of two first occurrences, some place of the earlier one lies before every place of the
/// later one.
pub proof fn law_first_occurrences_by_place<A>(s: Seq<A>, i: int, j: int)
    requires
        0 <= i < j < first_occurrences(s).len(),
    ensures
        exists|p: int|
            0 <= p < s.len() && #[trigger] s[p] == first_occurrences(s)[i] && forall|q: int|
                0 <= q < s.len() && #[trigger] s[q] == first_occurrences(s)[j] ==> p < q,
{
    law_first_occurrences_keep_order(s);
    assert(comes_before(s, first_occurrences(s)[i], first_occurrences(s)[j]));
}

/// Dropping repetitions twice is dropping them once.
pub proof fn law_first_occurrences_once_is_enough<A>(s: Seq<A>)
    ensures
        first_occurrences(first_occurrences(s)) == first_occurrences(s),
{
    law_first_occurrences_are_the_items_once(s);
    lemma_nothing_to_drop(first_occurrences(s));
}

proof fn lemma_nothing_to_drop<A>(s: Seq<A>)
    requires
        s.no_duplicates(),
    ensures
        first_occurrences(s) == s,
    decreases s.len(),
{
    if s.len() > 0 {
        let rest = s.drop_last();
        lemma_nothing_to_drop(rest);
        assert(!rest.contains(s.last()));
        assert(rest.push(s.last()) =~= s);
    }
}

/// The views of texts and of byte strings hold each of them, whole and at its place.
pub proof fn law_views_hold_each_item(texts: Seq<String>, items: Seq<Vec<u8>>)
    ensures
        texts_view(texts).len() == texts.len(),
        forall|i: int| 0 <= i < texts.len() ==> #[trigger] texts_view(texts)[i] == texts[i]@,
        bytes_view(items).len() == items.len(),
        forall|i: int| 0 <= i < items.len() ==> #[trigger] bytes_view(items)[i] == items[i]@,
{
}

/// The address that stands for none has twenty bytes, all zero.
pub proof fn law_zero_address_is_zeros(address: Seq<u8>)
    ensures
        address == zero_address() <==> address.len() == 20 && forall|i: int|
            0 <= i < 20 ==> address[i] == 0,
{
    if address.len() == 20 && forall|i: int| 0 <= i < 20 ==> address[i] == 0 {
        assert(address =~= zero_address());
    }
    if address == zero_address() {
        assert forall|i: int| 0 <= i < 20 implies address[i] == 0 by {
            assert(zero_address()[i] == 0);
        }
    }
}

/// Decimal digits read back, each standing for ten times less than the one before it, give the
/// number; they are the digits 0 to 9, only the number 0 starts with 0, and a number below ten
/// has one digit.
pub proof fn law_decimal_digits_read_back(n: nat)
    ensures
        decimal_digits(n).fold_left(
            0int,
            |value: int, digit: char| value * 10 + (digit as int - 48),
        ) == n,
        decimal_digits(n).len() > 0,
        forall|i: int|
            0 <= i < decimal_digits(n).len() ==> 48 <= (#[trigger] decimal_digits(n)[i]) as int
                <= 57,
        n > 0 ==> decimal_digits(n)[0] != '0',
        n < 10 ==> decimal_digits(n).len() == 1,
    decreases n,
{
    let step = |value: int, digit: char| value * 10 + (digit as int - 48);
    let digits = decimal_digits(n);
    if n < 10 {
        reveal_with_fuel(Seq::fold_left, 2);
        assert(digits =~= seq![decimal_digit(n)]);
        assert(digits.drop_last() =~= Seq::empty());
    } else {
        law_decimal_digits_read_back(n / 10);
        assert(digits.drop_last() =~= decimal_digits(n / 10));
        assert(digits.fold_left(0int, step) == step(
            digits.drop_last().fold_left(0int, step),
            digits.last(),
        ));
        assert forall|i: int| 0 <= i < digits.len() implies 48 <= (#[trigger] digits[i]) as int
            <= 57 by {
            if i < digits.len() - 1 {
                assert(digits[i] == decimal_digits(n / 10)[i]);
            }
        }
        assert(digits[0] == decimal_digits(n / 10)[0]);
    }
}

} // verus!
