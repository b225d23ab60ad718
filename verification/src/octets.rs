//! Byte strings as they stand on the wire: comparison, ASCII case, optional
//! white space and comma-separated lists.

use vstd::prelude::*;
use vstd::string::*;

verus! {

/// The byte `,`.
pub const COMMA: u8 = 44;

/// The bytes of a piece of text in UTF-8.
pub open spec fn bytes_of(text: &str) -> Seq<u8> {
    text.spec_bytes()
}

/// Whether `b` is a space or a horizontal tab.
pub open spec fn is_blank(b: u8) -> bool {
    b == 32 || b == 9
}

/// `b` with an ASCII capital letter turned into its small letter.
pub open spec fn lower(b: u8) -> u8 {
    if 65 <= b <= 90 {
        (b + 32) as u8
    } else {
        b
    }
}

/// `s` with every ASCII capital letter turned into its small letter.
pub open spec fn lowered(s: Seq<u8>) -> Seq<u8> {
    Seq::new(s.len(), |i: int| lower(s[i]))
}

/// `s` without the blanks it starts with.
pub open spec fn trim_start(s: Seq<u8>) -> Seq<u8>
    decreases s.len(),
{
    if s.len() > 0 && is_blank(s[0]) {
        trim_start(s.skip(1))
    } else {
        s
    }
}

/// `s` without the blanks it ends with.
pub open spec fn trim_end(s: Seq<u8>) -> Seq<u8>
    decreases s.len(),
{
    if s.len() > 0 && is_blank(s.last()) {
        trim_end(s.drop_last())
    } else {
        s
    }
}

/// `s` without the blanks around it.
pub open spec fn trim(s: Seq<u8>) -> Seq<u8> {
    trim_end(trim_start(s))
}

/// The number of bytes of `s` that stand before its first comma; the length
/// of `s` where it holds no comma.
pub open spec fn head_len(s: Seq<u8>) -> int
    decreases s.len(),
{
    if s.len() == 0 || s[0] == COMMA {
        0
    } else {
        1 + head_len(s.skip(1))
    }
}

/// The members of the comma-separated list `s`, each without the blanks
/// around it. A list with n commas has n + 1 members, some of them possibly
/// empty.
pub open spec fn list_members(s: Seq<u8>) -> Seq<Seq<u8>>
    decreases s.len(),
{
    let n = head_len(s);
    if 0 <= n < s.len() {
        seq![trim(s.take(n))] + list_members(s.skip(n + 1))
    } else {
        seq![trim(s)]
    }
}

/// `items` written one after another with a comma between neighbours.
pub open spec fn comma_joined(items: Seq<Seq<u8>>) -> Seq<u8>
    decreases items.len(),
{
    if items.len() == 0 {
        Seq::empty()
    } else if items.len() == 1 {
        items[0]
    } else {
        comma_joined(items.drop_last()) + seq![COMMA] + items.last()
    }
}

/// A stretch without a comma that ends at a comma or at the end of `s` is the
/// head of `s`.
pub proof fn lemma_head_len_is(s: Seq<u8>, n: int)
    requires
        0 <= n <= s.len(),
        forall|i: int| 0 <= i < n ==> s[i] != COMMA,
        n < s.len() ==> s[n] == COMMA,
    ensures
        head_len(s) == n,
    decreases s.len(),
{
    if s.len() == 0 || s[0] == COMMA {
    } else {
        let t = s.skip(1);
        assert forall|i: int| 0 <= i < n - 1 implies t[i] != COMMA by {
            assert(t[i] == s[i + 1]);
        }
        lemma_head_len_is(t, n - 1);
    }
}

/// A list without a comma has one member: all of it, without the blanks
/// around it.
pub proof fn law_single_member(s: Seq<u8>)
    requires
        !s.contains(COMMA),
    ensures
        list_members(s) == seq![trim(s)],
{
    assert forall|i: int| 0 <= i < s.len() implies s[i] != COMMA by {
        if s[i] == COMMA {
            assert(s.contains(COMMA));
        }
    }
    lemma_head_len_is(s, s.len() as int);
}

/// The members of a list are what stands before its first comma, and then
/// the members of what stands behind that comma.
pub proof fn law_first_member(head: Seq<u8>, rest: Seq<u8>)
    requires
        !head.contains(COMMA),
    ensures
        list_members(head + seq![COMMA] + rest) == seq![trim(head)] + list_members(rest),
{
    let s = head + seq![COMMA] + rest;
    assert forall|i: int| 0 <= i < head.len() implies s[i] != COMMA by {
        if head[i] == COMMA {
            assert(head.contains(COMMA));
        }
    }
    lemma_head_len_is(s, head.len() as int);
    assert(s.take(head.len() as int) =~= head);
    assert(s.skip(head.len() as int + 1) =~= rest);
}

/// What is left of `s` without the blanks around it neither starts nor ends
/// with a blank, and is the whole of `s` where `s` does neither.
pub proof fn law_trim(s: Seq<u8>)
    ensures
        trim(s).len() > 0 ==> !is_blank(trim(s)[0]) && !is_blank(trim(s).last()),
        s.len() > 0 && !is_blank(s[0]) && !is_blank(s.last()) ==> trim(s) == s,
{
    lemma_trim_start(s);
    lemma_trim_end(trim_start(s));
}

proof fn lemma_trim_start(s: Seq<u8>)
    ensures
        trim_start(s).len() > 0 ==> !is_blank(trim_start(s)[0]),
    decreases s.len(),
{
    if s.len() > 0 && is_blank(s[0]) {
        lemma_trim_start(s.skip(1));
    }
}

proof fn lemma_trim_end(s: Seq<u8>)
    ensures
        trim_end(s).len() > 0 ==> !is_blank(trim_end(s).last()),
        trim_end(s).len() > 0 ==> trim_end(s)[0] == s[0],
        trim_end(s).len() <= s.len(),
    decreases s.len(),
{
    if s.len() > 0 && is_blank(s.last()) {
        lemma_trim_end(s.drop_last());
    }
}

/// Turning capital letters into small ones moves no comma and no blank:
/// the members of the list in small letters are the members of the list,
/// each in small letters.
pub proof fn law_members_lowered(s: Seq<u8>)
    ensures
        list_members(lowered(s)).len() == list_members(s).len(),
        forall|i: int|
            0 <= i < list_members(s).len() ==> #[trigger] list_members(lowered(s))[i] == lowered(
                list_members(s)[i],
            ),
    decreases s.len(),
{
    lemma_head_len_lowered(s);
    lemma_head_len_bounds(s);
    let n = head_len(s);
    if 0 <= n < s.len() {
        let rest = s.skip(n + 1);
        law_members_lowered(rest);
        assert(lowered(s).skip(n + 1) =~= lowered(rest));
        assert(lowered(s).take(n) =~= lowered(s.take(n)));
        lemma_trim_lowered(s.take(n));
        assert forall|i: int| 0 <= i < list_members(s).len() implies #[trigger] list_members(
            lowered(s),
        )[i] == lowered(list_members(s)[i]) by {
            if i > 0 {
                assert(list_members(s)[i] == list_members(rest)[i - 1]);
                assert(list_members(lowered(s))[i] == list_members(lowered(rest))[i - 1]);
            }
        }
    } else {
        lemma_trim_lowered(s);
    }
}

proof fn lemma_head_len_bounds(s: Seq<u8>)
    ensures
        0 <= head_len(s) <= s.len(),
    decreases s.len(),
{
    if !(s.len() == 0 || s[0] == COMMA) {
        lemma_head_len_bounds(s.skip(1));
    }
}

proof fn lemma_head_len_lowered(s: Seq<u8>)
    ensures
        head_len(lowered(s)) == head_len(s),
    decreases s.len(),
{
    if !(s.len() == 0 || s[0] == COMMA) {
        lemma_head_len_lowered(s.skip(1));
        assert(lowered(s).skip(1) =~= lowered(s.skip(1)));
    }
}

proof fn lemma_trim_start_lowered(s: Seq<u8>)
    ensures
        trim_start(lowered(s)) == lowered(trim_start(s)),
    decreases s.len(),
{
    if s.len() > 0 && is_blank(s[0]) {
        lemma_trim_start_lowered(s.skip(1));
        assert(lowered(s).skip(1) =~= lowered(s.skip(1)));
    }
}

proof fn lemma_trim_end_lowered(s: Seq<u8>)
    ensures
        trim_end(lowered(s)) == lowered(trim_end(s)),
    decreases s.len(),
{
    if s.len() > 0 && is_blank(s.last()) {
        lemma_trim_end_lowered(s.drop_last());
        assert(lowered(s).drop_last() =~= lowered(s.drop_last()));
    }
}

proof fn lemma_trim_lowered(s: Seq<u8>)
    ensures
        trim(lowered(s)) == lowered(trim(s)),
{
    lemma_trim_start_lowered(s);
    lemma_trim_end_lowered(trim_start(s));
}

/// Whether two byte strings are equal.
pub(crate) fn bytes_eq(a: &[u8], b: &[u8]) -> (equal: bool)
    ensures
        equal == (a@ == b@),
{
    if a.len() != b.len() {
        return false;
    }
    let mut i: usize = 0;
    while i < a.len()
        invariant
            a.len() == b.len(),
            i <= a.len(),
            forall|j: int| 0 <= j < i ==> a@[j] == b@[j],
        decreases a.len() - i,
    {
        if a[i] != b[i] {
            return false;
        }
        i += 1;
    }
    assert(a@ =~= b@);
    true
}

/// The small letter of an ASCII capital letter, any other byte unchanged.
pub(crate) fn to_lower(b: u8) -> (l: u8)
    ensures
        l == lower(b),
{
    if 65 <= b && b <= 90 {
        b + 32
    } else {
        b
    }
}

/// Whether the stretch `from..to` of `s`, in small letters, is `name`.
pub(crate) fn stretch_is(s: &[u8], from: usize, to: usize, name: &[u8]) -> (same: bool)
    requires
        from <= to <= s.len(),
    ensures
        same == (lowered(s@.subrange(from as int, to as int)) == name@),
{
    let ghost part = s@.subrange(from as int, to as int);
    if to - from != name.len() {
        return false;
    }
    let mut i: usize = 0;
    while i < name.len()
        invariant
            from <= to <= s.len(),
            to - from == name.len(),
            part == s@.subrange(from as int, to as int),
            i <= name.len(),
            forall|j: int| 0 <= j < i ==> lower(part[j]) == name@[j],
        decreases name.len() - i,
    {
        if to_lower(s[from + i]) != name[i] {
            assert(lowered(part)[i as int] != name@[i as int]);
            return false;
        }
        i += 1;
    }
    assert(lowered(part) =~= name@);
    true
}

/// The bounds of the stretch `from..to` of `s` once the blanks around it are
/// left out.
pub(crate) fn trim_stretch(s: &[u8], from: usize, to: usize) -> (bounds: (usize, usize))
    requires
        from <= to <= s.len(),
    ensures
        from <= bounds.0 <= bounds.1 <= to,
        s@.subrange(bounds.0 as int, bounds.1 as int) == trim(s@.subrange(from as int, to as int)),
{
    let mut a: usize = from;
    while a < to && (s[a] == 32 || s[a] == 9)
        invariant
            from <= a <= to <= s.len(),
            trim_start(s@.subrange(a as int, to as int)) == trim_start(
                s@.subrange(from as int, to as int),
            ),
        decreases to - a,
    {
        assert(s@.subrange(a as int, to as int).skip(1) =~= s@.subrange(a as int + 1, to as int));
        a += 1;
    }
    let mut b: usize = to;
    while a < b && (s[b - 1] == 32 || s[b - 1] == 9)
        invariant
            a <= b <= to <= s.len(),
            trim_end(s@.subrange(a as int, b as int)) == trim_end(s@.subrange(a as int, to as int)),
        decreases b - a,
    {
        assert(s@.subrange(a as int, b as int).drop_last() =~= s@.subrange(a as int, b as int - 1));
        b -= 1;
    }
    (a, b)
}

/// Appends `tail` to `out`.
pub(crate) fn push_all(out: &mut Vec<u8>, tail: &[u8])
    ensures
        final(out)@ == old(out)@ + tail@,
{
    let mut i: usize = 0;
    while i < tail.len()
        invariant
            i <= tail.len(),
            out@ == old(out)@ + tail@.take(i as int),
        decreases tail.len() - i,
    {
        out.push(tail[i]);
        assert(tail@.take(i as int + 1) =~= tail@.take(i as int).push(tail@[i as int]));
        assert(out@ =~= old(out)@ + tail@.take(i as int + 1));
        i += 1;
    }
    assert(tail@.take(tail.len() as int) =~= tail@);
}

} // verus!
