//! Text as sequences of characters: building, repeating and ordering.

use vstd::prelude::*;

verus! {

/// Taken on trust from the standard library: [`String::push`] appends the
/// character to the end of the text and changes nothing else.
pub assume_specification[ std::string::String::push ](s: &mut std::string::String, c: char)
    ensures
        final(s)@ == old(s)@.push(c),
;

/// The characters of a text, in order.
pub fn chars_of(text: &str) -> (chars: Vec<char>)
    ensures
        chars@ == text@,
{
    let mut chars: Vec<char> = Vec::new();
    for c in it: text.chars()
        invariant
            it.seq() == text@,
            chars@ == text@.subrange(0, it.index()),
    {
        chars.push(c);
    }
    chars
}

/// The text made of the characters from `from` up to, not including, `to`.
pub fn string_of(chars: &Vec<char>, from: usize, to: usize) -> (s: String)
    requires
        from <= to <= chars.len(),
    ensures
        s@ == chars@.subrange(from as int, to as int),
{
    let mut s = String::new();
    let mut i: usize = from;
    while i < to
        invariant
            from <= i <= to <= chars.len(),
            s@ == chars@.subrange(from as int, i as int),
        decreases to - i,
    {
        s.push(chars[i]);
        i += 1;
    }
    s
}

/// `count` copies of `unit`, one after the other.
pub open spec fn repeated(unit: Seq<char>, count: nat) -> Seq<char>
    decreases count,
{
    if count == 0 {
        Seq::empty()
    } else {
        repeated(unit, (count - 1) as nat) + unit
    }
}

/// Repeating the empty text gives the empty text.
pub proof fn lemma_repeated_empty(count: nat)
    ensures
        repeated(Seq::empty(), count) == Seq::<char>::empty(),
    decreases count,
{
    if count > 0 {
        lemma_repeated_empty((count - 1) as nat);
    }
}

/// The text repeated `count` times.
pub fn repeat(unit: &str, count: usize) -> (s: String)
    ensures
        s@ == repeated(unit@, count as nat),
{
    let mut s = String::new();
    if unit.unicode_len() == 0 {
        proof {
            assert(unit@ =~= Seq::<char>::empty());
            lemma_repeated_empty(count as nat);
        }
        return s;
    }
    let mut i: usize = 0;
    while i < count
        invariant
            i <= count,
            s@ == repeated(unit@, i as nat),
        decreases count - i,
    {
        s.append(unit);
        i += 1;
    }
    s
}

/// Whether `a` comes before `b` in the order of the dictionary, character by
/// character, a character being placed by its code point.
pub open spec fn precedes(a: Seq<char>, b: Seq<char>) -> bool
    decreases a.len(),
{
    if b.len() == 0 {
        false
    } else if a.len() == 0 {
        true
    } else if a[0] != b[0] {
        a[0] < b[0]
    } else {
        precedes(a.drop_first(), b.drop_first())
    }
}

/// Of two texts either one comes before the other or they are the same
/// text, and only one of the three holds.
pub proof fn law_precedes_orders(a: Seq<char>, b: Seq<char>)
    ensures
        precedes(a, b) || precedes(b, a) || a == b,
        !(precedes(a, b) && precedes(b, a)),
        !(precedes(a, b) && a == b),
    decreases a.len(),
{
    if a.len() > 0 && b.len() > 0 && a[0] == b[0] {
        law_precedes_orders(a.drop_first(), b.drop_first());
        if a.drop_first() == b.drop_first() {
            assert(a =~= seq![a[0]] + a.drop_first());
            assert(b =~= seq![b[0]] + b.drop_first());
        }
    }
}

/// Whether `a` comes before `b` in the order of the dictionary.
pub fn comes_before(a: &str, b: &str) -> (r: bool)
    ensures
        r == precedes(a@, b@),
{
    let a_chars = chars_of(a);
    let b_chars = chars_of(b);
    let mut i: usize = 0;
    assert(a@.skip(0) =~= a@ && b@.skip(0) =~= b@);
    while i < a_chars.len() && i < b_chars.len()
        invariant
            i <= a_chars.len(),
            i <= b_chars.len(),
            a_chars@ == a@,
            b_chars@ == b@,
            precedes(a@, b@) == precedes(a@.skip(i as int), b@.skip(i as int)),
        decreases a_chars.len() - i,
    {
        let x = a_chars[i];
        let y = b_chars[i];
        proof {
            let ra = a@.skip(i as int);
            let rb = b@.skip(i as int);
            assert(ra.drop_first() =~= a@.skip(i + 1));
            assert(rb.drop_first() =~= b@.skip(i + 1));
        }
        if x != y {
            return x < y;
        }
        i += 1;
    }
    i < b_chars.len()
}

} // verus!
