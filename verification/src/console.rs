use vstd::prelude::*;

verus! {

/// The characters that the console is sent for `s`, one SBI
/// `console_putchar` argument (the character's code) per character.
pub open spec fn putchar_codes(s: Seq<char>) -> Seq<usize> {
    s.map_values(|c: char| c as usize)
}

/// Writes `s` to the console: returns the argument of each
/// `console_putchar` call, in order.
pub fn print(s: &str) -> (codes: Vec<usize>)
    ensures
        codes@ == putchar_codes(s@),
        codes@.len() == s@.len(),
        forall|i: int| 0 <= i < s@.len() ==> #[trigger] codes@[i] == s@[i] as usize,
{
    let mut codes: Vec<usize> = Vec::new();
    for c in it: s.chars()
        invariant
            codes@ == putchar_codes(it.seq().take(it.index() as int)),
            it.seq() == s@,
    {
        codes.push(c as usize);
    }
    proof {
        lemma_putchar_codes_are_char_codes(s@);
    }
    codes
}

/// Every character is sent as its own code point, one per character and in
/// order.
pub proof fn lemma_putchar_codes_are_char_codes(s: Seq<char>)
    ensures
        putchar_codes(s).len() == s.len(),
        forall|i: int| 0 <= i < s.len() ==> #[trigger] putchar_codes(s)[i] == s[i] as usize,
{
}

/// Printing two strings one after the other sends the same characters as
/// printing them joined.
pub proof fn lemma_putchar_codes_concat(a: Seq<char>, b: Seq<char>)
    ensures
        putchar_codes(a + b) == putchar_codes(a) + putchar_codes(b),
{
    lemma_putchar_codes_are_char_codes(a);
    lemma_putchar_codes_are_char_codes(b);
    lemma_putchar_codes_are_char_codes(a + b);
    assert(putchar_codes(a + b) =~= putchar_codes(a) + putchar_codes(b));
}

} // verus!
