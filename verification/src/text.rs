//! Small helpers on text: decoding a string slice into characters and
//! comparing characters against a string.
use vstd::prelude::*;

verus! {

/// The characters of `text`, in order.
pub fn decode(text: &str) -> (chars: Vec<char>)
    ensures
        chars@ == text@,
{
    let mut chars: Vec<char> = Vec::new();
    for c in it: text.chars()
        invariant
            chars@ == it.seq().take(it.index() as int),
    {
        chars.push(c);
    }
    chars
}

/// Whether `chars` spells exactly `word`.
pub fn spells(chars: &Vec<char>, word: &str) -> (b: bool)
    ensures
        b == (chars@ == word@),
{
    let mut matched: usize = 0;
    let mut same = true;
    for c in it: word.chars()
        invariant
            it.seq() == word@,
            same ==> matched == it.index() && matched <= chars.len() && chars@.take(matched as int)
                == word@.take(matched as int),
            !same ==> chars@ != word@,
    {
        if same {
            if matched < chars.len() && chars[matched] == c {
                assert(chars@.take(matched + 1) == chars@.take(matched as int).push(
                    chars@[matched as int],
                ));
                assert(word@.take(matched + 1) == word@.take(matched as int).push(
                    word@[matched as int],
                ));
                matched = matched + 1;
            } else {
                assert(chars@.len() > matched ==> chars@[matched as int] != word@[matched as int]);
                same = false;
            }
        }
    }
    proof {
        if same {
            assert(matched == word@.len());
            assert(word@.take(matched as int) == word@);
            if matched == chars.len() {
                assert(chars@.take(matched as int) == chars@);
            }
        }
    }
    same && matched == chars.len()
}

} // verus!
