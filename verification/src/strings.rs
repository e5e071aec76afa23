//! Reading a string character by character.

use vstd::prelude::*;
use vstd::std_specs::iter::IteratorSpec;
use vstd::string::next_postcondition;
use vstd::string::axiom_spec_iter;

verus! {

/// The characters of `text`, in order.
pub fn chars_of(text: &str) -> (chars: Vec<char>)
    ensures
        chars@ == text@,
{
    broadcast use next_postcondition, axiom_spec_iter;
    let mut chars: Vec<char> = Vec::new();
    let mut it = text.chars();
    loop
        invariant
            it.obeys_prophetic_iter_laws(),
            it.decrease() is Some,
            chars@ + it.remaining() == text@,
        ensures
            chars@ == text@,
        decreases it.decrease()->0,
    {
        let ghost before = it;
        match it.next() {
            Some(c) => {
                proof {
                    assert(before.remaining().len() > 0);
                    assert(chars@.push(c) + it.remaining() =~= chars@ + before.remaining());
                }
                chars.push(c);
            },
            None => {
                proof {
                    assert(before.remaining().len() == 0);
                    assert(chars@ + before.remaining() =~= chars@);
                }
                break;
            },
        }
    }
    chars
}

} // verus!
