//! Small pieces that parsers of byte streams are made of. None of them waits for more bytes.
use vstd::prelude::*;

verus! {

/// How many bytes at the start of `input` satisfy `accepts`: all up to the first one that does not.
pub fn take_while_complete<F: Fn(u8) -> bool>(input: &Vec<u8>, accepts: F) -> (n: usize)
    requires
        forall|byte: u8| call_requires(accepts, (byte,)),
    ensures
        n <= input@.len(),
        forall|i: int| 0 <= i < n ==> call_ensures(accepts, (#[trigger] input@[i],), true),
        n < input@.len() ==> call_ensures(accepts, (input@[n as int],), false),
{
    let mut n: usize = 0;
    while n < input.len()
        invariant
            n <= input@.len(),
            forall|byte: u8| call_requires(accepts, (byte,)),
            forall|i: int| 0 <= i < n ==> call_ensures(accepts, (#[trigger] input@[i],), true),
        decreases input.len() - n,
    {
        let accepted = accepts(input[n]);
        if !accepted {
            return n;
        }
        n = n + 1;
    }
    n
}

/// Like [`take_while_complete`], but input whose first byte is not accepted is refused.
pub fn take_while1_complete<F: Fn(u8) -> bool>(input: &Vec<u8>, accepts: F) -> (r: Option<usize>)
    requires
        forall|byte: u8| call_requires(accepts, (byte,)),
    ensures
        match r {
            Some(n) => {
                &&& n <= input@.len()
                &&& n == 0 ==> input@.len() == 0
                &&& forall|i: int|
                    0 <= i < n ==> call_ensures(accepts, (#[trigger] input@[i],), true)
                &&& n < input@.len() ==> call_ensures(accepts, (input@[n as int],), false)
            },
            None => input@.len() > 0 && call_ensures(accepts, (input@[0],), false),
        },
{
    let n = take_while_complete(input, accepts);
    if n == 0 && input.len() > 0 {
        return None;
    }
    Some(n)
}

/// Whether there is no input left.
pub fn empty(input: &Vec<u8>) -> (r: bool)
    ensures
        r == (input@.len() == 0),
{
    input.len() == 0
}

} // verus!
