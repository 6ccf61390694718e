//! The words that every machine defines in Forth when it starts.

use vstd::prelude::*;

verus! {

/// The source of the prelude, one definition to a line.
pub const PRELUDE: &'static str = "\\ stack\
    \n: NIP SWAP DROP ;\
    \n: TUCK SWAP OVER ;\
    \n: 2DUP OVER OVER ;\
    \n: 2DROP DROP DROP ;\
    \n\\ arithmetic\
    \n: NEGATE 0 SWAP - ;\
    \n: ABS DUP 0 < IF NEGATE THEN ;\
    \n: MIN 2DUP > IF SWAP THEN DROP ;\
    \n: MAX 2DUP < IF SWAP THEN DROP ;\
    \n: 1+ 1 + ;\
    \n: 1- 1 - ;\
    \n: 2* 2 * ;\
    \n: 2/ 2 / ;\
    \n\\ comparison\
    \n: 0= 0 = ;\
    \n: 0< 0 < ;\
    \n: <> = NOT ;\
    \n: TRUE -1 ;\
    \n: FALSE 0 ;\
    \n\\ the swarm\
    \n: SWARM-ON AUTO-DISCOVER AUTO-SHARE AUTO-SPAWN AUTO-CULL .\" swarm mode\" CR ;\n";

/// The source of the prelude.
pub fn prelude() -> (s: &'static str)
    ensures
        s@ == PRELUDE@,
{
    PRELUDE
}

} // verus!
