//! The bytes to inject: the caller's data, ended with a carriage return when a
//! completed input line is asked for.

use vstd::prelude::*;

verus! {

/// The carriage return, which a shell takes as the end of a typed line.
pub const CARRIAGE_RETURN: u8 = 13;

/// Whether `d` already ends with a carriage return.
pub open spec fn ends_with_carriage_return(d: Seq<u8>) -> bool {
    d.len() > 0 && d.last() == CARRIAGE_RETURN
}

/// The bytes injected for `data`: a carriage return is appended when
/// `new_line` asks for one and `data` does not already end with one.
pub open spec fn prepared(data: Seq<u8>, new_line: bool) -> Seq<u8> {
    if new_line && !ends_with_carriage_return(data) {
        data.push(CARRIAGE_RETURN)
    } else {
        data
    }
}

/// Turns `data` into the bytes to inject.
pub fn prepare_payload(data: Vec<u8>, new_line: bool) -> (r: Vec<u8>)
    ensures
        r@ == prepared(data@, new_line),
{
    let mut data = data;
    let n = data.len();
    if new_line && (n == 0 || data[n - 1] != CARRIAGE_RETURN) {
        data.push(CARRIAGE_RETURN);
    }
    data
}

/// An empty message becomes a lone carriage return when a line is asked for,
/// and stays empty otherwise.
pub proof fn lemma_prepared_empty()
    ensures
        prepared(Seq::<u8>::empty(), true) == seq![CARRIAGE_RETURN],
        prepared(Seq::<u8>::empty(), false) == Seq::<u8>::empty(),
{
    assert(Seq::<u8>::empty().push(CARRIAGE_RETURN) =~= seq![CARRIAGE_RETURN]);
}

} // verus!
