//! Lists of byte strings as JSON arrays of `0x`-prefixed hex strings, e.g.
//! `[[0], [0, 1, 2]]` as `["0x00", "0x000102"]`. Decoding is more lenient than
//! encoding: an element may also come without the `0x` marker.
use vstd::prelude::*;
use crate::error::CodecError;
use crate::hex::{lower_hex, prefixed, read_lenient_hex, lemma_hex_round_trip};

verus! {

/// The elements read in order; the first element that fails decides the error.
pub open spec fn read_hex_list(items: Seq<Seq<char>>) -> Result<Seq<Seq<u8>>, CodecError>
    decreases items.len(),
{
    if items.len() == 0 {
        Ok(Seq::empty())
    } else {
        match read_hex_list(items.drop_last()) {
            Err(e) => Err(e),
            Ok(prev) => match read_lenient_hex(items.last()) {
                Ok(b) => Ok(prev.push(b)),
                Err(e) => Err(e),
            },
        }
    }
}

pub open spec fn string_views(items: Seq<String>) -> Seq<Seq<char>> {
    items.map_values(|s: String| s@)
}

pub open spec fn byte_views(items: Seq<Vec<u8>>) -> Seq<Seq<u8>> {
    items.map_values(|v: Vec<u8>| v@)
}

pub open spec fn list_result(r: Result<Vec<Vec<u8>>, CodecError>) -> Result<
    Seq<Seq<u8>>,
    CodecError,
> {
    match r {
        Ok(v) => Ok(byte_views(v@)),
        Err(e) => Err(e),
    }
}

/// Reads a list of hex strings into byte strings.
pub struct ListOfBytesListVisitor;

impl ListOfBytesListVisitor {
    /// Decodes each element in order, stopping at the first that fails.
    pub fn visit_seq(self, items: &Vec<String>) -> (r: Result<Vec<Vec<u8>>, CodecError>)
        ensures
            list_result(r) == read_hex_list(string_views(items@)),
    {
        let mut out: Vec<Vec<u8>> = Vec::new();
        let mut i: usize = 0;
        assert(string_views(items@).take(0) =~= Seq::<Seq<char>>::empty());
        assert(byte_views(out@) =~= Seq::<Seq<u8>>::empty());
        while i < items.len()
            invariant
                0 <= i <= items@.len(),
                read_hex_list(string_views(items@).take(i as int)) == Ok::<
                    Seq<Seq<u8>>,
                    CodecError,
                >(byte_views(out@)),
            decreases items@.len() - i,
        {
            let ghost views = string_views(items@);
            assert(views.take(i + 1).drop_last() =~= views.take(i as int));
            assert(views.take(i + 1).last() == items@[i as int]@);
            match crate::hex::decode_lenient(items[i].as_str()) {
                Ok(b) => {
                    let ghost before = out@;
                    let ghost bv = b@;
                    out.push(b);
                    assert(byte_views(out@) =~= byte_views(before).push(bv));
                },
                Err(e) => {
                    proof {
                        lemma_hex_list_error_sticks(views, i as int + 1);
                    }
                    return Err(e);
                },
            }
            i += 1;
        }
        assert(string_views(items@).take(i as int) =~= string_views(items@));
        Ok(out)
    }
}

/// Once an element fails, every longer prefix fails with the same error.
proof fn lemma_hex_list_error_sticks(items: Seq<Seq<char>>, k: int)
    requires
        0 <= k <= items.len(),
        read_hex_list(items.take(k)) is Err,
    ensures
        read_hex_list(items) == read_hex_list(items.take(k)),
    decreases items.len() - k,
{
    if k < items.len() {
        assert(items.take(k + 1).drop_last() =~= items.take(k));
        lemma_hex_list_error_sticks(items, k + 1);
    } else {
        assert(items.take(k) =~= items);
    }
}

/// Each byte string as `0x` and two lower-case hex digits per byte, in order.
pub fn serialize(value: &[Vec<u8>]) -> (r: Vec<String>)
    ensures
        r@.len() == value@.len(),
        forall|i: int| 0 <= i < value@.len() ==> #[trigger] r@[i]@ == prefixed(lower_hex(value@[i]@)),
{
    let mut out: Vec<String> = Vec::new();
    let mut i: usize = 0;
    while i < value.len()
        invariant
            0 <= i <= value@.len(),
            out@.len() == i,
            forall|j: int| 0 <= j < i ==> #[trigger] out@[j]@ == prefixed(lower_hex(value@[j]@)),
        decreases value@.len() - i,
    {
        out.push(crate::hex::encode(value[i].as_slice()));
        i += 1;
    }
    out
}

/// Reads a list of hex strings; an empty list gives an empty list.
pub fn deserialize(items: &Vec<String>) -> (r: Result<Vec<Vec<u8>>, CodecError>)
    ensures
        list_result(r) == read_hex_list(string_views(items@)),
{
    ListOfBytesListVisitor.visit_seq(items)
}

/// Order is kept: a list that decodes gives one byte string per element, the
/// i-th from the i-th element.
pub proof fn lemma_hex_list_in_order(items: Seq<Seq<char>>)
    requires
        read_hex_list(items) is Ok,
    ensures
        read_hex_list(items)->Ok_0.len() == items.len(),
        forall|i: int|
            0 <= i < items.len() ==> read_lenient_hex(#[trigger] items[i]) == Ok::<
                Seq<u8>,
                CodecError,
            >(read_hex_list(items)->Ok_0[i]),
    decreases items.len(),
{
    if items.len() > 0 {
        let prev = items.drop_last();
        lemma_hex_list_in_order(prev);
        let out = read_hex_list(items)->Ok_0;
        assert forall|i: int| 0 <= i < items.len() implies read_lenient_hex(
            #[trigger] items[i],
        ) == Ok::<Seq<u8>, CodecError>(out[i]) by {
            if i < items.len() - 1 {
                assert(items[i] == prev[i]);
            }
        }
    }
}

/// List round trip: the strings written for a list of byte strings read back
/// as that list.
pub proof fn lemma_hex_list_round_trip(lists: Seq<Seq<u8>>)
    ensures
        read_hex_list(lists.map_values(|b: Seq<u8>| prefixed(lower_hex(b)))) == Ok::<
            Seq<Seq<u8>>,
            CodecError,
        >(lists),
    decreases lists.len(),
{
    if lists.len() > 0 {
        let items = lists.map_values(|b: Seq<u8>| prefixed(lower_hex(b)));
        lemma_hex_list_round_trip(lists.drop_last());
        assert(items.drop_last() =~= lists.drop_last().map_values(
            |b: Seq<u8>| prefixed(lower_hex(b)),
        ));
        lemma_hex_round_trip(lists.last());
        assert(lists.drop_last().push(lists.last()) =~= lists);
    } else {
        assert(lists =~= Seq::<Seq<u8>>::empty());
    }
}

} // verus!
