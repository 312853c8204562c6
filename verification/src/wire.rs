//! The byte layout shared by records and instruction payloads: a variable
//! length item is written as its length, four bytes little-endian, followed
//! by its bytes.

use vstd::prelude::*;

verus! {

/// Largest length that the four-byte prefix can hold.
pub const MAX_FIELD_LEN: usize = 0xFFFF_FFFF;

/// The four little-endian bytes of `n`.
pub open spec fn le_u32(n: nat) -> Seq<u8> {
    seq![
        (n % 256) as u8,
        ((n / 256) % 256) as u8,
        ((n / 65536) % 256) as u8,
        ((n / 16777216) % 256) as u8,
    ]
}

/// The number that the first four bytes of `data` spell, little-endian.
pub open spec fn read_u32(data: Seq<u8>) -> nat
    recommends
        data.len() >= 4,
{
    (data[0] as nat) + 256 * (data[1] as nat) + 65536 * (data[2] as nat) + 16777216 * (
    data[3] as nat)
}

/// A length-prefixed item.
pub open spec fn field(body: Seq<u8>) -> Seq<u8> {
    le_u32(body.len()) + body
}

/// Splits `data` into the body of the length-prefixed item at its front and
/// what follows it. `None` where `data` is shorter than its prefix announces.
pub open spec fn take_field(data: Seq<u8>) -> Option<(Seq<u8>, Seq<u8>)> {
    if data.len() >= 4 && data.len() - 4 >= read_u32(data) {
        Some((data.subrange(4, 4 + read_u32(data) as int), data.skip(4 + read_u32(data) as int)))
    } else {
        None
    }
}

/// Several length-prefixed items, one after the other.
pub open spec fn fields(items: Seq<Seq<u8>>) -> Seq<u8>
    decreases items.len(),
{
    if items.len() == 0 {
        Seq::<u8>::empty()
    } else {
        field(items[0]) + fields(items.drop_first())
    }
}

/// Reads `count` length-prefixed items from the front of `data`; gives them
/// with what follows the last.
pub open spec fn take_fields(data: Seq<u8>, count: nat) -> Option<(Seq<Seq<u8>>, Seq<u8>)>
    decreases count,
{
    if count == 0 {
        Some((Seq::<Seq<u8>>::empty(), data))
    } else {
        match take_field(data) {
            None => None,
            Some((first, rest)) => match take_fields(rest, (count - 1) as nat) {
                None => None,
                Some((others, tail)) => Some((seq![first] + others, tail)),
            },
        }
    }
}

/// A counted list of length-prefixed items.
pub open spec fn field_list(items: Seq<Seq<u8>>) -> Seq<u8> {
    le_u32(items.len()) + fields(items)
}

/// Reads a counted list that fills `data` exactly.
pub open spec fn field_list_of(data: Seq<u8>) -> Option<Seq<Seq<u8>>> {
    if data.len() < 4 {
        None
    } else {
        match take_fields(data.skip(4), read_u32(data)) {
            Some((items, tail)) => if tail.len() == 0 {
                Some(items)
            } else {
                None
            },
            None => None,
        }
    }
}

/// A single length-prefixed item that fills `data` exactly.
pub open spec fn field_of(data: Seq<u8>) -> Option<Seq<u8>> {
    match take_field(data) {
        Some((body, rest)) => if rest.len() == 0 {
            Some(body)
        } else {
            None
        },
        None => None,
    }
}

/// Whether every item is short enough for its prefix.
pub open spec fn items_fit(items: Seq<Seq<u8>>) -> bool {
    forall|i: int| 0 <= i < items.len() ==> (#[trigger] items[i]).len() <= MAX_FIELD_LEN
}

/// Reading back the four bytes of a number gives the number.
pub proof fn lemma_read_le_u32(n: nat, rest: Seq<u8>)
    requires
        n <= MAX_FIELD_LEN,
    ensures
        read_u32(le_u32(n) + rest) == n,
        le_u32(n).len() == 4,
{
    let d = le_u32(n) + rest;
    assert(d[0] == le_u32(n)[0]);
    assert(d[1] == le_u32(n)[1]);
    assert(d[2] == le_u32(n)[2]);
    assert(d[3] == le_u32(n)[3]);
    let a = n % 256;
    let b = (n / 256) % 256;
    let c = (n / 65536) % 256;
    let e = (n / 16777216) % 256;
    assert(n / 16777216 < 256);
    assert(n == a + 256 * (n / 256));
    assert(n / 256 == b + 256 * ((n / 256) / 256));
    assert((n / 256) / 256 == n / 65536);
    assert(n / 65536 == c + 256 * ((n / 65536) / 256));
    assert((n / 65536) / 256 == n / 16777216);
}

/// Four bytes are the little-endian bytes of the number they spell.
pub proof fn lemma_le_u32_read(data: Seq<u8>)
    requires
        data.len() >= 4,
    ensures
        le_u32(read_u32(data)) == data.take(4),
        read_u32(data) <= MAX_FIELD_LEN,
{
    let n = read_u32(data);
    let a = data[0] as nat;
    let b = data[1] as nat;
    let c = data[2] as nat;
    let e = data[3] as nat;
    assert(n % 256 == a);
    assert(n / 256 == b + 256 * c + 65536 * e);
    assert((n / 256) % 256 == b);
    assert(n / 65536 == c + 256 * e);
    assert((n / 65536) % 256 == c);
    assert(n / 16777216 == e);
    assert(le_u32(n) =~= data.take(4));
}

/// Reading a length-prefixed item back gives its body and what followed it.
pub proof fn lemma_take_field(body: Seq<u8>, rest: Seq<u8>)
    requires
        body.len() <= MAX_FIELD_LEN,
    ensures
        take_field(field(body) + rest) == Some((body, rest)),
{
    let d = field(body) + rest;
    lemma_read_le_u32(body.len(), body + rest);
    assert(d =~= le_u32(body.len()) + (body + rest));
    assert(d.subrange(4, 4 + body.len() as int) =~= body);
    assert(d.skip(4 + body.len() as int) =~= rest);
}

/// What `take_field` accepts is a length-prefixed item followed by the rest.
pub proof fn lemma_take_field_shape(data: Seq<u8>)
    requires
        take_field(data) is Some,
    ensures
        data == field(take_field(data)->Some_0.0) + take_field(data)->Some_0.1,
        take_field(data)->Some_0.0.len() <= MAX_FIELD_LEN,
        take_field(data)->Some_0.0.len() + take_field(data)->Some_0.1.len() + 4 == data.len(),
{
    lemma_le_u32_read(data);
    let (body, rest) = take_field(data)->Some_0;
    assert(data =~= data.take(4) + body + rest);
}

/// Reading several items back gives them and what followed them.
pub proof fn lemma_take_fields(items: Seq<Seq<u8>>, rest: Seq<u8>)
    requires
        items_fit(items),
    ensures
        take_fields(fields(items) + rest, items.len()) == Some((items, rest)),
    decreases items.len(),
{
    if items.len() == 0 {
        assert(fields(items) + rest =~= rest);
        assert(items =~= Seq::<Seq<u8>>::empty());
    } else {
        let tail = items.drop_first();
        assert(items_fit(tail)) by {
            assert forall|i: int| 0 <= i < tail.len() implies (#[trigger] tail[i]).len()
                <= MAX_FIELD_LEN by {
                assert(tail[i] == items[i + 1]);
            }
        }
        let after = fields(tail) + rest;
        assert(fields(items) + rest =~= field(items[0]) + after);
        lemma_take_field(items[0], after);
        lemma_take_fields(tail, rest);
        assert(seq![items[0]] + tail =~= items);
    }
}

/// What `take_fields` accepts is that many items followed by the rest.
pub proof fn lemma_take_fields_shape(data: Seq<u8>, count: nat)
    requires
        take_fields(data, count) is Some,
    ensures
        take_fields(data, count)->Some_0.0.len() == count,
        items_fit(take_fields(data, count)->Some_0.0),
        data == fields(take_fields(data, count)->Some_0.0) + take_fields(data, count)->Some_0.1,
    decreases count,
{
    if count == 0 {
        assert(data =~= fields(Seq::<Seq<u8>>::empty()) + data);
    } else {
        lemma_take_field_shape(data);
        let (first, rest) = take_field(data)->Some_0;
        lemma_take_fields_shape(rest, (count - 1) as nat);
        let (others, tail) = take_fields(rest, (count - 1) as nat)->Some_0;
        let items = seq![first] + others;
        assert(items.drop_first() =~= others);
        assert(items[0] == first);
        assert(data =~= fields(items) + tail);
        assert(items_fit(items)) by {
            assert forall|i: int| 0 <= i < items.len() implies (#[trigger] items[i]).len()
                <= MAX_FIELD_LEN by {
                if i > 0 {
                    assert(items[i] == others[i - 1]);
                }
            }
        }
    }
}

/// A counted list reads back as its items.
pub proof fn lemma_field_list_round_trip(items: Seq<Seq<u8>>)
    requires
        items.len() <= MAX_FIELD_LEN,
        items_fit(items),
    ensures
        field_list_of(field_list(items)) == Some(items),
{
    let d = field_list(items);
    lemma_read_le_u32(items.len(), fields(items));
    assert(d.skip(4) =~= fields(items) + Seq::<u8>::empty());
    lemma_take_fields(items, Seq::<u8>::empty());
}

/// A single item reads back as its body.
pub proof fn lemma_field_round_trip(body: Seq<u8>)
    requires
        body.len() <= MAX_FIELD_LEN,
    ensures
        field_of(field(body)) == Some(body),
{
    lemma_take_field(body, Seq::<u8>::empty());
    assert(field(body) + Seq::<u8>::empty() =~= field(body));
}

/// Only the length-prefixed form of an item reads as that item.
pub proof fn lemma_field_of_shape(data: Seq<u8>)
    requires
        field_of(data) is Some,
    ensures
        data == field(field_of(data)->Some_0),
{
    lemma_take_field_shape(data);
    let (body, rest) = take_field(data)->Some_0;
    assert(field(body) + rest =~= field(body));
}

/// Only the counted form of a list reads as that list.
pub proof fn lemma_field_list_of_shape(data: Seq<u8>)
    requires
        field_list_of(data) is Some,
    ensures
        data == field_list(field_list_of(data)->Some_0),
{
    let count = read_u32(data);
    lemma_le_u32_read(data);
    lemma_take_fields_shape(data.skip(4), count);
    let (items, tail) = take_fields(data.skip(4), count)->Some_0;
    assert(fields(items) + tail =~= fields(items));
    assert(data =~= data.take(4) + data.skip(4));
}

} // verus!
