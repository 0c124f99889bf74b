//! Qualified XML names: splitting `prefix:local` and building names with a prefix.
use vstd::prelude::*;
use vstd::utf8::*;
use crate::text::{lossy_utf8, lossy_text};

verus! {

/// Index of the first `:` in `name`, if there is one.
pub open spec fn colon_index(name: Seq<u8>) -> Option<int>
    decreases name.len(),
{
    if name.len() == 0 {
        None
    } else if name[0] == 58u8 {
        Some(0)
    } else {
        match colon_index(name.drop_first()) {
            Some(i) => Some(i + 1),
            None => None,
        }
    }
}

pub proof fn lemma_colon_index(name: Seq<u8>)
    ensures
        match colon_index(name) {
            Some(i) => 0 <= i < name.len() && name[i] == 58u8 && forall|j: int|
                0 <= j < i ==> name[j] != 58u8,
            None => forall|j: int| 0 <= j < name.len() ==> name[j] != 58u8,
        },
    decreases name.len(),
{
    if name.len() > 0 && name[0] != 58u8 {
        let rest = name.drop_first();
        lemma_colon_index(rest);
        assert forall|j: int| 0 < j < name.len() implies name[j] == rest[j - 1] by {}
    }
}

/// The prefix of a qualified name: what stands before its first `:` (empty without one).
pub open spec fn name_prefix(name: Seq<u8>) -> Seq<u8> {
    match colon_index(name) {
        Some(i) => name.subrange(0, i),
        None => Seq::empty(),
    }
}

/// The local part of a qualified name: what follows its first `:` (all of it without one).
pub open spec fn local_name(name: Seq<u8>) -> Seq<u8> {
    match colon_index(name) {
        Some(i) => name.subrange(i + 1, name.len() as int),
        None => name,
    }
}

/// Splits a qualified name at its first `:` into prefix and local part.
pub fn split_name(name: &[u8]) -> (r: (&[u8], &[u8]))
    ensures
        r.0@ == name_prefix(name@),
        r.1@ == local_name(name@),
{
    let mut i: usize = 0;
    while i < name.len()
        invariant
            i <= name@.len(),
            forall|j: int| 0 <= j < i ==> name@[j] != 58u8,
        decreases name@.len() - i,
    {
        if name[i] == 58u8 {
            proof {
                lemma_colon_index(name@);
            }
            return (vstd::slice::slice_subrange(name, 0, i), vstd::slice::slice_subrange(name, i + 1, name.len()));
        }
        i = i + 1;
    }
    proof {
        lemma_colon_index(name@);
    }
    (vstd::slice::slice_subrange(name, 0, 0), name)
}

/// The qualified name `prefix:local` (or just `local` when the prefix is empty);
/// the prefix is decoded lossily, as `format!("{}:{}", String::from_utf8_lossy(prefix), local)` does.
pub open spec fn tag_name(prefix: Seq<u8>, local: Seq<u8>) -> Seq<u8> {
    if prefix.len() == 0 {
        local
    } else {
        lossy_text(prefix) + seq![58u8] + local
    }
}

/// Builds the qualified name of `local` under `prefix`.
pub fn build_tag(prefix: &[u8], local: &[u8]) -> (r: Vec<u8>)
    ensures
        r@ == tag_name(prefix@, local@),
        valid_utf8(local@) ==> valid_utf8(r@),
{
    if prefix.len() == 0 {
        vstd::slice::slice_to_vec(local)
    } else {
        let mut r = lossy_utf8(prefix);
        r.push(58u8);
        let ghost head = r@;
        let mut i: usize = 0;
        while i < local.len()
            invariant
                i <= local@.len(),
                r@ == head + local@.subrange(0, i as int),
            decreases local@.len() - i,
        {
            r.push(local[i]);
            assert(local@.subrange(0, i + 1) =~= local@.subrange(0, i as int).push(local@[i as int]));
            i = i + 1;
        }
        proof {
            assert(local@.subrange(0, local@.len() as int) =~= local@);
            assert(valid_utf8(seq![58u8])) by {
                reveal_with_fuel(valid_utf8, 2);
            }
            vstd::utf8::valid_utf8_concat(lossy_text(prefix@), seq![58u8]);
            assert(head =~= lossy_text(prefix@) + seq![58u8]);
            if valid_utf8(local@) {
                vstd::utf8::valid_utf8_concat(head, local@);
            }
        }
        r
    }
}

/// Splitting a built name gives back its parts, when the prefix is valid
/// UTF-8 without a `:` in it.
pub proof fn law_split_build_roundtrip(prefix: Seq<u8>, local: Seq<u8>)
    requires
        prefix.len() > 0,
        valid_utf8(prefix),
        forall|i: int| 0 <= i < prefix.len() ==> prefix[i] != 58u8,
    ensures
        name_prefix(tag_name(prefix, local)) == prefix,
        local_name(tag_name(prefix, local)) == local,
{
    let n = tag_name(prefix, local);
    assert(n == prefix + seq![58u8] + local);
    lemma_colon_index(n);
    assert(n[prefix.len() as int] == 58u8);
    assert forall|j: int| 0 <= j < prefix.len() implies n[j] != 58u8 by {
        assert(n[j] == prefix[j]);
    }
    match colon_index(n) {
        Some(i) => {
            assert(i == prefix.len());
            assert(n.subrange(0, i) =~= prefix);
            assert(n.subrange(i + 1, n.len() as int) =~= local);
        },
        None => {},
    }
}

/// Without a prefix, a name without `:` is its own local part.
pub proof fn law_split_unprefixed(local: Seq<u8>)
    requires
        forall|i: int| 0 <= i < local.len() ==> local[i] != 58u8,
    ensures
        name_prefix(tag_name(Seq::empty(), local)) == Seq::<u8>::empty(),
        local_name(tag_name(Seq::empty(), local)) == local,
{
    lemma_colon_index(local);
}

} // verus!
