//! Fixed-capacity vectors and strings of the `heapless` crate, as the
//! contracts see them.
//!
//! A `heapless::Vec<T, N>` or `heapless::String<N>` is opaque to the verifier.
//! Each capacity the library uses gets a name for its contents (the items, or
//! the UTF-8 bytes of a string) and one trusted wrapper per `heapless` method
//! the library calls, stating over that name what the method does.
use vstd::prelude::*;
use vstd::string::StringSliceAdditionalSpecFns;

use crate::device::{Device, Parameter, PendingRequest};
use crate::packets::address::PacketAddress;
use crate::packets::ardupilot::PassthroughTelemetryPacket;

verus! {

/// The `heapless` fixed-capacity vector.
#[verifier::external_type_specification]
#[verifier::external_body]
#[verifier::reject_recursive_types(T)]
pub struct ExFixedVec<T, const N: usize>(heapless::Vec<T, N>);

/// The `heapless` fixed-capacity string.
#[verifier::external_type_specification]
#[verifier::external_body]
pub struct ExFixedString<const N: usize>(heapless::String<N>);

/// The `heapless` fixed-capacity map that keeps insertion order.
#[verifier::external_type_specification]
#[verifier::external_body]
#[verifier::reject_recursive_types(K)]
#[verifier::reject_recursive_types(V)]
#[verifier::reject_recursive_types(S)]
pub struct ExFixedIndexMap<K, V, S, const N: usize>(heapless::IndexMap<K, V, S, N>);

/// The `heapless` fixed-capacity double-ended queue.
#[verifier::external_type_specification]
#[verifier::external_body]
#[verifier::reject_recursive_types(T)]
pub struct ExFixedDeque<T, const N: usize>(heapless::Deque<T, N>);

/// The hasher builder of `heapless::FnvIndexMap`.
#[verifier::external_type_specification]
#[verifier::external_body]
#[verifier::reject_recursive_types(H)]
pub struct ExBuildHasherDefault<H>(hash32::BuildHasherDefault<H>);

/// The hasher of `heapless::FnvIndexMap`.
#[verifier::external_type_specification]
#[verifier::external_body]
pub struct ExFnvHasher(hash32::FnvHasher);

/// `Clone::clone` of `heapless::Vec`, which the derived `Clone` of the
/// library's types calls. Nothing is claimed of the copy: where the library
/// needs a copy with known contents it builds one by `from_slice`.
pub assume_specification<T: Clone, const N: usize>[<heapless::Vec<T, N> as Clone>::clone](
    v: &heapless::Vec<T, N>,
) -> heapless::Vec<T, N>;

/// `Clone::clone` of `heapless::String`, which the derived `Clone` of the
/// library's types calls. Nothing is claimed of the copy.
pub assume_specification<const N: usize>[<heapless::String<N> as Clone>::clone](
    s: &heapless::String<N>,
) -> heapless::String<N>;

/// `Clone::clone` of `heapless::IndexMap`, which the derived `Clone` of the
/// library's types calls. Nothing is claimed of the copy.
pub assume_specification<K: Clone, V: Clone, S: Clone, const N: usize>[<heapless::IndexMap<
    K,
    V,
    S,
    N,
> as Clone>::clone](m: &heapless::IndexMap<K, V, S, N>) -> heapless::IndexMap<K, V, S, N>;

/// The bytes held by a vector of at most 32 bytes.
pub uninterp spec fn bytes32(v: heapless::Vec<u8, 32>) -> Seq<u8>;

/// `heapless::Vec::<u8, 32>::from_slice`: a copy of `s`, refused (`None`)
/// when `s` has more than 32 bytes.
#[verifier::external_body]
pub(crate) fn bytes32_from_slice(s: &[u8]) -> (r: Option<heapless::Vec<u8, 32>>)
    ensures
        r is Some <==> s@.len() <= 32,
        r matches Some(v) ==> bytes32(v) == s@,
{
    heapless::Vec::from_slice(s).ok()
}

/// `heapless::Vec::<u8, 32>::as_slice`: the bytes held, never more than 32.
#[verifier::external_body]
pub(crate) fn bytes32_as_slice(v: &heapless::Vec<u8, 32>) -> (r: &[u8])
    ensures
        r@ == bytes32(*v),
        r@.len() <= 32,
{
    v.as_slice()
}

/// The bytes held by a vector of at most 50 bytes.
pub uninterp spec fn bytes50(v: heapless::Vec<u8, 50>) -> Seq<u8>;

/// `heapless::Vec::<u8, 50>::from_slice`: a copy of `s`, refused (`None`)
/// when `s` has more than 50 bytes.
#[verifier::external_body]
pub(crate) fn bytes50_from_slice(s: &[u8]) -> (r: Option<heapless::Vec<u8, 50>>)
    ensures
        r is Some <==> s@.len() <= 50,
        r matches Some(v) ==> bytes50(v) == s@,
{
    heapless::Vec::from_slice(s).ok()
}

/// `heapless::Vec::<u8, 50>::as_slice`: the bytes held, never more than 50.
#[verifier::external_body]
pub(crate) fn bytes50_as_slice(v: &heapless::Vec<u8, 50>) -> (r: &[u8])
    ensures
        r@ == bytes50(*v),
        r@.len() <= 50,
{
    v.as_slice()
}

/// The bytes held by a vector of at most 56 bytes.
pub uninterp spec fn bytes56(v: heapless::Vec<u8, 56>) -> Seq<u8>;

/// `heapless::Vec::<u8, 56>::from_slice`: a copy of `s`, refused (`None`)
/// when `s` has more than 56 bytes.
#[verifier::external_body]
pub(crate) fn bytes56_from_slice(s: &[u8]) -> (r: Option<heapless::Vec<u8, 56>>)
    ensures
        r is Some <==> s@.len() <= 56,
        r matches Some(v) ==> bytes56(v) == s@,
{
    heapless::Vec::from_slice(s).ok()
}

/// `heapless::Vec::<u8, 56>::as_slice`: the bytes held, never more than 56.
#[verifier::external_body]
pub(crate) fn bytes56_as_slice(v: &heapless::Vec<u8, 56>) -> (r: &[u8])
    ensures
        r@ == bytes56(*v),
        r@.len() <= 56,
{
    v.as_slice()
}

/// The bytes held by a vector of at most 57 bytes.
pub uninterp spec fn bytes57(v: heapless::Vec<u8, 57>) -> Seq<u8>;

/// `heapless::Vec::<u8, 57>::from_slice`: a copy of `s`, refused (`None`)
/// when `s` has more than 57 bytes.
#[verifier::external_body]
pub(crate) fn bytes57_from_slice(s: &[u8]) -> (r: Option<heapless::Vec<u8, 57>>)
    ensures
        r is Some <==> s@.len() <= 57,
        r matches Some(v) ==> bytes57(v) == s@,
{
    heapless::Vec::from_slice(s).ok()
}

/// `heapless::Vec::<u8, 57>::as_slice`: the bytes held, never more than 57.
#[verifier::external_body]
pub(crate) fn bytes57_as_slice(v: &heapless::Vec<u8, 57>) -> (r: &[u8])
    ensures
        r@ == bytes57(*v),
        r@.len() <= 57,
{
    v.as_slice()
}

/// The bytes held by a vector of at most 64 bytes.
pub uninterp spec fn bytes64(v: heapless::Vec<u8, 64>) -> Seq<u8>;

/// `heapless::Vec::<u8, 64>::from_slice`: a copy of `s`, refused (`None`)
/// when `s` has more than 64 bytes.
#[verifier::external_body]
pub(crate) fn bytes64_from_slice(s: &[u8]) -> (r: Option<heapless::Vec<u8, 64>>)
    ensures
        r is Some <==> s@.len() <= 64,
        r matches Some(v) ==> bytes64(v) == s@,
{
    heapless::Vec::from_slice(s).ok()
}

/// `heapless::Vec::<u8, 64>::as_slice`: the bytes held, never more than 64.
#[verifier::external_body]
pub(crate) fn bytes64_as_slice(v: &heapless::Vec<u8, 64>) -> (r: &[u8])
    ensures
        r@ == bytes64(*v),
        r@.len() <= 64,
{
    v.as_slice()
}

/// The UTF-8 bytes of a string of at most 43 bytes.
pub uninterp spec fn text43(s: heapless::String<43>) -> Seq<u8>;

/// `heapless::String::<43>::try_from(&str)`: a copy of `s`, refused
/// (`None`) when `s` has more than 43 bytes.
#[verifier::external_body]
pub(crate) fn text43_from_str(s: &str) -> (r: Option<heapless::String<43>>)
    ensures
        r is Some <==> s.spec_bytes().len() <= 43,
        r matches Some(t) ==> text43(t) == s.spec_bytes(),
{
    heapless::String::try_from(s).ok()
}

/// `heapless::String::<43>::as_str`: the text held, never more than 43
/// bytes.
#[verifier::external_body]
pub(crate) fn text43_as_str(t: &heapless::String<43>) -> (r: &str)
    ensures
        r.spec_bytes() == text43(*t),
        r.spec_bytes().len() <= 43,
{
    t.as_str()
}

/// The UTF-8 bytes of a string of at most 128 bytes.
pub uninterp spec fn text128(s: heapless::String<128>) -> Seq<u8>;

/// `heapless::String::<128>::try_from(&str)`: a copy of `s`, refused
/// (`None`) when `s` has more than 128 bytes.
#[verifier::external_body]
pub(crate) fn text128_from_str(s: &str) -> (r: Option<heapless::String<128>>)
    ensures
        r is Some <==> s.spec_bytes().len() <= 128,
        r matches Some(t) ==> text128(t) == s.spec_bytes(),
{
    heapless::String::try_from(s).ok()
}

/// `heapless::String::<128>::new`: the empty string.
#[verifier::external_body]
pub(crate) fn text128_new() -> (r: heapless::String<128>)
    ensures
        text128(r) == Seq::<u8>::empty(),
{
    heapless::String::new()
}

/// `heapless::String::<128>::as_str`: the text held, never more than 128
/// bytes.
#[verifier::external_body]
pub(crate) fn text128_as_str(t: &heapless::String<128>) -> (r: &str)
    ensures
        r.spec_bytes() == text128(*t),
        r.spec_bytes().len() <= 128,
{
    t.as_str()
}

/// The UTF-8 bytes of a string of at most 512 bytes.
pub uninterp spec fn text512(s: heapless::String<512>) -> Seq<u8>;

/// `heapless::String::<512>::try_from(&str)`: a copy of `s`, refused
/// (`None`) when `s` has more than 512 bytes.
#[verifier::external_body]
pub(crate) fn text512_from_str(s: &str) -> (r: Option<heapless::String<512>>)
    ensures
        r is Some <==> s.spec_bytes().len() <= 512,
        r matches Some(t) ==> text512(t) == s.spec_bytes(),
{
    heapless::String::try_from(s).ok()
}

/// `heapless::String::<512>::as_str`: the text held, never more than 512
/// bytes.
#[verifier::external_body]
pub(crate) fn text512_as_str(t: &heapless::String<512>) -> (r: &str)
    ensures
        r.spec_bytes() == text512(*t),
        r.spec_bytes().len() <= 512,
{
    t.as_str()
}

/// The telemetry items held by a vector of at most 9.
pub uninterp spec fn telemetry9(v: heapless::Vec<PassthroughTelemetryPacket, 9>) -> Seq<PassthroughTelemetryPacket>;

/// `heapless::Vec::<PassthroughTelemetryPacket, 9>::from_slice`: a copy of
/// `s`, refused (`None`) when `s` has more than 9 items.
#[verifier::external_body]
pub(crate) fn telemetry9_from_slice(s: &[PassthroughTelemetryPacket]) -> (r: Option<
    heapless::Vec<PassthroughTelemetryPacket, 9>,
>)
    ensures
        r is Some <==> s@.len() <= 9,
        r matches Some(v) ==> telemetry9(v) == s@,
{
    heapless::Vec::from_slice(s).ok()
}

/// `heapless::Vec::<PassthroughTelemetryPacket, 9>::as_slice`: the items
/// held, never more than 9.
#[verifier::external_body]
pub(crate) fn telemetry9_as_slice(v: &heapless::Vec<PassthroughTelemetryPacket, 9>) -> (r: &[PassthroughTelemetryPacket])
    ensures
        r@ == telemetry9(*v),
        r@.len() <= 9,
{
    v.as_slice()
}

/// The byte vectors held by a vector of at most 8 vectors of at most 56
/// bytes, each by its bytes.
pub uninterp spec fn chunk_list8(v: heapless::Vec<heapless::Vec<u8, 56>, 8>) -> Seq<Seq<u8>>;

/// `heapless::Vec::<heapless::Vec<u8, 56>, 8>::new`: an empty vector.
#[verifier::external_body]
pub(crate) fn chunk_list8_new() -> (r: heapless::Vec<heapless::Vec<u8, 56>, 8>)
    ensures
        chunk_list8(r) == Seq::<Seq<u8>>::empty(),
{
    heapless::Vec::new()
}

/// `heapless::Vec::<heapless::Vec<u8, 56>, 8>::push`: appends `item` when
/// fewer than 8 vectors are held (`true`), else leaves the vector as it was
/// (`false`).
#[verifier::external_body]
pub(crate) fn chunk_list8_push(
    v: &mut heapless::Vec<heapless::Vec<u8, 56>, 8>,
    item: heapless::Vec<u8, 56>,
) -> (r: bool)
    ensures
        r == (chunk_list8(*old(v)).len() < 8),
        r ==> chunk_list8(*final(v)) == chunk_list8(*old(v)).push(bytes56(item)),
        !r ==> chunk_list8(*final(v)) == chunk_list8(*old(v)),
{
    v.push(item).is_ok()
}

/// `heapless::Vec::<heapless::Vec<u8, 56>, 8>::clear`: removes every vector.
#[verifier::external_body]
pub(crate) fn chunk_list8_clear(v: &mut heapless::Vec<heapless::Vec<u8, 56>, 8>)
    ensures
        chunk_list8(*final(v)) == Seq::<Seq<u8>>::empty(),
{
    v.clear()
}

/// `heapless::Vec::<heapless::Vec<u8, 56>, 8>::as_slice`: the vectors held,
/// never more than 8.
#[verifier::external_body]
pub(crate) fn chunk_list8_as_slice(v: &heapless::Vec<heapless::Vec<u8, 56>, 8>) -> (r: &[heapless::Vec<u8, 56>])
    ensures
        r@.len() == chunk_list8(*v).len(),
        r@.len() <= 8,
        forall|i: int| 0 <= i < r@.len() ==> bytes56(#[trigger] r@[i]) == chunk_list8(*v)[i],
{
    v.as_slice()
}

/// The index of the first entry with key `k`, if any.
pub open spec fn find_key<V>(es: Seq<(u8, V)>, k: u8) -> Option<int>
    decreases es.len(),
{
    if es.len() == 0 {
        None
    } else if es[0].0 == k {
        Some(0)
    } else {
        match find_key(es.drop_first(), k) {
            Some(i) => Some(i + 1),
            None => None,
        }
    }
}

/// [`find_key`] is the least index with key `k`, and `None` when no entry
/// has that key.
pub proof fn lemma_find_key<V>(es: Seq<(u8, V)>, k: u8)
    ensures
        find_key(es, k) matches Some(i) ==> 0 <= i < es.len() && es[i].0 == k && forall|j: int|
            0 <= j < i ==> es[j].0 != k,
        find_key(es, k) is None ==> forall|j: int| 0 <= j < es.len() ==> es[j].0 != k,
    decreases es.len(),
{
    if es.len() > 0 && es[0].0 != k {
        lemma_find_key(es.drop_first(), k);
        assert forall|j: int| 1 <= j < es.len() implies es[j] == es.drop_first()[j - 1] by {}
    }
}

/// The entries after inserting `v` under `k`: the value of an existing key is
/// replaced in place, a new key goes last.
pub open spec fn inserted<V>(es: Seq<(u8, V)>, k: u8, v: V) -> Seq<(u8, V)> {
    match find_key(es, k) {
        Some(i) => es.update(i, (k, v)),
        None => es.push((k, v)),
    }
}

/// The entries of a map of parameters by number, in insertion order.
pub uninterp spec fn param_entries(m: heapless::FnvIndexMap<u8, Parameter, 64>) -> Seq<(u8, Parameter)>;

/// `heapless::FnvIndexMap::<u8, Parameter, 64>::new`: an empty map.
#[verifier::external_body]
pub(crate) fn param_map_new() -> (r: heapless::FnvIndexMap<u8, Parameter, 64>)
    ensures
        param_entries(r) == Seq::<(u8, Parameter)>::empty(),
{
    heapless::FnvIndexMap::new()
}

/// `heapless::FnvIndexMap::<u8, Parameter, 64>::insert`: stores `v` under
/// `k` (`true`), in place of the value of an existing key or last for a new
/// key; a new key when 64 are held is refused (`false`), the map unchanged.
#[verifier::external_body]
pub(crate) fn param_map_insert(m: &mut heapless::FnvIndexMap<u8, Parameter, 64>, k: u8, v: Parameter) -> (r: bool)
    ensures
        r == (find_key(param_entries(*old(m)), k) is Some || param_entries(*old(m)).len() < 64),
        r ==> param_entries(*final(m)) == inserted(param_entries(*old(m)), k, v),
        !r ==> param_entries(*final(m)) == param_entries(*old(m)),
{
    m.insert(k, v).is_ok()
}

/// `heapless::FnvIndexMap::<u8, Parameter, 64>::get`: the value under `k`.
#[verifier::external_body]
pub(crate) fn param_map_get(m: &heapless::FnvIndexMap<u8, Parameter, 64>, k: u8) -> (r: Option<&Parameter>)
    ensures
        match find_key(param_entries(*m), k) {
            Some(i) => r == Some(&param_entries(*m)[i].1),
            None => r is None,
        },
{
    m.get(&k)
}

/// `heapless::FnvIndexMap::<u8, Parameter, 64>::get_mut`: the value under
/// `k`, to change in place.
#[verifier::external_body]
pub(crate) fn param_map_get_mut(m: &mut heapless::FnvIndexMap<u8, Parameter, 64>, k: u8) -> (r: Option<&mut Parameter>)
    ensures
        match r {
            Some(v) => find_key(param_entries(*old(m)), k) matches Some(i) && *v == param_entries(*old(m))[i].1
                && param_entries(*final(m)) == param_entries(*old(m)).update(i, (k, *final(v))),
            None => find_key(param_entries(*old(m)), k) is None && param_entries(*final(m))
                == param_entries(*old(m)),
        },
{
    m.get_mut(&k)
}

/// `heapless::FnvIndexMap::<u8, Parameter, 64>::contains_key`.
#[verifier::external_body]
pub(crate) fn param_map_contains(m: &heapless::FnvIndexMap<u8, Parameter, 64>, k: u8) -> (r: bool)
    ensures
        r == find_key(param_entries(*m), k) is Some,
{
    m.contains_key(&k)
}

/// `heapless::FnvIndexMap::<u8, Parameter, 64>::len`.
#[verifier::external_body]
pub(crate) fn param_map_len(m: &heapless::FnvIndexMap<u8, Parameter, 64>) -> (r: usize)
    ensures
        r == param_entries(*m).len(),
{
    m.len()
}

/// `heapless::FnvIndexMap::<u8, Parameter, 64>::values`, collected: the
/// values in insertion order.
#[verifier::external_body]
pub(crate) fn param_map_values(m: &heapless::FnvIndexMap<u8, Parameter, 64>) -> (r: Vec<&Parameter>)
    ensures
        r@.len() == param_entries(*m).len(),
        forall|i: int| 0 <= i < r@.len() ==> *r@[i] == param_entries(*m)[i].1,
{
    m.values().collect()
}

/// The entries of a map of devices by address byte, in insertion order.
pub uninterp spec fn device_entries(m: heapless::FnvIndexMap<u8, Device, 8>) -> Seq<(u8, Device)>;

/// `heapless::FnvIndexMap::<u8, Device, 8>::new`: an empty map.
#[verifier::external_body]
pub(crate) fn device_map_new() -> (r: heapless::FnvIndexMap<u8, Device, 8>)
    ensures
        device_entries(r) == Seq::<(u8, Device)>::empty(),
{
    heapless::FnvIndexMap::new()
}

/// `heapless::FnvIndexMap::<u8, Device, 8>::insert`: stores `v` under `k`
/// (`true`), in place of the value of an existing key or last for a new key;
/// a new key when 8 are held is refused (`false`), the map unchanged.
#[verifier::external_body]
pub(crate) fn device_map_insert(m: &mut heapless::FnvIndexMap<u8, Device, 8>, k: u8, v: Device) -> (r: bool)
    ensures
        r == (find_key(device_entries(*old(m)), k) is Some || device_entries(*old(m)).len() < 8),
        r ==> device_entries(*final(m)) == inserted(device_entries(*old(m)), k, v),
        !r ==> device_entries(*final(m)) == device_entries(*old(m)),
{
    m.insert(k, v).is_ok()
}

/// `heapless::FnvIndexMap::<u8, Device, 8>::get`: the value under `k`.
#[verifier::external_body]
pub(crate) fn device_map_get(m: &heapless::FnvIndexMap<u8, Device, 8>, k: u8) -> (r: Option<&Device>)
    ensures
        match find_key(device_entries(*m), k) {
            Some(i) => r == Some(&device_entries(*m)[i].1),
            None => r is None,
        },
{
    m.get(&k)
}

/// `heapless::FnvIndexMap::<u8, Device, 8>::get_mut`: the value under `k`,
/// to change in place.
#[verifier::external_body]
pub(crate) fn device_map_get_mut(m: &mut heapless::FnvIndexMap<u8, Device, 8>, k: u8) -> (r: Option<&mut Device>)
    ensures
        match r {
            Some(v) => find_key(device_entries(*old(m)), k) matches Some(i) && *v == device_entries(*old(m))[i].1
                && device_entries(*final(m)) == device_entries(*old(m)).update(i, (k, *final(v))),
            None => find_key(device_entries(*old(m)), k) is None && device_entries(*final(m))
                == device_entries(*old(m)),
        },
{
    m.get_mut(&k)
}

/// `heapless::FnvIndexMap::<u8, Device, 8>::contains_key`.
#[verifier::external_body]
pub(crate) fn device_map_contains(m: &heapless::FnvIndexMap<u8, Device, 8>, k: u8) -> (r: bool)
    ensures
        r == find_key(device_entries(*m), k) is Some,
{
    m.contains_key(&k)
}

/// `heapless::FnvIndexMap::<u8, Device, 8>::keys`, collected: the keys in
/// insertion order.
#[verifier::external_body]
pub(crate) fn device_map_keys(m: &heapless::FnvIndexMap<u8, Device, 8>) -> (r: Vec<u8>)
    ensures
        r@.len() == device_entries(*m).len(),
        forall|i: int| 0 <= i < r@.len() ==> r@[i] == device_entries(*m)[i].0,
{
    m.keys().copied().collect()
}

/// `heapless::FnvIndexMap::<u8, Device, 8>::clear`: removes every entry.
#[verifier::external_body]
pub(crate) fn device_map_clear(m: &mut heapless::FnvIndexMap<u8, Device, 8>)
    ensures
        device_entries(*final(m)) == Seq::<(u8, Device)>::empty(),
{
    m.clear()
}

/// The requests held by a vector of at most 16.
pub uninterp spec fn pending16(v: heapless::Vec<PendingRequest, 16>) -> Seq<PendingRequest>;

/// `heapless::Vec::<PendingRequest, 16>::new`: an empty vector.
#[verifier::external_body]
pub(crate) fn pending16_new() -> (r: heapless::Vec<PendingRequest, 16>)
    ensures
        pending16(r) == Seq::<PendingRequest>::empty(),
{
    heapless::Vec::new()
}

/// `heapless::Vec::<PendingRequest, 16>::push`: appends `item` when fewer
/// than 16 are held (`true`), else leaves the vector as it was (`false`).
#[verifier::external_body]
pub(crate) fn pending16_push(v: &mut heapless::Vec<PendingRequest, 16>, item: PendingRequest) -> (r: bool)
    ensures
        r == (pending16(*old(v)).len() < 16),
        r ==> pending16(*final(v)) == pending16(*old(v)).push(item),
        !r ==> pending16(*final(v)) == pending16(*old(v)),
{
    v.push(item).is_ok()
}

/// `heapless::Vec::<PendingRequest, 16>::as_slice`: the requests held, never
/// more than 16.
#[verifier::external_body]
pub(crate) fn pending16_as_slice(v: &heapless::Vec<PendingRequest, 16>) -> (r: &[PendingRequest])
    ensures
        r@ == pending16(*v),
        r@.len() <= 16,
{
    v.as_slice()
}

/// `heapless::Vec::<PendingRequest, 16>::swap_remove`: removes and returns
/// the request at `i`, the last one taking its place.
#[verifier::external_body]
pub(crate) fn pending16_swap_remove(v: &mut heapless::Vec<PendingRequest, 16>, i: usize) -> (r: PendingRequest)
    requires
        i < pending16(*old(v)).len(),
    ensures
        r == pending16(*old(v))[i as int],
        pending16(*final(v)) == pending16(*old(v)).update(i as int, pending16(*old(v)).last()).drop_last(),
{
    v.swap_remove(i)
}

/// Index assignment through `heapless::Vec::<PendingRequest, 16>`'s
/// `DerefMut`: replaces the request at `i`.
#[verifier::external_body]
pub(crate) fn pending16_set(v: &mut heapless::Vec<PendingRequest, 16>, i: usize, item: PendingRequest)
    requires
        i < pending16(*old(v)).len(),
    ensures
        pending16(*final(v)) == pending16(*old(v)).update(i as int, item),
{
    v[i] = item;
}

/// `heapless::Vec::<PendingRequest, 16>::retain` keeping the requests that
/// are not for parameter `id` of device `addr`, in order.
#[verifier::external_body]
pub(crate) fn pending16_retain_others(v: &mut heapless::Vec<PendingRequest, 16>, addr: PacketAddress, id: u8)
    ensures
        pending16(*final(v)) == pending16(*old(v)).filter(|r: PendingRequest| !r.is_for(addr, id)),
{
    v.retain(|r| r.kept_apart_from(addr, id))
}

/// `heapless::Vec::<PendingRequest, 16>::clear`: removes every request.
#[verifier::external_body]
pub(crate) fn pending16_clear(v: &mut heapless::Vec<PendingRequest, 16>)
    ensures
        pending16(*final(v)) == Seq::<PendingRequest>::empty(),
{
    v.clear()
}

/// The frames held by a vector of at most 8 frames, each by its bytes.
pub uninterp spec fn frames8(v: heapless::Vec<heapless::Vec<u8, 64>, 8>) -> Seq<Seq<u8>>;

/// `heapless::Vec::<heapless::Vec<u8, 64>, 8>::new`: an empty vector.
#[verifier::external_body]
pub(crate) fn frames8_new() -> (r: heapless::Vec<heapless::Vec<u8, 64>, 8>)
    ensures
        frames8(r) == Seq::<Seq<u8>>::empty(),
{
    heapless::Vec::new()
}

/// `heapless::Vec::<heapless::Vec<u8, 64>, 8>::push`: appends `item` when
/// fewer than 8 are held (`true`), else leaves the vector as it was
/// (`false`).
#[verifier::external_body]
pub(crate) fn frames8_push(v: &mut heapless::Vec<heapless::Vec<u8, 64>, 8>, item: heapless::Vec<u8, 64>) -> (r: bool)
    ensures
        r == (frames8(*old(v)).len() < 8),
        r ==> frames8(*final(v)) == frames8(*old(v)).push(bytes64(item)),
        !r ==> frames8(*final(v)) == frames8(*old(v)),
{
    v.push(item).is_ok()
}

/// `heapless::Vec::<heapless::Vec<u8, 64>, 8>::pop`: removes and returns the
/// last frame, `None` when empty.
#[verifier::external_body]
pub(crate) fn frames8_pop(v: &mut heapless::Vec<heapless::Vec<u8, 64>, 8>) -> (r: Option<heapless::Vec<u8, 64>>)
    ensures
        frames8(*old(v)).len() == 0 ==> r is None && frames8(*final(v)) == frames8(*old(v)),
        frames8(*old(v)).len() > 0 ==> (r matches Some(f) && bytes64(f) == frames8(*old(v)).last()
            && frames8(*final(v)) == frames8(*old(v)).drop_last()),
{
    v.pop()
}

/// `heapless::Vec::<heapless::Vec<u8, 64>, 8>::clear`: removes every frame.
#[verifier::external_body]
pub(crate) fn frames8_clear(v: &mut heapless::Vec<heapless::Vec<u8, 64>, 8>)
    ensures
        frames8(*final(v)) == Seq::<Seq<u8>>::empty(),
{
    v.clear()
}

/// The frames held by a vector of at most 16 frames, each by its bytes.
pub uninterp spec fn frames16(v: heapless::Vec<heapless::Vec<u8, 64>, 16>) -> Seq<Seq<u8>>;

/// `heapless::Vec::<heapless::Vec<u8, 64>, 16>::new`: an empty vector.
#[verifier::external_body]
pub(crate) fn frames16_new() -> (r: heapless::Vec<heapless::Vec<u8, 64>, 16>)
    ensures
        frames16(r) == Seq::<Seq<u8>>::empty(),
{
    heapless::Vec::new()
}

/// `heapless::Vec::<heapless::Vec<u8, 64>, 16>::push`: appends `item` when
/// fewer than 16 are held (`true`), else leaves the vector as it was
/// (`false`).
#[verifier::external_body]
pub(crate) fn frames16_push(v: &mut heapless::Vec<heapless::Vec<u8, 64>, 16>, item: heapless::Vec<u8, 64>) -> (r: bool)
    ensures
        r == (frames16(*old(v)).len() < 16),
        r ==> frames16(*final(v)) == frames16(*old(v)).push(bytes64(item)),
        !r ==> frames16(*final(v)) == frames16(*old(v)),
{
    v.push(item).is_ok()
}

/// The bytes held by a queue of at most 128 bytes, front first.
pub uninterp spec fn queue128(q: heapless::Deque<u8, 128>) -> Seq<u8>;

/// `heapless::Deque::<u8, 128>::new`: an empty queue.
#[verifier::external_body]
pub(crate) fn queue128_new() -> (r: heapless::Deque<u8, 128>)
    ensures
        queue128(r) == Seq::<u8>::empty(),
{
    heapless::Deque::new()
}

/// `heapless::Deque::<u8, 128>::pop_front`: removes and returns the front
/// byte, `None` when empty.
#[verifier::external_body]
pub(crate) fn queue128_pop_front(q: &mut heapless::Deque<u8, 128>) -> (r: Option<u8>)
    ensures
        queue128(*old(q)).len() == 0 ==> r is None && queue128(*final(q)) == queue128(*old(q)),
        queue128(*old(q)).len() > 0 ==> r == Some(queue128(*old(q))[0]) && queue128(*final(q)) == queue128(
            *old(q),
        ).drop_first(),
{
    q.pop_front()
}

/// `heapless::Deque::<u8, 128>::push_back`: appends `b` when fewer than 128
/// bytes are held (`true`), else leaves the queue as it was (`false`).
#[verifier::external_body]
pub(crate) fn queue128_push_back(q: &mut heapless::Deque<u8, 128>, b: u8) -> (r: bool)
    ensures
        r == (queue128(*old(q)).len() < 128),
        r ==> queue128(*final(q)) == queue128(*old(q)).push(b),
        !r ==> queue128(*final(q)) == queue128(*old(q)),
{
    q.push_back(b).is_ok()
}

} // verus!
