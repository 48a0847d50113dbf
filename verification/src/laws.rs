//! What holds of the typed operations, stated over the contents of the
//! database and proved from the contracts of the codecs.
use vstd::prelude::*;

use crate::batch::{pairs_encodable, puts};
use crate::codec::lex_lt;
use crate::cursor::{run_exhausted, run_outputs, step_output, Step};
use crate::key::KeyCodec;
use crate::ops::{apply, apply_all, in_range, lookup, Op, Store};
use crate::value::ValueCodec;

verus! {

/// What a typed lookup of `key` in column family `cf` gives: the decoded
/// value (`Some(Some(..))`), nothing (`Some(None)`), or a decoding error
/// (`None`).
pub open spec fn typed_get<K: KeyCodec, V: ValueCodec>(store: Store, cf: Seq<char>, key: K::V) -> Option<
    Option<V::V>,
> {
    match lookup(store, cf, K::key_bytes(key)) {
        None => Some(None),
        Some(bytes) => match V::value_of(bytes) {
            Some(value) => Some(Some(value)),
            None => None,
        },
    }
}

/// Two different keys have different encodings, and of two different keys
/// one comes before the other in the order of their encodings exactly if it
/// comes first in the order of the keys.
pub proof fn encoding_preserves_order<K: KeyCodec>(a: K::V, b: K::V)
    requires
        K::key_encodable(a),
        K::key_encodable(b),
    ensures
        lex_lt(K::key_bytes(a), K::key_bytes(b)) <==> K::key_lt(a, b),
        K::key_bytes(a) == K::key_bytes(b) <==> a == b,
{
    K::key_order_preserved(a, b);
    K::key_round_trip(a);
    K::key_round_trip(b);
}

/// Decoding the encoding of a key or of a value gives it back.
pub proof fn decode_inverts_encode<K: KeyCodec, V: ValueCodec>(key: K::V, value: V::V)
    requires
        K::key_encodable(key),
        V::value_encodable(value),
    ensures
        K::key_of(K::key_bytes(key)) == Some(key),
        V::value_of(V::value_bytes(value)) == Some(value),
{
    K::key_round_trip(key);
    V::value_round_trip(value);
}

/// After `key` was given the value `value`, a lookup of `key` finds `value`,
/// and other keys of the same column family are found as before.
pub proof fn get_after_insert<K: KeyCodec, V: ValueCodec>(
    store: Store,
    cf: Seq<char>,
    key: K::V,
    value: V::V,
    other: K::V,
)
    requires
        K::key_encodable(key),
        V::value_encodable(value),
        K::key_encodable(other),
        other != key,
    ensures
        ({
            let after = apply(
                store,
                Op::Put { cf, key: K::key_bytes(key), value: V::value_bytes(value) },
            );
            &&& typed_get::<K, V>(after, cf, key) == Some(Some(value))
            &&& typed_get::<K, V>(after, cf, other) == typed_get::<K, V>(store, cf, other)
        }),
{
    V::value_round_trip(value);
    encoding_preserves_order::<K>(key, other);
}

/// After `key` was removed, a lookup of `key` finds nothing, whether or not
/// it was there, and other keys of the same column family are found as
/// before.
pub proof fn get_after_remove<K: KeyCodec, V: ValueCodec>(
    store: Store,
    cf: Seq<char>,
    key: K::V,
    other: K::V,
)
    requires
        K::key_encodable(key),
        K::key_encodable(other),
        other != key,
    ensures
        ({
            let after = apply(store, Op::Delete { cf, key: K::key_bytes(key) });
            &&& typed_get::<K, V>(after, cf, key) == Some(None::<V::V>)
            &&& typed_get::<K, V>(after, cf, other) == typed_get::<K, V>(store, cf, other)
        }),
{
    encoding_preserves_order::<K>(key, other);
}

/// A lookup in a database in which nothing was ever stored finds nothing,
/// and that is no error.
pub proof fn get_of_never_inserted<K: KeyCodec, V: ValueCodec>(cf: Seq<char>, key: K::V)
    ensures
        typed_get::<K, V>(Map::empty(), cf, key) == Some(None::<V::V>),
{
}

/// After the keys from `from` on and before `to` were removed, a lookup of a
/// key in that range finds nothing, and every other key, `to` among them, is
/// found as before.
pub proof fn get_after_delete_range<K: KeyCodec, V: ValueCodec>(
    store: Store,
    cf: Seq<char>,
    from: K::V,
    to: K::V,
    key: K::V,
)
    requires
        K::key_encodable(from),
        K::key_encodable(to),
        K::key_encodable(key),
    ensures
        ({
            let after = apply(
                store,
                Op::DeleteRange { cf, from: K::key_bytes(from), to: K::key_bytes(to) },
            );
            let inside = (from == key || K::key_lt(from, key)) && K::key_lt(key, to);
            &&& inside ==> typed_get::<K, V>(after, cf, key) == Some(None::<V::V>)
            &&& !inside ==> typed_get::<K, V>(after, cf, key) == typed_get::<K, V>(store, cf, key)
            &&& typed_get::<K, V>(after, cf, to) == typed_get::<K, V>(store, cf, to)
        }),
{
    encoding_preserves_order::<K>(from, key);
    encoding_preserves_order::<K>(key, to);
    encoding_preserves_order::<K>(from, to);
    encoding_preserves_order::<K>(to, to);
    lemma_lex_lt_irreflexive(K::key_bytes(to));
}

/// No byte string comes before itself.
pub proof fn lemma_lex_lt_irreflexive(a: Seq<u8>)
    ensures
        !lex_lt(a, a),
    decreases a.len(),
{
    if a.len() > 0 {
        lemma_lex_lt_irreflexive(a.skip(1));
    }
}

/// Whether `op` can change what is stored under `key` in column family `cf`.
pub open spec fn touches(op: Op, cf: Seq<char>, key: Seq<u8>) -> bool {
    match op {
        Op::Put { cf: c, key: k, value: _ } => c == cf && k == key,
        Op::Delete { cf: c, key: k } => c == cf && k == key,
        Op::DeleteRange { cf: c, from, to } => c == cf && in_range(key, from, to),
    }
}

/// In a sequence of operations the last one that touches a key decides: what
/// a put stored is found afterwards, unless a later operation touches the
/// same key.
pub proof fn last_put_wins(store: Store, ops: Seq<Op>, i: int)
    requires
        0 <= i < ops.len(),
        ops[i] is Put,
        forall|j: int| i < j < ops.len() ==> !touches(#[trigger] ops[j], ops[i]->Put_cf, ops[i]->Put_key),
    ensures
        lookup(apply_all(store, ops), ops[i]->Put_cf, ops[i]->Put_key) == Some(ops[i]->Put_value),
    decreases ops.len(),
{
    let front = ops.drop_last();
    if i == ops.len() - 1 {
    } else {
        assert(front[i] == ops[i]);
        assert forall|j: int| i < j < front.len() implies !touches(
            #[trigger] front[j],
            front[i]->Put_cf,
            front[i]->Put_key,
        ) by {
            assert(front[j] == ops[j]);
        }
        last_put_wins(store, front, i);
        assert(!touches(ops[ops.len() - 1], ops[i]->Put_cf, ops[i]->Put_key));
    }
}

/// One batch that inserts `pairs_a` into one column family and `pairs_b`
/// into another, once carried out, shows both sets of pairs together: each
/// key of either set is found with the value of its last pair.
pub proof fn batch_inserts_visible_together<KA: KeyCodec, VA: ValueCodec, KB: KeyCodec, VB: ValueCodec>(
    store: Store,
    cf_a: Seq<char>,
    pairs_a: Seq<(KA, VA)>,
    cf_b: Seq<char>,
    pairs_b: Seq<(KB, VB)>,
    i: int,
    j: int,
)
    requires
        cf_a != cf_b,
        pairs_encodable(pairs_a),
        pairs_encodable(pairs_b),
    ensures
        ({
            let after = apply_all(store, puts(cf_a, pairs_a) + puts(cf_b, pairs_b));
            &&& (0 <= i < pairs_a.len() && (forall|l: int|
                i < l < pairs_a.len() ==> (#[trigger] pairs_a[l]).0@ != pairs_a[i].0@))
                ==> typed_get::<KA, VA>(after, cf_a, pairs_a[i].0@) == Some(Some(pairs_a[i].1@))
            &&& (0 <= j < pairs_b.len() && (forall|l: int|
                j < l < pairs_b.len() ==> (#[trigger] pairs_b[l]).0@ != pairs_b[j].0@))
                ==> typed_get::<KB, VB>(after, cf_b, pairs_b[j].0@) == Some(Some(pairs_b[j].1@))
        }),
{
    let ops = puts(cf_a, pairs_a) + puts(cf_b, pairs_b);
    let n = pairs_a.len() as int;
    if 0 <= i < pairs_a.len() && (forall|l: int|
        i < l < pairs_a.len() ==> (#[trigger] pairs_a[l]).0@ != pairs_a[i].0@) {
        assert(ops[i] == puts(cf_a, pairs_a)[i]);
        assert forall|l: int| i < l < ops.len() implies !touches(
            #[trigger] ops[l],
            ops[i]->Put_cf,
            ops[i]->Put_key,
        ) by {
            if l < n {
                assert(ops[l] == puts(cf_a, pairs_a)[l]);
                assert(pairs_a[l].0@ != pairs_a[i].0@);
                encoding_preserves_order::<KA>(pairs_a[l].0@, pairs_a[i].0@);
            } else {
                assert(ops[l] == puts(cf_b, pairs_b)[l - n]);
            }
        }
        last_put_wins(store, ops, i);
        VA::value_round_trip(pairs_a[i].1@);
    }
    if 0 <= j < pairs_b.len() && (forall|l: int|
        j < l < pairs_b.len() ==> (#[trigger] pairs_b[l]).0@ != pairs_b[j].0@) {
        assert(ops[n + j] == puts(cf_b, pairs_b)[j]);
        assert forall|l: int| n + j < l < ops.len() implies !touches(
            #[trigger] ops[l],
            ops[n + j]->Put_cf,
            ops[n + j]->Put_key,
        ) by {
            assert(ops[l] == puts(cf_b, pairs_b)[l - n]);
            assert(pairs_b[l - n].0@ != pairs_b[j].0@);
            encoding_preserves_order::<KB>(pairs_b[l - n].0@, pairs_b[j].0@);
        }
        last_put_wins(store, ops, n + j);
        VB::value_round_trip(pairs_b[j].1@);
    }
}

/// A pass that is shown the `n` entries of a column family one after the
/// other, and then the end, gives `n` items, the `i`-th decoded from the
/// `i`-th entry, and then reports the end. From then on it reports the end
/// whatever it is shown: a pass cannot be started again.
pub proof fn pass_visits_each_entry_once<E, T>(
    entries: Seq<E>,
    decode: spec_fn(E) -> Option<T>,
    later: Seq<Option<E>>,
)
    ensures
        ({
            let shown = entries.map_values(|entry: E| Some(entry)).push(None) + later;
            let outputs = run_outputs(false, shown, decode);
            &&& outputs.len() == shown.len()
            &&& forall|i: int|
                0 <= i < entries.len() ==> #[trigger] outputs[i] == step_output(
                    false,
                    Some(entries[i]),
                    decode,
                ) && outputs[i] != Step::<T>::End
            &&& forall|i: int| entries.len() <= i < outputs.len() ==> #[trigger] outputs[i] == Step::<T>::End
            &&& run_exhausted(false, shown)
        }),
    decreases entries.len(),
{
    let shown = entries.map_values(|entry: E| Some(entry)).push(None) + later;
    let outputs = run_outputs(false, shown, decode);
    if entries.len() == 0 {
        assert(shown.skip(1) =~= later);
        assert(shown[0] == None::<E>);
        ended_pass_stays_ended(later, decode);
    } else {
        let rest = entries.skip(1);
        let rest_shown = rest.map_values(|entry: E| Some(entry)).push(None) + later;
        assert(shown.skip(1) =~= rest_shown);
        assert(shown[0] == Some(entries[0]));
        pass_visits_each_entry_once(rest, decode, later);
        let rest_outputs = run_outputs(false, rest_shown, decode);
        assert(outputs =~= seq![step_output(false, shown[0], decode)] + rest_outputs);
        assert forall|i: int| 0 <= i < entries.len() implies #[trigger] outputs[i] == step_output(
            false,
            Some(entries[i]),
            decode,
        ) && outputs[i] != Step::<T>::End by {
            if i > 0 {
                assert(outputs[i] == rest_outputs[i - 1]);
                assert(rest[i - 1] == entries[i]);
            }
        }
        assert forall|i: int| entries.len() <= i < outputs.len() implies #[trigger] outputs[i]
            == Step::<T>::End by {
            assert(outputs[i] == rest_outputs[i - 1]);
        }
    }
}

/// Raw keys that ascend byte by byte decode to keys that ascend: a pass over
/// a column family, which the engine walks in the order of the raw keys,
/// yields the keys in their own order.
pub proof fn decoded_keys_keep_order<K: KeyCodec>(a: Seq<u8>, b: Seq<u8>)
    requires
        lex_lt(a, b),
        K::key_of(a) is Some,
        K::key_of(b) is Some,
    ensures
        K::key_lt(K::key_of(a).unwrap(), K::key_of(b).unwrap()),
{
    K::key_bytes_exact(a);
    K::key_bytes_exact(b);
    K::key_order_preserved(K::key_of(a).unwrap(), K::key_of(b).unwrap());
}

/// A pass that has reported the end reports the end whatever it is shown.
pub proof fn ended_pass_stays_ended<E, T>(shown: Seq<Option<E>>, decode: spec_fn(E) -> Option<T>)
    ensures
        run_outputs(true, shown, decode).len() == shown.len(),
        forall|i: int|
            0 <= i < shown.len() ==> #[trigger] run_outputs(true, shown, decode)[i] == Step::<T>::End,
        run_exhausted(true, shown),
    decreases shown.len(),
{
    if shown.len() > 0 {
        ended_pass_stays_ended(shown.skip(1), decode);
        let outputs = run_outputs(true, shown, decode);
        let rest_outputs = run_outputs(true, shown.skip(1), decode);
        assert forall|i: int| 0 <= i < shown.len() implies #[trigger] outputs[i] == Step::<T>::End by {
            if i > 0 {
                assert(outputs[i] == rest_outputs[i - 1]);
            }
        }
    }
}

} // verus!
