//! Cursors: lazy, forward-only passes over a column family that decode what
//! the engine's raw cursor shows.
//!
//! A cursor here holds no position of its own. At each step it is shown the
//! raw entry under the engine's cursor, or told that the engine's cursor has
//! run past the last key; it answers with the decoded item, after which the
//! engine's cursor is to be moved forward by one key, or with the end of the
//! pass. Once a cursor has reported the end it stays at the end.
use core::marker::PhantomData;
use vstd::prelude::*;

use crate::errors::TypedStoreError;
use crate::key::KeyCodec;
use crate::value::ValueCodec;

verus! {

/// What one step of a cursor gives.
pub enum Step<T> {
    /// The entry under the cursor, decoded.
    Item(T),
    /// The entry under the cursor does not decode.
    Corrupt,
    /// The pass is over.
    End,
}

/// What a cursor gives when it is shown `current`.
pub open spec fn step_output<E, T>(
    exhausted: bool,
    current: Option<E>,
    decode: spec_fn(E) -> Option<T>,
) -> Step<T> {
    if exhausted {
        Step::End
    } else {
        match current {
            None => Step::End,
            Some(entry) => match decode(entry) {
                Some(item) => Step::Item(item),
                None => Step::Corrupt,
            },
        }
    }
}

/// Whether a cursor is exhausted after it was shown `current`.
pub open spec fn step_exhausted<E>(exhausted: bool, current: Option<E>) -> bool {
    exhausted || current is None
}

/// What a cursor gives, step by step, when it is shown `shown` in turn.
pub open spec fn run_outputs<E, T>(
    exhausted: bool,
    shown: Seq<Option<E>>,
    decode: spec_fn(E) -> Option<T>,
) -> Seq<Step<T>>
    decreases shown.len(),
{
    if shown.len() == 0 {
        Seq::empty()
    } else {
        seq![step_output(exhausted, shown[0], decode)] + run_outputs(
            step_exhausted(exhausted, shown[0]),
            shown.skip(1),
            decode,
        )
    }
}

/// Whether a cursor is exhausted after it was shown `shown` in turn.
pub open spec fn run_exhausted<E>(exhausted: bool, shown: Seq<Option<E>>) -> bool
    decreases shown.len(),
{
    if shown.len() == 0 {
        exhausted
    } else {
        run_exhausted(step_exhausted(exhausted, shown[0]), shown.skip(1))
    }
}

/// The key and the value that a raw entry stands for, if both decode.
pub open spec fn pair_of<K: KeyCodec, V: ValueCodec>(entry: (Seq<u8>, Seq<u8>)) -> Option<
    (K::V, V::V),
> {
    match (K::key_of(entry.0), V::value_of(entry.1)) {
        (Some(key), Some(value)) => Some((key, value)),
        _ => None,
    }
}

/// The mathematical value of a raw entry.
pub open spec fn entry_view(current: Option<(&[u8], &[u8])>) -> Option<(Seq<u8>, Seq<u8>)> {
    match current {
        Some((key, value)) => Some((key@, value@)),
        None => None,
    }
}

/// The mathematical value of a raw key or a raw value.
pub open spec fn bytes_view(current: Option<&[u8]>) -> Option<Seq<u8>> {
    match current {
        Some(bytes) => Some(bytes@),
        None => None,
    }
}

/// The step that an item handed out by a cursor stands for.
pub open spec fn item_step<T: View>(item: Option<Result<T, TypedStoreError>>) -> Step<T::V> {
    match item {
        Some(Ok(value)) => Step::Item(value@),
        Some(Err(_)) => Step::Corrupt,
        None => Step::End,
    }
}

/// A pass over the keys and values of a map.
#[derive(Debug)]
pub struct Iter<K, V> {
    exhausted: bool,
    _phantom: PhantomData<(K, V)>,
}

impl<K: KeyCodec, V: ValueCodec> Iter<K, V> {
    /// Whether the pass is over.
    pub closed spec fn is_exhausted(&self) -> bool {
        self.exhausted
    }

    /// A cursor at the start of its pass.
    pub fn new() -> (cursor: Self)
        ensures
            !cursor.is_exhausted(),
    {
        Iter { exhausted: false, _phantom: PhantomData }
    }

    /// Whether the pass is over.
    pub fn exhausted(&self) -> (over: bool)
        ensures
            over == self.is_exhausted(),
    {
        self.exhausted
    }

    /// Takes one step. `current` is the raw key and value under the engine's
    /// cursor, or `None` if that cursor stands past the last key.
    ///
    /// `None` is the end of the pass. An entry that does not decode is handed
    /// out as an error and does not end the pass. After `Some`, the engine's
    /// cursor is to be moved forward by one key.
    pub fn next(&mut self, current: Option<(&[u8], &[u8])>) -> (item: Option<
        Result<(K, V), TypedStoreError>,
    >)
        ensures
            final(self).is_exhausted() == step_exhausted(old(self).is_exhausted(), current),
            item_step(item) == step_output(
                old(self).is_exhausted(),
                entry_view(current),
                |entry: (Seq<u8>, Seq<u8>)| pair_of::<K, V>(entry),
            ),
            item matches Some(Err(e)) ==> e is DecodingError,
    {
        if self.exhausted {
            return None;
        }
        match current {
            None => {
                self.exhausted = true;
                None
            },
            Some((raw_key, raw_value)) => {
                let key = match K::decode_key(raw_key) {
                    Ok(key) => key,
                    Err(e) => {
                        return Some(Err(e));
                    },
                };
                match V::decode_value(raw_value) {
                    Ok(value) => Some(Ok((key, value))),
                    Err(e) => Some(Err(e)),
                }
            },
        }
    }
}

/// A pass over the keys of a map, which never decodes a value.
#[derive(Debug)]
pub struct Keys<K> {
    exhausted: bool,
    _phantom: PhantomData<K>,
}

impl<K: KeyCodec> Keys<K> {
    /// Whether the pass is over.
    pub closed spec fn is_exhausted(&self) -> bool {
        self.exhausted
    }

    /// A cursor at the start of its pass.
    pub fn new() -> (cursor: Self)
        ensures
            !cursor.is_exhausted(),
    {
        Keys { exhausted: false, _phantom: PhantomData }
    }

    /// Whether the pass is over.
    pub fn exhausted(&self) -> (over: bool)
        ensures
            over == self.is_exhausted(),
    {
        self.exhausted
    }

    /// Takes one step. `current` is the raw key under the engine's cursor, or
    /// `None` if that cursor stands past the last key.
    ///
    /// `None` is the end of the pass. A key that does not decode is handed
    /// out as an error and does not end the pass. After `Some`, the engine's
    /// cursor is to be moved forward by one key.
    pub fn next(&mut self, current: Option<&[u8]>) -> (item: Option<Result<K, TypedStoreError>>)
        ensures
            final(self).is_exhausted() == step_exhausted(old(self).is_exhausted(), current),
            item_step(item) == step_output(
                old(self).is_exhausted(),
                bytes_view(current),
                |raw: Seq<u8>| K::key_of(raw),
            ),
            item matches Some(Err(e)) ==> e is DecodingError,
    {
        if self.exhausted {
            return None;
        }
        match current {
            None => {
                self.exhausted = true;
                None
            },
            Some(raw_key) => Some(K::decode_key(raw_key)),
        }
    }
}

/// A pass over the values of a map, in the order of their keys, which never
/// decodes a key.
#[derive(Debug)]
pub struct Values<V> {
    exhausted: bool,
    _phantom: PhantomData<V>,
}

impl<V: ValueCodec> Values<V> {
    /// Whether the pass is over.
    pub closed spec fn is_exhausted(&self) -> bool {
        self.exhausted
    }

    /// A cursor at the start of its pass.
    pub fn new() -> (cursor: Self)
        ensures
            !cursor.is_exhausted(),
    {
        Values { exhausted: false, _phantom: PhantomData }
    }

    /// Whether the pass is over.
    pub fn exhausted(&self) -> (over: bool)
        ensures
            over == self.is_exhausted(),
    {
        self.exhausted
    }

    /// Takes one step. `current` is the raw value under the engine's cursor,
    /// or `None` if that cursor stands past the last key.
    ///
    /// `None` is the end of the pass. A value that does not decode is handed
    /// out as an error and does not end the pass. After `Some`, the engine's
    /// cursor is to be moved forward by one key.
    pub fn next(&mut self, current: Option<&[u8]>) -> (item: Option<Result<V, TypedStoreError>>)
        ensures
            final(self).is_exhausted() == step_exhausted(old(self).is_exhausted(), current),
            item_step(item) == step_output(
                old(self).is_exhausted(),
                bytes_view(current),
                |raw: Seq<u8>| V::value_of(raw),
            ),
            item matches Some(Err(e)) ==> e is DecodingError,
    {
        if self.exhausted {
            return None;
        }
        match current {
            None => {
                self.exhausted = true;
                None
            },
            Some(raw_value) => Some(V::decode_value(raw_value)),
        }
    }
}

} // verus!
