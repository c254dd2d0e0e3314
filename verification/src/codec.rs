//! Where the work of a codec enters the collections.
//!
//! The store holds encoded elements. Which codec encodes them is the
//! caller's choice: it hands its encoder or decoder to the functions here,
//! which fix when it is called and how its failure comes out, as
//! [`Error::SerializationError`] with the codec's own error as the cause.
use vstd::prelude::*;
use crate::error::Error;
use serde_cbor::error::Error as CborError;

verus! {

/// Encodes `item` for the store.
pub fn encode<T, E: FnOnce(&T) -> Result<Vec<u8>, CborError>>(item: &T, encoder: E) -> (r: Result<
    Vec<u8>,
    Error,
>)
    requires
        encoder.requires((item,)),
    ensures
        match r {
            Ok(data) => encoder.ensures((item,), Ok(data)),
            Err(Error::SerializationError(cause)) => encoder.ensures((item,), Err(cause)),
            Err(_) => false,
        },
{
    match encoder(item) {
        Ok(data) => Ok(data),
        Err(cause) => Err(Error::SerializationError(cause)),
    }
}

/// Decodes one element that the store gave.
pub fn decode<T, D: FnOnce(&Vec<u8>) -> Result<T, CborError>>(data: &Vec<u8>, decoder: D) -> (r:
    Result<T, Error>)
    requires
        decoder.requires((data,)),
    ensures
        match r {
            Ok(item) => decoder.ensures((data,), Ok(item)),
            Err(Error::SerializationError(cause)) => decoder.ensures((data,), Err(cause)),
            Err(_) => false,
        },
{
    match decoder(data) {
        Ok(item) => Ok(item),
        Err(cause) => Err(Error::SerializationError(cause)),
    }
}

/// Decodes the element that the store gave, if it gave one. The result is
/// `None` where the store gave none, and only there: the decoder is then not
/// called. Where the store gave an element, the result is what the decoder
/// makes of it.
pub fn decode_optional<T, D: FnOnce(&Vec<u8>) -> Result<T, CborError>>(
    data: &Option<Vec<u8>>,
    decoder: D,
) -> (r: Result<Option<T>, Error>)
    requires
        data matches Some(found) ==> decoder.requires((&found,)),
    ensures
        match (*data, r) {
            (None, Ok(None)) => true,
            (None, _) => false,
            (Some(found), Ok(Some(item))) => decoder.ensures((&found,), Ok(item)),
            (Some(found), Ok(None)) => false,
            (Some(found), Err(Error::SerializationError(cause))) => decoder.ensures(
                (&found,),
                Err(cause),
            ),
            (Some(_), Err(_)) => false,
        },
{
    match data {
        None => Ok(None),
        Some(found) => match decoder(found) {
            Ok(item) => Ok(Some(item)),
            Err(cause) => Err(Error::SerializationError(cause)),
        },
    }
}

/// Decodes the elements that the store gave, in their order. The first
/// element that the decoder rejects ends the work, and its error is the
/// error of the whole.
pub fn decode_all<T, D: Fn(&Vec<u8>) -> Result<T, CborError>>(data: &Vec<Vec<u8>>, decoder: D) -> (r:
    Result<Vec<T>, Error>)
    requires
        forall|i: int| 0 <= i < data.len() ==> decoder.requires((&data[i],)),
    ensures
        match r {
            Ok(items) => {
                &&& items.len() == data.len()
                &&& forall|i: int|
                    0 <= i < data.len() ==> decoder.ensures((&data[i],), Ok(#[trigger] items[i]))
            },
            Err(Error::SerializationError(cause)) => exists|at: int, items: Seq<T>|
                {
                    &&& 0 <= at < data.len()
                    &&& items.len() == at
                    &&& forall|i: int|
                        0 <= i < at ==> decoder.ensures((&data[i],), Ok(#[trigger] items[i]))
                    &&& decoder.ensures((&data[at],), Err(cause))
                },
            Err(_) => false,
        },
{
    let mut items: Vec<T> = Vec::new();
    let mut i: usize = 0;
    while i < data.len()
        invariant
            i <= data.len(),
            items.len() == i,
            forall|j: int| 0 <= j < data.len() ==> decoder.requires((&data[j],)),
            forall|j: int| 0 <= j < i ==> decoder.ensures((&data[j],), Ok(#[trigger] items[j])),
        decreases data.len() - i,
    {
        match decoder(&data[i]) {
            Ok(item) => {
                items.push(item);
            },
            Err(cause) => {
                assert(items@.len() == i);
                return Err(Error::SerializationError(cause));
            },
        }
        i = i + 1;
    }
    Ok(items)
}

} // verus!
