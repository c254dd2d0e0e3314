use redis_backed::codec::{decode, decode_all, decode_optional, encode};
use redis_backed::Error;
use serde_cbor::error::Error as CborError;

fn to_bytes(n: &u32) -> Result<Vec<u8>, CborError> {
    serde_cbor::to_vec(n)
}

fn from_bytes(data: &Vec<u8>) -> Result<u32, CborError> {
    serde_cbor::from_slice(data)
}

#[test]
fn numbers_come_back_as_they_went() {
    for n in [0u32, 1, 23, 24, 255, 256, 65535, 65536, u32::MAX] {
        let data = encode(&n, to_bytes).unwrap();
        assert_eq!(decode(&data, from_bytes).unwrap(), n);
    }
}

#[test]
fn the_encoding_is_the_codecs() {
    assert_eq!(encode(&10u32, to_bytes).unwrap(), vec![0x0a]);
    assert_eq!(encode(&500u32, to_bytes).unwrap(), vec![0x19, 0x01, 0xf4]);
    let text = encode(&"a".to_string(), |text: &String| serde_cbor::to_vec(text)).unwrap();
    assert_eq!(text, vec![0x61, b'a']);
}

#[test]
fn a_failure_of_the_encoder_is_a_serialization_error() {
    let refuse = |_: &u32| -> Result<Vec<u8>, CborError> {
        Err(serde_cbor::from_slice::<u32>(&[]).unwrap_err())
    };
    assert!(matches!(encode(&1u32, refuse), Err(Error::SerializationError(_))));
}

#[test]
fn a_failure_of_the_decoder_is_a_serialization_error() {
    assert!(matches!(decode(&Vec::new(), from_bytes), Err(Error::SerializationError(_))));
    assert!(matches!(decode(&vec![0x61, b'a'], from_bytes), Err(Error::SerializationError(_))));
}

#[test]
fn nothing_decodes_to_nothing_without_the_decoder() {
    let never = |_: &Vec<u8>| -> Result<u32, CborError> { panic!("not to be called") };
    assert_eq!(decode_optional(&None, never).unwrap(), None);
}

#[test]
fn something_decodes_through_the_decoder() {
    assert_eq!(decode_optional(&Some(vec![0x0a]), from_bytes).unwrap(), Some(10));
    assert!(matches!(
        decode_optional(&Some(vec![0x61, b'a']), from_bytes),
        Err(Error::SerializationError(_))
    ));
    assert!(matches!(
        decode_optional(&Some(Vec::new()), from_bytes),
        Err(Error::SerializationError(_))
    ));
}

#[test]
fn an_element_that_decodes_to_nothing_is_still_an_element() {
    let optional = |data: &Vec<u8>| serde_cbor::from_slice::<Option<u32>>(data);
    assert_eq!(decode_optional(&Some(vec![0xf6]), optional).unwrap(), Some(None));
    assert_eq!(decode_optional(&Some(vec![0x0a]), optional).unwrap(), Some(Some(10)));
    assert_eq!(decode_optional(&None, optional).unwrap(), None);
    assert!(matches!(
        decode_optional(&Some(vec![0xf6]), from_bytes),
        Err(Error::SerializationError(_))
    ));
}

#[test]
fn all_elements_decode_in_order() {
    let data = vec![vec![0x01], vec![0x18, 0x64], vec![0x00]];
    assert_eq!(decode_all(&data, from_bytes).unwrap(), vec![1, 100, 0]);
    assert_eq!(decode_all(&Vec::new(), from_bytes).unwrap(), Vec::<u32>::new());
}

#[test]
fn the_first_rejected_element_ends_the_decoding() {
    let calls = std::cell::Cell::new(0);
    let counting = |data: &Vec<u8>| {
        calls.set(calls.get() + 1);
        serde_cbor::from_slice::<u32>(data)
    };
    let data = vec![vec![0x01], vec![0x61, b'a'], vec![0x02], vec![]];
    assert!(matches!(decode_all(&data, counting), Err(Error::SerializationError(_))));
    assert_eq!(calls.get(), 2);
}
