use tx_compiler::{CodecError, Serializer, Storage, StorageError};

struct LeU32;

impl Serializer<u32> for LeU32 {
    fn to_bytes(&self, value: &u32) -> Result<Vec<u8>, CodecError> {
        Ok(value.to_le_bytes().to_vec())
    }

    fn from_bytes(&self, bytes: &[u8]) -> Result<u32, CodecError> {
        let arr: [u8; 4] = bytes
            .try_into()
            .map_err(|_| CodecError { message: "expected four bytes".to_string() })?;
        Ok(u32::from_le_bytes(arr))
    }
}

struct Refuses;

impl Serializer<u32> for Refuses {
    fn to_bytes(&self, _value: &u32) -> Result<Vec<u8>, CodecError> {
        Err(CodecError { message: "refused".to_string() })
    }

    fn from_bytes(&self, _bytes: &[u8]) -> Result<u32, CodecError> {
        Err(CodecError { message: "refused".to_string() })
    }
}

#[test]
fn new_storage_is_empty() {
    let storage: Storage<u32, LeU32> = Storage::new(LeU32);
    assert!(!storage.has_data());
    let err = storage.load().unwrap_err();
    assert_eq!(err, StorageError::NoData);
    assert_eq!(err.message(), "No data to load");
}

#[test]
fn saved_value_loads_back() {
    let mut storage: Storage<u32, LeU32> = Storage::new(LeU32);
    storage.save(&30).unwrap();
    assert!(storage.has_data());
    assert_eq!(storage.load().unwrap(), 30);
    storage.save(&0xdead_beef).unwrap();
    assert_eq!(storage.load().unwrap(), 0xdead_beef);
}

#[test]
fn failed_save_keeps_nothing() {
    let mut storage: Storage<u32, Refuses> = Storage::new(Refuses);
    let err = storage.save(&5).unwrap_err();
    assert_eq!(err, StorageError::Codec(CodecError { message: "refused".to_string() }));
    assert_eq!(err.message(), "refused");
    assert!(!storage.has_data());
}

#[test]
fn kept_bytes_replace_earlier_ones() {
    let mut storage: Storage<u32, LeU32> = Storage::new(LeU32);
    storage.keep_encoded(Ok(vec![1, 0, 0, 0])).unwrap();
    assert_eq!(storage.load().unwrap(), 1);
    let err = storage.keep_encoded(Err(CodecError { message: "bad".to_string() }));
    assert!(matches!(err, Err(StorageError::Codec(_))));
    assert_eq!(storage.load().unwrap(), 1);
    storage.keep_encoded(Ok(vec![1, 2])).unwrap();
    assert!(matches!(storage.load(), Err(StorageError::Codec(_))));
}
