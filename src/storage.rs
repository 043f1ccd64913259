use vstd::prelude::*;

verus! {

/// A failure reported by a serializer.
#[derive(Clone, Debug, PartialEq, Eq)]
pub struct CodecError {
    pub message: String,
}

/// Why a storage operation failed.
#[derive(Clone, Debug, PartialEq, Eq)]
pub enum StorageError {
    /// Nothing has been saved yet.
    NoData,
    /// The serializer refused the value or the bytes.
    Codec(CodecError),
}

impl StorageError {
    /// A human-readable description of the error.
    pub fn message(&self) -> (r: String)
        ensures
            self is NoData ==> r@ == "No data to load"@,
            self is Codec ==> r@ == self->Codec_0.message@,
    {
        match self {
            StorageError::NoData => String::from_str("No data to load"),
            StorageError::Codec(e) => e.message.clone(),
        }
    }
}

/// Turns values of `T` into bytes and back.
pub trait Serializer<T> {
    fn to_bytes(&self, value: &T) -> Result<Vec<u8>, CodecError>;

    fn from_bytes(&self, bytes: &[u8]) -> Result<T, CodecError>;
}

/// Holds at most one value of `T`, kept in the encoding of `S`.
pub struct Storage<T, S> {
    data: Option<Vec<u8>>,
    serializer: S,
    marker: core::marker::PhantomData<T>,
}

impl<T, S: Serializer<T>> View for Storage<T, S> {
    type V = Option<Seq<u8>>;

    /// The bytes last saved, if any.
    closed spec fn view(&self) -> Option<Seq<u8>> {
        match self.data {
            Some(bytes) => Some(bytes@),
            None => None,
        }
    }
}

impl<T, S: Serializer<T>> Storage<T, S> {
    /// The serializer this storage encodes with.
    pub closed spec fn codec(&self) -> S {
        self.serializer
    }

    /// An empty storage that will encode with `serializer`.
    pub fn new(serializer: S) -> (r: Self)
        ensures
            r@ is None,
            r.codec() == serializer,
    {
        Storage { data: None, serializer, marker: core::marker::PhantomData }
    }

    /// Keeps the outcome of encoding a value: the bytes replace what was
    /// held; an error leaves it untouched and is passed on.
    pub fn keep_encoded(&mut self, encoded: Result<Vec<u8>, CodecError>) -> (r: Result<
        (),
        StorageError,
    >)
        ensures
            final(self).codec() == old(self).codec(),
            match encoded {
                Ok(bytes) => r is Ok && final(self)@ == Some(bytes@),
                Err(e) => r == Err::<(), StorageError>(StorageError::Codec(e)) && final(self)@
                    == old(self)@,
            },
    {
        match encoded {
            Ok(bytes) => {
                self.data = Some(bytes);
                Ok(())
            },
            Err(e) => Err(StorageError::Codec(e)),
        }
    }

    /// Encodes `value` and keeps its bytes in place of what was held.
    pub fn save(&mut self, value: &T) -> (r: Result<(), StorageError>)
        ensures
            final(self).codec() == old(self).codec(),
            r is Ok ==> final(self)@ is Some,
            r is Err ==> final(self)@ == old(self)@ && r->Err_0 is Codec,
    {
        let encoded = self.serializer.to_bytes(value);
        self.keep_encoded(encoded)
    }

    /// Decodes the bytes held; fails with `NoData` exactly when nothing was
    /// saved.
    pub fn load(&self) -> (r: Result<T, StorageError>)
        ensures
            self@ is None <==> (r is Err && r->Err_0 is NoData),
            r is Err && self@ is Some ==> r->Err_0 is Codec,
    {
        match &self.data {
            Some(bytes) => match self.serializer.from_bytes(bytes.as_slice()) {
                Ok(value) => Ok(value),
                Err(e) => Err(StorageError::Codec(e)),
            },
            None => Err(StorageError::NoData),
        }
    }

    /// Whether a value has been saved.
    pub fn has_data(&self) -> (r: bool)
        ensures
            r == self@ is Some,
    {
        self.data.is_some()
    }
}

} // verus!
