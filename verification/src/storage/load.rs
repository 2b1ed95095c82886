//! Reading a stored checkpoint back.
use vstd::prelude::*;

verus! {

/// What reading stored bytes came to.
pub enum Fetched<B, E> {
    Found(B),
    /// Nothing has been stored yet.
    Missing,
    Failed(E),
}

/// Why a checkpoint could not be loaded.
pub enum LoadFailure<E, D> {
    /// The bytes could not be read.
    Fetch(E),
    /// The bytes could not be decoded.
    Decode(D),
}

/// Whether loading may come to this: nothing stored is no checkpoint, and what is stored is what
/// `decode` makes of it.
pub open spec fn may_load<B, C, E, D, F: FnOnce(B) -> Result<C, D>>(
    fetched: Fetched<B, E>,
    decode: F,
    loaded: Result<Option<C>, LoadFailure<E, D>>,
) -> bool {
    match fetched {
        Fetched::Missing => loaded == Ok::<Option<C>, LoadFailure<E, D>>(None),
        Fetched::Failed(error) => loaded == Err::<Option<C>, LoadFailure<E, D>>(
            LoadFailure::Fetch(error),
        ),
        Fetched::Found(bytes) => match loaded {
            Ok(Some(checkpoint)) => call_ensures(decode, (bytes,), Ok(checkpoint)),
            Err(LoadFailure::Decode(error)) => call_ensures(decode, (bytes,), Err(error)),
            _ => false,
        },
    }
}

/// Decode what has been read, if there was anything to read.
pub fn load<B, C, E, D, F: FnOnce(B) -> Result<C, D>>(fetched: Fetched<B, E>, decode: F) -> (loaded:
    Result<Option<C>, LoadFailure<E, D>>)
    requires
        fetched matches Fetched::Found(bytes) ==> call_requires(decode, (bytes,)),
    ensures
        may_load(fetched, decode, loaded),
{
    match fetched {
        Fetched::Missing => Ok(None),
        Fetched::Failed(error) => Err(LoadFailure::Fetch(error)),
        Fetched::Found(bytes) => match decode(bytes) {
            Ok(checkpoint) => Ok(Some(checkpoint)),
            Err(error) => Err(LoadFailure::Decode(error)),
        },
    }
}

/// What was saved is loaded back: where `decode` makes nothing else of the bytes that `encode` makes
/// of a checkpoint, loading those bytes gives the checkpoint.
pub proof fn saved_checkpoints_load_back<B, C, E, D, S, G, F>(
    encode: G,
    checkpoint: C,
    bytes: B,
    decode: F,
    loaded: Result<Option<C>, LoadFailure<E, D>>,
) where G: FnOnce(&C) -> Result<B, S>, F: FnOnce(B) -> Result<C, D>
    requires
        call_ensures(encode, (&checkpoint,), Ok(bytes)),
        forall|encoded: B, decoded: Result<C, D>|
            call_ensures(encode, (&checkpoint,), Ok(encoded)) && #[trigger] call_ensures(
                decode,
                (encoded,),
                decoded,
            ) ==> decoded == Ok::<C, D>(checkpoint),
        may_load(Fetched::Found(bytes), decode, loaded),
    ensures
        loaded == Ok::<Option<C>, LoadFailure<E, D>>(Some(checkpoint)),
{
}

/// Nothing stored is no checkpoint and no failure, a failure to read is told as such, and what is stored
/// is never taken for nothing: it is decoded, or the failure to decode it is told.
pub proof fn loading_loses_nothing<B, C, E, D, F: FnOnce(B) -> Result<C, D>>(
    fetched: Fetched<B, E>,
    decode: F,
    loaded: Result<Option<C>, LoadFailure<E, D>>,
)
    requires
        may_load(fetched, decode, loaded),
    ensures
        loaded matches Ok(None) <==> fetched is Missing,
        fetched is Failed <==> (loaded matches Err(LoadFailure::Fetch(_))),
        fetched matches Fetched::Failed(error) ==> loaded->Err_0 == LoadFailure::<E, D>::Fetch(
            error,
        ),
        loaded matches Ok(Some(checkpoint)) ==> fetched is Found && call_ensures(
            decode,
            (fetched->Found_0,),
            Ok(checkpoint),
        ),
        loaded matches Err(LoadFailure::Decode(error)) ==> fetched is Found && call_ensures(
            decode,
            (fetched->Found_0,),
            Err(error),
        ),
{
}

} // verus!
