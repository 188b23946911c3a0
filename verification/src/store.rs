//! How the user's data come back from where they are kept.
//!
//! Reading and writing the data file is the host program's work. This module
//! decides what becomes of what the host found: stored data are taken as
//! they are, a file that cannot be read is an error and is left alone, and
//! where nothing is stored yet the user starts with the seed data, which the
//! host has to write out before the load counts as done.

use vstd::prelude::*;
use crate::data::{UserData, seed_data};

verus! {

/// The identifier under which the platform keeps the application's data.
pub const APP_NAME: &'static str = "magistrax";

/// The name of the data file in the application's data directory.
pub const DATA_FILE_NAME: &'static str = "user-data.json";

/// What the host found at the data file's place. `E` is the host's error.
pub enum Stored<E> {
    /// There is no data file.
    Missing,
    /// The data file was read, and these are the data in it.
    Found(UserData),
    /// There is a data file, but opening or decoding it failed.
    Unreadable(E),
}

/// What a load has come to after the host's look at the data file.
pub enum LoadStep<E> {
    /// The load is done, with these data.
    Ready(UserData),
    /// The load has failed.
    Failed(E),
    /// Nothing was stored: the host is to write these data out and hand the
    /// outcome to [`finish_seed`].
    Seed(UserData),
}

/// The first step of a load: stored data are the result, an unreadable file
/// fails the load with the host's error, and a missing file asks for the
/// seed data to be written.
pub fn begin_load<E>(stored: Stored<E>) -> (step: LoadStep<E>)
    ensures
        match stored {
            Stored::Found(data) => step == LoadStep::<E>::Ready(data),
            Stored::Unreadable(error) => step == LoadStep::<E>::Failed(error),
            Stored::Missing => step matches LoadStep::Seed(seed) && seed@ == seed_data(),
        },
{
    match stored {
        Stored::Found(data) => LoadStep::Ready(data),
        Stored::Unreadable(error) => LoadStep::Failed(error),
        Stored::Missing => LoadStep::Seed(UserData::default()),
    }
}

/// The last step of a load that found nothing: the seed data are the result
/// if the host wrote them out, and the host's error is otherwise.
pub fn finish_seed<E>(seed: UserData, written: Result<(), E>) -> (loaded: Result<UserData, E>)
    ensures
        match written {
            Ok(_) => loaded == Ok::<UserData, E>(seed),
            Err(error) => loaded == Err::<UserData, E>(error),
        },
{
    match written {
        Ok(_) => Ok(seed),
        Err(error) => Err(error),
    }
}

/// The data to start the program with: what was loaded, or the seed data
/// where the load failed. Nothing is written out on that account.
pub fn loaded_or_default<E>(loaded: Result<UserData, E>) -> (data: UserData)
    ensures
        match loaded {
            Ok(found) => data == found,
            Err(_) => data@ == seed_data(),
        },
{
    match loaded {
        Ok(found) => found,
        Err(_) => UserData::default(),
    }
}

} // verus!
