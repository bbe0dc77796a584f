use vstd::prelude::*;

verus! {

/// tokio's handle to a spawned listener task, carried opaquely.
#[verifier::external_type_specification]
#[verifier::external_body]
#[verifier::reject_recursive_types(T)]
pub struct ExJoinHandle<T>(tokio::task::JoinHandle<T>);

/// tokio's error for a task that panicked or was cancelled, named so that
/// the handle's output type is known.
#[verifier::external_type_specification]
#[verifier::external_body]
pub struct ExJoinError(tokio::task::JoinError);

/// Relies on tokio's `JoinHandle::abort`: it only asks the runtime to cancel
/// the task and returns at once, whatever state the task is in.
pub assume_specification<T>[ tokio::task::JoinHandle::<T>::abort ](h: &tokio::task::JoinHandle<T>);

} // verus!
