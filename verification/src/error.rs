//! Why a name could not be resolved.
use ethers::providers::ProviderError;
use vstd::prelude::*;

verus! {

/// What a provider reports when a call to the chain fails.
#[verifier::external_type_specification]
#[verifier::external_body]
pub struct ExProviderError(ProviderError);

/// Why a name could not be resolved. `C` is what the gateway protocol reports.
#[derive(Debug)]
pub enum ProfileError<C> {
    /// The name does not exist.
    NotFound,
    /// An off-chain lookup failed.
    CCIPError(C),
    /// The chain could not be asked.
    RPCError(ProviderError),
    /// The name has no DNS wire form.
    DNSEncodeError(String),
    /// The reply was not what the resolver contract promises.
    ImplementationError(String),
}

/// How a call to the resolver contract failed.
#[derive(Debug)]
pub enum CallFailure<C> {
    /// An off-chain lookup failed.
    Gateway(C),
    /// The provider failed other than by its JSON-RPC client.
    Provider(ProviderError),
    /// The JSON-RPC client of the provider failed.
    JsonRpc {
        error: ProviderError,
        /// Whether the node answered, with an error.
        answered: bool,
    },
}

impl<C> CallFailure<C> {
    /// What the failure says about the name.
    pub open spec fn reason(self) -> ProfileError<C> {
        match self {
            CallFailure::Gateway(error) => ProfileError::CCIPError(error),
            CallFailure::Provider(error) => ProfileError::RPCError(error),
            CallFailure::JsonRpc { error, answered } => if answered {
                ProfileError::NotFound
            } else {
                ProfileError::RPCError(error)
            },
        }
    }

    /// Tells what the failure says about the name. Where the node answered with an error, it
    /// is taken to say that the name does not exist.
    pub fn into_reason(self) -> (reason: ProfileError<C>)
        ensures
            reason == self.reason(),
            self matches CallFailure::Gateway(error) ==> reason == ProfileError::CCIPError(error),
            self matches CallFailure::Provider(error) ==> reason == ProfileError::<C>::RPCError(
                error,
            ),
            self matches CallFailure::JsonRpc { error, answered } ==> if answered {
                reason is NotFound
            } else {
                reason == ProfileError::<C>::RPCError(error)
            },
    {
        match self {
            CallFailure::Gateway(error) => ProfileError::CCIPError(error),
            CallFailure::Provider(error) => ProfileError::RPCError(error),
            CallFailure::JsonRpc { error, answered } => if answered {
                ProfileError::NotFound
            } else {
                ProfileError::RPCError(error)
            },
        }
    }
}

/// A failed call says that the name does not exist exactly where the node answered it with
/// an error.
pub proof fn law_missing_only_where_the_node_answered<C>(failure: CallFailure<C>)
    ensures
        failure.reason() is NotFound <==> (failure matches CallFailure::JsonRpc {
            answered,
            ..
        } && answered),
{
}

/// A failed call hands its error on, whole, wherever it does not say that the name is missing.
pub proof fn law_failures_hand_their_error_on<C>(failure: CallFailure<C>)
    ensures
        failure matches CallFailure::Gateway(error) ==> failure.reason()
            == ProfileError::CCIPError(error),
        failure matches CallFailure::Provider(error) ==> failure.reason()
            == ProfileError::<C>::RPCError(error),
        failure matches CallFailure::JsonRpc { error, answered } ==> (!answered
            ==> failure.reason() == ProfileError::<C>::RPCError(error)),
{
}

} // verus!
