//! The providers: what each one is asked, and what its answers mean.

pub mod anthropic;
pub mod anthropic_answer_laws;
pub mod anthropic_events;
pub mod anthropic_request_laws;
pub mod debug;
pub mod google;
pub mod google_answer_laws;
pub mod google_events;
pub mod google_request_laws;
pub mod openai_responses;
pub mod openai_responses_answer_laws;
pub mod openai_responses_events;
pub mod openai_responses_request_laws;
pub mod reading;
pub mod request;
pub mod stream;

use vstd::prelude::*;

use crate::providers::request::{ProviderRequest, RequestView};
use crate::types::{
    Context, ContextView, Model, ModelView, OptionsView, StreamError, StreamErrorView,
    StreamOptions,
};

verus! {

/// A provider, as far as a request to it goes.
pub trait Provider {
    /// The name under which a missing key is reported.
    spec fn label(&self) -> Seq<char>;

    /// The environment variables that may hold a key, the first one first.
    spec fn variables(&self) -> Seq<Seq<char>>;

    /// How many idle connections a client keeps for each host, where the
    /// provider limits them.
    spec fn idle_limit(&self) -> Option<usize>;

    /// The request that asks a model to answer, given the key.
    spec fn request_view(
        &self,
        model: ModelView,
        context: ContextView,
        options: OptionsView,
        key: Seq<char>,
    ) -> RequestView;

    /// The name under which a missing key is reported.
    fn name(&self) -> (name: &'static str)
        ensures
            name@ == self.label(),
    ;

    /// The environment variables that may hold a key, the first one first.
    fn key_variables(&self) -> (names: Vec<&'static str>)
        ensures
            names.deep_view() == self.variables(),
    ;

    /// How many idle connections a client keeps for each host, where the
    /// provider limits them.
    fn pool_max_idle_per_host(&self) -> (limit: Option<usize>)
        ensures
            limit == self.idle_limit(),
    ;

    /// The request that asks a model to answer, given the key.
    fn build_request(
        &self,
        model: &Model,
        context: &Context,
        options: &StreamOptions,
        key: &str,
    ) -> (request: ProviderRequest)
        ensures
            request.deep_view() == self.request_view(
                model.deep_view(),
                context.deep_view(),
                options.deep_view(),
                key@,
            ),
    ;
}

/// The request that asks a model to answer. The key is the one of the options,
/// or else the first of the values that were found for the provider's
/// variables; without any there is no request.
pub fn prepare_request<P: Provider>(
    provider: &P,
    model: &Model,
    context: &Context,
    options: &StreamOptions,
    found: &Vec<Option<String>>,
) -> (request: Result<ProviderRequest, StreamError>)
    ensures
        match request::key_of(options.deep_view().api_key, found.deep_view()) {
            Some(key) => request matches Ok(request) && request.deep_view()
                == provider.request_view(
                model.deep_view(),
                context.deep_view(),
                options.deep_view(),
                key,
            ),
            None => request matches Err(error) && error.deep_view()
                == StreamErrorView::MissingApiKey(provider.label()),
        },
{
    match request::choose_key(&options.api_key, found) {
        Some(key) => Ok(provider.build_request(model, context, options, key.as_str())),
        None => Err(StreamError::MissingApiKey(provider.name().to_owned())),
    }
}

} // verus!
