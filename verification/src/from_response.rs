//! What to make of a response.
use crate::raw_response::{json_of, RawResponse, ResponseView};
use crate::response::{may_parse, parses};
use std::marker::PhantomData;
use std::sync::Arc;
use vstd::prelude::*;

verus! {

/// Determines what value to return to the user. See [`Raw`] and [`De<T>`].
pub trait FromResponse: Sized {
    /// The output we'll hand back if all is well.
    type Output;

    /// The error we'll hand back if things go wrong.
    type Error;

    /// Take a response and return a result.
    fn from_response(response: Arc<RawResponse<'static>>) -> Result<Self::Output, Self::Error>;
}

/// Ask for the raw response object. This is cheaply cloneable,
/// and provides a reference to the response returned without
/// doing any further deserializing.
#[derive(Debug)]
pub struct Raw(Arc<RawResponse<'static>>);

impl View for Raw {
    type V = ResponseView;

    closed spec fn view(&self) -> ResponseView {
        self.0@
    }
}

impl Clone for Raw {
    fn clone(&self) -> (r: Self)
        ensures
            r@ == self@,
    {
        Raw(self.0.clone())
    }
}

/// This cannot happen.
#[derive(Debug)]
pub enum RawError {
    /// No value of this exists.
    Never(std::convert::Infallible),
}

impl Raw {
    /// Return a reference to the raw response.
    pub fn response(&self) -> (response: &RawResponse<'static>)
        ensures
            response@ == self@,
    {
        &self.0
    }
}

impl std::ops::Deref for Raw {
    type Target = RawResponse<'static>;

    fn deref(&self) -> (response: &RawResponse<'static>)
        ensures
            response@ == self@,
    {
        &self.0
    }
}

impl FromResponse for Raw {
    type Output = Raw;

    type Error = RawError;

    fn from_response(response: Arc<RawResponse<'static>>) -> (r: Result<Raw, RawError>)
        ensures
            r is Ok,
            r matches Ok(raw) ==> raw@ == response@,
    {
        Ok(Raw(response))
    }
}

/// Ask to deserialize a successful response "result" into some type,
/// returning an error if either a JSON-RPC error was returned, or if
/// the deserializing fails.
pub struct De<T>(PhantomData<T>);

/// An error returned from trying to deserialize the response.
#[derive(Debug)]
pub enum DeError {
    /// A JSON-RPC error object was returned. This error is emitted
    /// if you ask to deserialize some response, but get an error
    /// back instead of the expected response. We hand back the entire
    /// raw response to avoid extra allocations.
    Rpc(Raw),
    /// An error deserializing some received JSON into the expected type.
    Deserialize(serde_json::Error),
}

impl<T> De<T> {
    /// Take a response and return a result, which `parse` makes of JSON.
    pub fn from_response<P: FnOnce(&str) -> Result<T, serde_json::Error>>(
        response: Arc<RawResponse<'static>>,
        parse: P,
    ) -> (r: Result<T, DeError>)
        requires
            response@ matches ResponseView::Success(ok) ==> parses(parse, ok.result),
        ensures
            match response@ {
                ResponseView::Success(ok) => match r {
                    Ok(value) => may_parse(parse, ok.result, Ok(value)),
                    Err(DeError::Deserialize(error)) => may_parse(parse, ok.result, Err(error)),
                    Err(DeError::Rpc(_)) => false,
                },
                ResponseView::Error(_) => match r {
                    Err(DeError::Rpc(raw)) => raw@ == response@,
                    _ => false,
                },
            },
    {
        let res = match &*response {
            RawResponse::Success(res) => res,
            RawResponse::Error(_) => {
                return Err(DeError::Rpc(Raw(response)));
            },
        };
        match parse(json_of(&res.result).get()) {
            Ok(value) => Ok(value),
            Err(error) => Err(DeError::Deserialize(error)),
        }
    }
}

} // verus!
