//! What can go wrong with requests and responses.

use vstd::prelude::*;

verus! {

/// Why a request could not be read or a response not be written.
#[derive(Debug)]
pub enum NinoverseHttpHandlerError {
    BufferError { additional_info: String },
    StreamError { additional_info: String },
    ParsingError { additional_info: String },
    RequestStructError { additional_info: String },
    ResponseStructError { additional_info: String },
}

/// The contents of a `NinoverseHttpHandlerError`.
#[verifier::ext_equal]
pub enum HandlerErrorView {
    BufferError(Seq<char>),
    StreamError(Seq<char>),
    ParsingError(Seq<char>),
    RequestStructError(Seq<char>),
    ResponseStructError(Seq<char>),
}

impl View for NinoverseHttpHandlerError {
    type V = HandlerErrorView;

    open spec fn view(&self) -> HandlerErrorView {
        match self {
            NinoverseHttpHandlerError::BufferError { additional_info } => {
                HandlerErrorView::BufferError(additional_info@)
            },
            NinoverseHttpHandlerError::StreamError { additional_info } => {
                HandlerErrorView::StreamError(additional_info@)
            },
            NinoverseHttpHandlerError::ParsingError { additional_info } => {
                HandlerErrorView::ParsingError(additional_info@)
            },
            NinoverseHttpHandlerError::RequestStructError { additional_info } => {
                HandlerErrorView::RequestStructError(additional_info@)
            },
            NinoverseHttpHandlerError::ResponseStructError { additional_info } => {
                HandlerErrorView::ResponseStructError(additional_info@)
            },
        }
    }
}

impl HandlerErrorView {
    /// The text that describes the error.
    pub open spec fn description(self) -> Seq<char> {
        match self {
            HandlerErrorView::BufferError(_) => "TCP_LISTENER: Error writing in buffer."@,
            HandlerErrorView::StreamError(_) => "TCP_LISTENER: Error handling the TcpStream."@,
            HandlerErrorView::ParsingError(_) => "TCP_LISTENER: Error parsing a response."@,
            HandlerErrorView::RequestStructError(_) => {
                "TCP_LISTENER: Error building the request struct."@
            },
            HandlerErrorView::ResponseStructError(_) => {
                "TCP_LISTENER: Error building the response struct."@
            },
        }
    }
}

impl NinoverseHttpHandlerError {
    /// Describes the error.
    pub fn message(&self) -> (text: String)
        ensures
            text@ == self@.description(),
    {
        match self {
            NinoverseHttpHandlerError::BufferError {
                ..
            } => "TCP_LISTENER: Error writing in buffer.".to_owned(),
            NinoverseHttpHandlerError::StreamError {
                ..
            } => "TCP_LISTENER: Error handling the TcpStream.".to_owned(),
            NinoverseHttpHandlerError::ParsingError {
                ..
            } => "TCP_LISTENER: Error parsing a response.".to_owned(),
            NinoverseHttpHandlerError::RequestStructError {
                ..
            } => "TCP_LISTENER: Error building the request struct.".to_owned(),
            NinoverseHttpHandlerError::ResponseStructError {
                ..
            } => "TCP_LISTENER: Error building the response struct.".to_owned(),
        }
    }
}

/// Something that could not be parsed.
pub fn parsing_error(info: &str) -> (error: NinoverseHttpHandlerError)
    ensures
        error@ == HandlerErrorView::ParsingError(info@),
{
    NinoverseHttpHandlerError::ParsingError { additional_info: info.to_owned() }
}

/// Something that could not be written.
pub fn buffer_error(info: &str) -> (error: NinoverseHttpHandlerError)
    ensures
        error@ == HandlerErrorView::BufferError(info@),
{
    NinoverseHttpHandlerError::BufferError { additional_info: info.to_owned() }
}

/// Every error says which part of the handling it comes from.
pub proof fn handler_errors_say_where_they_come_from(text: Seq<char>)
    ensures
        HandlerErrorView::BufferError(text).description()
            == "TCP_LISTENER: Error writing in buffer."@,
        HandlerErrorView::StreamError(text).description()
            == "TCP_LISTENER: Error handling the TcpStream."@,
        HandlerErrorView::ParsingError(text).description()
            == "TCP_LISTENER: Error parsing a response."@,
        HandlerErrorView::RequestStructError(text).description()
            == "TCP_LISTENER: Error building the request struct."@,
        HandlerErrorView::ResponseStructError(text).description()
            == "TCP_LISTENER: Error building the response struct."@,
{
}

} // verus!
