//! What the spreadsheet service is asked, and how its answers are classified.
//!
//! The adapter classifies and nothing more: whether a rejection leads to a
//! reconnect is for the connector to decide.

use crate::json::{Json, JsonModel};
use crate::payload::{rows_view, Payload, PayloadModel};
use vstd::prelude::*;

verus! {

/// The failures that the spreadsheet client can report, one per kind.
#[derive(Clone, Copy, Debug, PartialEq, Eq, Structural)]
pub enum ClientError {
    /// The HTTP connection failed.
    HttpError,
    /// Reading or writing a stream failed.
    Io,
    /// No API key was to be had.
    MissingApiKey,
    /// The authenticator gave no token.
    MissingToken,
    /// The operation was called off.
    Cancelled,
    /// The upload is larger than the service takes.
    UploadSizeLimitExceeded,
    /// The service answered with a status that is no success.
    Failure,
    /// The service did not understand the request.
    BadRequest,
    /// A free-form parameter clashed with a built-in one.
    FieldClash,
    /// The answer of the service could not be decoded.
    JsonDecodeError,
}

/// Why the service did not take a record.
#[derive(Clone, Copy, Debug, PartialEq, Eq, Structural)]
pub enum Rejection {
    Transport,
    Authentication,
    Cancelled,
    PayloadTooLarge,
    MalformedRequest,
    ServerFailure,
    ResponseDecode,
}

/// How one delivery ended.
#[derive(Clone, Copy, Debug, PartialEq, Eq, Structural)]
pub enum DeliveryOutcome {
    /// The service took the record and answered with this HTTP status.
    Delivered { status: u16 },
    /// The service did not take the record.
    Rejected(Rejection),
}

/// The class of each failure of the client.
pub open spec fn rejection_of(error: ClientError) -> Rejection {
    match error {
        ClientError::HttpError | ClientError::Io => Rejection::Transport,
        ClientError::MissingApiKey | ClientError::MissingToken => Rejection::Authentication,
        ClientError::Cancelled => Rejection::Cancelled,
        ClientError::UploadSizeLimitExceeded => Rejection::PayloadTooLarge,
        ClientError::BadRequest | ClientError::FieldClash => Rejection::MalformedRequest,
        ClientError::Failure => Rejection::ServerFailure,
        ClientError::JsonDecodeError => Rejection::ResponseDecode,
    }
}

/// What a call of the client amounts to: a status on success, a class of
/// rejection on failure.
pub open spec fn outcome_of(answer: Result<u16, ClientError>) -> DeliveryOutcome {
    match answer {
        Ok(status) => DeliveryOutcome::Delivered { status },
        Err(error) => DeliveryOutcome::Rejected(rejection_of(error)),
    }
}

/// Classifies a failure of the client.
pub fn classify(error: ClientError) -> (r: Rejection)
    ensures
        r == rejection_of(error),
{
    match error {
        ClientError::HttpError => Rejection::Transport,
        ClientError::Io => Rejection::Transport,
        ClientError::MissingApiKey => Rejection::Authentication,
        ClientError::MissingToken => Rejection::Authentication,
        ClientError::Cancelled => Rejection::Cancelled,
        ClientError::UploadSizeLimitExceeded => Rejection::PayloadTooLarge,
        ClientError::BadRequest => Rejection::MalformedRequest,
        ClientError::FieldClash => Rejection::MalformedRequest,
        ClientError::Failure => Rejection::ServerFailure,
        ClientError::JsonDecodeError => Rejection::ResponseDecode,
    }
}

/// Turns the answer of the client into the outcome of the delivery.
pub fn delivery_outcome(answer: Result<u16, ClientError>) -> (r: DeliveryOutcome)
    ensures
        r == outcome_of(answer),
{
    match answer {
        Ok(status) => DeliveryOutcome::Delivered { status },
        Err(error) => DeliveryOutcome::Rejected(classify(error)),
    }
}

/// How the service reads the values it is sent.
#[derive(Clone, Copy, Debug, PartialEq, Eq, Structural)]
pub enum ValueInputOption {
    /// As if typed into the sheet: formulas and dates are recognised.
    UserEntered,
}

/// What the service does with cells that already hold data.
#[derive(Clone, Copy, Debug, PartialEq, Eq, Structural)]
pub enum InsertDataOption {
    /// The new rows are written over them.
    Overwrite,
}

/// One request to append rows to a sheet.
#[derive(Debug, PartialEq, Eq)]
pub struct AppendRequest {
    /// The spreadsheet written to.
    pub spreadsheet_id: String,
    /// The range after which the rows are appended.
    pub range: String,
    /// The rows.
    pub values: Vec<Vec<Json>>,
    /// Whether the inner sequences of `values` are rows or columns.
    pub major_dimension: String,
    pub value_input_option: ValueInputOption,
    pub insert_data_option: InsertDataOption,
    /// Whether the answer repeats the values written.
    pub include_values_in_response: bool,
}

/// What an append request is, as mathematics.
pub ghost struct AppendRequestModel {
    pub spreadsheet_id: Seq<char>,
    pub range: Seq<char>,
    pub values: Seq<Seq<JsonModel>>,
    pub major_dimension: Seq<char>,
    pub value_input_option: ValueInputOption,
    pub insert_data_option: InsertDataOption,
    pub include_values_in_response: bool,
}

impl View for AppendRequest {
    type V = AppendRequestModel;

    open spec fn view(&self) -> AppendRequestModel {
        AppendRequestModel {
            spreadsheet_id: self.spreadsheet_id@,
            range: self.range@,
            values: rows_view(self.values@),
            major_dimension: self.major_dimension@,
            value_input_option: self.value_input_option,
            insert_data_option: self.insert_data_option,
            include_values_in_response: self.include_values_in_response,
        }
    }
}

impl ValueInputOption {
    /// The word that the service knows this option by.
    pub fn wire_name(&self) -> (r: String)
        ensures
            r@ == "USER_ENTERED"@,
    {
        String::from_str("USER_ENTERED")
    }
}

impl InsertDataOption {
    /// The word that the service knows this option by.
    pub fn wire_name(&self) -> (r: String)
        ensures
            r@ == "OVERWRITE"@,
    {
        String::from_str("OVERWRITE")
    }
}

/// The request that delivers a record. All four parts of the record go
/// out as they are: its rows, laid out as its layout flag says, to its range
/// of its spreadsheet. They are entered as a user would enter them and
/// written over what is there, and the answer does not repeat them.
pub open spec fn request_of(payload: PayloadModel) -> AppendRequestModel {
    AppendRequestModel {
        spreadsheet_id: payload.spreadsheet_id,
        range: payload.range,
        values: payload.values,
        major_dimension: payload.major_dimension,
        value_input_option: ValueInputOption::UserEntered,
        insert_data_option: InsertDataOption::Overwrite,
        include_values_in_response: false,
    }
}

/// Builds the request that delivers `payload`.
pub fn append_request(payload: Payload) -> (r: AppendRequest)
    ensures
        r@ == request_of(payload@),
        r@.range == payload@.range,
        r@.values == payload@.values,
        r@.major_dimension == payload@.major_dimension,
        r@.spreadsheet_id == payload@.spreadsheet_id,
{
    AppendRequest {
        spreadsheet_id: payload.spreadsheet_id,
        range: payload.range,
        values: payload.values,
        major_dimension: payload.major_dimension,
        value_input_option: ValueInputOption::UserEntered,
        insert_data_option: InsertDataOption::Overwrite,
        include_values_in_response: false,
    }
}

} // verus!
