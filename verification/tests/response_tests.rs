use cachekit::ApiResponse;
use cachekit::ApiResponseStatus;
use cachekit::Error;

#[derive(Debug, PartialEq)]
enum MyError {
    UnitError,
    TupleError(u16),
    StructError { _inner: String },
}

impl Error for MyError {
    fn error_code(&self) -> u16 {
        match self {
            MyError::UnitError => 200,
            MyError::TupleError(_) => 300,
            MyError::StructError { .. } => 400,
        }
    }

    fn message(&self) -> String {
        match self {
            MyError::UnitError => "UnitError".to_string(),
            MyError::TupleError(v) => format!("TupleError({})", v),
            MyError::StructError { _inner } => format!("StructError {{ _inner: {:?} }}", _inner),
        }
    }
}

#[test]
fn test_success_response() {
    let response: ApiResponse<String, MyError> = ApiResponse::success("Hello, world!".to_string());
    assert!(matches!(response.status, ApiResponseStatus::Success));
    assert_eq!(response.status.text(), "success");
    assert_eq!(response.data, Some("Hello, world!".to_string()));
    assert!(response.error.is_none());
}

#[test]
fn test_unit_error_response() {
    let error = MyError::UnitError;
    let response: ApiResponse<(), MyError> = ApiResponse::error(error);
    assert!(matches!(response.status, ApiResponseStatus::Failed));
    assert_eq!(response.status.text(), "failed");
    assert!(response.data.is_none());
    let recorded = response.error.unwrap();
    assert_eq!(recorded.code(), 200);
    assert_eq!(recorded.message(), "UnitError");
}

#[test]
fn test_tuple_error_response() {
    let error = MyError::TupleError(123);
    let response: ApiResponse<(), MyError> = ApiResponse::error(error);
    assert!(matches!(response.status, ApiResponseStatus::Failed));
    assert!(response.data.is_none());
    let recorded = response.error.unwrap();
    assert_eq!(recorded.code(), 300);
    assert_eq!(recorded.message(), "TupleError(123)");
}

#[test]
fn test_struct_error_response() {
    let error = MyError::StructError {
        _inner: "Internal Error".to_string(),
    };
    let response: ApiResponse<(), MyError> = ApiResponse::error(error);
    assert!(matches!(response.status, ApiResponseStatus::Failed));
    assert!(response.data.is_none());
    let recorded = response.error.unwrap();
    assert_eq!(recorded.code(), 400);
    assert_eq!(
        recorded.message(),
        "StructError { _inner: \"Internal Error\" }"
    );
}

#[test]
fn test_empty_response() {
    let response: ApiResponse<(), MyError> = ApiResponse {
        status: ApiResponseStatus::Success,
        data: None,
        error: None,
    };
    assert!(matches!(response.status, ApiResponseStatus::Success));
    assert!(response.data.is_none());
    assert!(response.error.is_none());
}
