//! The response envelope handed to the HTTP layer.
use vstd::prelude::*;
use vstd::string::*;

verus! {

/// Status code of a successful response.
pub const SUCCESS_CODE: i32 = 200;

/// Status code of a failed response.
pub const FAILURE_CODE: i32 = 500;

/// `{code, message, data}`: `code == 200` signals success, anything else failure.
pub struct ApiResponse<T> {
    pub code: i32,
    pub message: String,
    pub data: T,
}

impl<T> ApiResponse<T> {
    /// A success envelope carrying `data`, with message `"ok"`.
    pub fn success(data: T) -> (r: Self)
        ensures
            r.code == SUCCESS_CODE,
            r.message@ == "ok"@,
            r.data == data,
    {
        ApiResponse { code: SUCCESS_CODE, message: String::from_str("ok"), data }
    }

    /// A failure envelope carrying `msg` and the zero value of `T`.
    pub fn error(msg: &str) -> (r: Self)
        where
            T: Default,
        ensures
            r.code == FAILURE_CODE,
            r.message@ == msg@,
            call_ensures(T::default, (), r.data),
    {
        ApiResponse { code: FAILURE_CODE, message: String::from_str(msg), data: T::default() }
    }
}

} // verus!
