//! The uniform response shapes handed back to callers: paged data and
//! the code/data/message envelope.

use vstd::prelude::*;
use crate::error::{Error, CODE_OK};

verus! {

/// One page of query results.
pub struct PageData<T> {
    pub list: Vec<T>,
    pub total: u64,
    pub total_pages: u64,
    pub page_num: u64,
}

/// The paging parameters of a query.
pub struct PageParams {
    pub page_num: Option<u64>,
    pub page_size: Option<u64>,
}

/// The uniform envelope of a response: a code, the data when there is
/// any, and a message.
pub struct Res<T> {
    pub code: Option<u32>,
    pub data: Option<T>,
    pub msg: Option<String>,
}

/// A response body already rendered to text, carried alongside the
/// response.
pub struct ResJsonString(pub String);

impl<T> Res<T> {
    /// A successful response around data.
    pub fn with_data(data: T) -> (r: Self)
        ensures
            r.code == Some(CODE_OK),
            r.data == Some(data),
            r.msg matches Some(m) && m@ == "success"@,
    {
        Res { code: Some(CODE_OK), data: Some(data), msg: Some("success".to_owned()) }
    }

    /// A response that carries an error and no data.
    pub fn with_err(err: &Error) -> (r: Self)
        ensures
            r.code == Some(err.code),
            r.data is None,
            r.msg matches Some(m) && m@ == err.msg@,
    {
        Res { code: Some(err.code()), data: None, msg: Some(err.msg().to_owned()) }
    }

    /// A response that carries both data and an error's code and message.
    pub fn with_data_msg(data: T, err: &Error) -> (r: Self)
        ensures
            r.code == Some(err.code),
            r.data == Some(data),
            r.msg matches Some(m) && m@ == err.msg@,
    {
        Res { code: Some(err.code()), data: Some(data), msg: Some(err.msg().to_owned()) }
    }
}

} // verus!
