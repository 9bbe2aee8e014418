//! Small answers of the web API.

use vstd::prelude::*;

verus! {

/// Why an answer of the web API could not be used.
#[derive(Debug, Clone, Copy, PartialEq, Eq)]
pub enum DataError {
    /// The answer says the resource could not be fetched; the text says why.
    ResourceGetFailed(&'static str),
}

/// Why a long text could not be had.
pub const LONG_TEXT_NOT_OK: &'static str = "returned long text status is not ok";

/// The content of a long text.
#[derive(Debug, Clone)]
pub struct LongTextContent {
    pub long_text_content: String,
}

/// The answer to a request for the full text of a long post.
#[derive(Debug, Clone)]
pub struct LongText {
    pub ok: u8,
    pub http_code: u8,
    pub data: LongTextContent,
}

impl LongText {
    /// The full text, when the answer says it was fetched: `ok` is 1 and
    /// the HTTP code is 200.
    pub fn get_content(self) -> (res: Result<String, DataError>)
        ensures
            self.ok == 1 && self.http_code == 200 ==> res == Ok::<String, DataError>(
                self.data.long_text_content,
            ),
            !(self.ok == 1 && self.http_code == 200) ==> res == Err::<String, DataError>(
                DataError::ResourceGetFailed(LONG_TEXT_NOT_OK),
            ),
    {
        if self.ok == 1 && self.http_code == 200 {
            Ok(self.data.long_text_content)
        } else {
            Err(DataError::ResourceGetFailed(LONG_TEXT_NOT_OK))
        }
    }
}

/// The number of favorites of the account.
#[derive(Debug, Clone, Copy)]
pub struct FavTag {
    pub fav_total_num: u64,
    pub ok: u8,
}

} // verus!
