//! What can go wrong between the drive and its server.

use crate::digits::{decimal_i64, signed_decimal};
use crate::text::{concat2, concat3};
use vstd::prelude::*;

verus! {

/// The reason why an operation on the drive failed.
#[derive(Debug)]
pub enum QuarkError {
    /// A local file could not be read or written.
    Io(String),
    /// The request did not get through, or the reply could not be decoded.
    Http(String),
    /// The server refused the request.
    Api { code: i64, message: String },
    /// The reply lacks a field.
    Malformed(&'static str),
    /// Logging in failed.
    Login(String),
}

/// A [`QuarkError`] with its texts as sequences of characters.
pub enum ErrorView {
    Io(Seq<char>),
    Http(Seq<char>),
    Api(int, Seq<char>),
    Malformed(Seq<char>),
    Login(Seq<char>),
}

impl View for QuarkError {
    type V = ErrorView;

    open spec fn view(&self) -> ErrorView {
        match *self {
            QuarkError::Io(text) => ErrorView::Io(text@),
            QuarkError::Http(text) => ErrorView::Http(text@),
            QuarkError::Api { code, message } => ErrorView::Api(code as int, message@),
            QuarkError::Malformed(field) => ErrorView::Malformed(field@),
            QuarkError::Login(text) => ErrorView::Login(text@),
        }
    }
}

/// The line that is shown to the user for an error.
pub open spec fn error_message(e: ErrorView) -> Seq<char> {
    match e {
        ErrorView::Io(text) => "本地文件操作失败: "@ + text,
        ErrorView::Http(text) => "网络请求失败: "@ + text,
        ErrorView::Api(code, message) => "夸克接口返回错误 "@ + signed_decimal(code) + ": "@
            + message,
        ErrorView::Malformed(field) => "夸克接口响应缺少字段: "@ + field,
        ErrorView::Login(text) => "二维码登录失败: "@ + text,
    }
}

impl QuarkError {
    /// The line that is shown to the user.
    pub fn message(&self) -> (r: String)
        ensures
            r@ == error_message(self@),
    {
        match self {
            QuarkError::Io(text) => concat2("本地文件操作失败: ", text.as_str()),
            QuarkError::Http(text) => concat2("网络请求失败: ", text.as_str()),
            QuarkError::Api { code, message } => {
                let number = decimal_i64(*code);
                let head = concat3("夸克接口返回错误 ", number.as_str(), ": ");
                concat2(head.as_str(), message.as_str())
            },
            QuarkError::Malformed(field) => concat2("夸克接口响应缺少字段: ", field),
            QuarkError::Login(text) => concat2("二维码登录失败: ", text.as_str()),
        }
    }
}

/// A result of nothing with its error viewed.
pub open spec fn unit_result(r: Result<(), QuarkError>) -> Result<(), ErrorView> {
    match r {
        Ok(_) => Ok(()),
        Err(e) => Err(e@),
    }
}

/// A result of text with both sides viewed.
pub open spec fn text_result(r: Result<String, QuarkError>) -> Result<Seq<char>, ErrorView> {
    match r {
        Ok(s) => Ok(s@),
        Err(e) => Err(e@),
    }
}

} // verus!
