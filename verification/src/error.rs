//! Errors of the checker.
use vstd::prelude::*;
use crate::text::{decimal, owned, push_decimal};

verus! {

/// An error of the checker.
#[derive(Debug, Clone)]
pub enum IntegrityError {
    /// The input holds nothing but whitespace.
    EmptyInput,
    /// The input is longer than allowed.
    InputTooLarge { max_bytes: usize, actual_bytes: usize },
    /// An output format that does not exist.
    InvalidFormat(String),
    /// A detection pattern that the regular expression engine refused.
    InvalidPattern(String),
    /// Any other error.
    Other(String),
}

/// The message of an error.
pub open spec fn error_message(e: IntegrityError) -> Seq<char> {
    match e {
        IntegrityError::EmptyInput => "入力が空です"@,
        IntegrityError::InputTooLarge { max_bytes, actual_bytes } => "入力が大きすぎます（最大: "@
            + decimal(max_bytes as nat) + " バイト、実際: "@ + decimal(actual_bytes as nat)
            + " バイト）"@,
        IntegrityError::InvalidFormat(f) => "無効な出力フォーマット: "@ + f@,
        IntegrityError::InvalidPattern(p) => "無効な検出パターン: "@ + p@,
        IntegrityError::Other(m) => m@,
    }
}

impl IntegrityError {
    /// The error's message.
    pub fn message(&self) -> (r: String)
        ensures
            r@ == error_message(*self),
    {
        match self {
            IntegrityError::EmptyInput => owned("入力が空です"),
            IntegrityError::InputTooLarge { max_bytes, actual_bytes } => {
                let mut s = owned("入力が大きすぎます（最大: ");
                push_decimal(&mut s, *max_bytes as u64);
                s.append(" バイト、実際: ");
                push_decimal(&mut s, *actual_bytes as u64);
                s.append(" バイト）");
                s
            },
            IntegrityError::InvalidFormat(f) => {
                let mut s = owned("無効な出力フォーマット: ");
                s.append(f.as_str());
                s
            },
            IntegrityError::InvalidPattern(p) => {
                let mut s = owned("無効な検出パターン: ");
                s.append(p.as_str());
                s
            },
            IntegrityError::Other(m) => m.clone(),
        }
    }
}

} // verus!
