//! Errors of the vision planner.

use vstd::prelude::*;

verus! {

#[derive(Debug)]
pub enum VisionError {
    InvalidArgument(String),
    InvalidPipeline(String),
    InvalidShape(String),
    Worker(String),
}

pub type VisionResult<T> = Result<T, VisionError>;

pub open spec fn error_text(e: VisionError) -> Seq<char> {
    match e {
        VisionError::InvalidArgument(m) => m@,
        VisionError::InvalidPipeline(m) => m@,
        VisionError::InvalidShape(m) => m@,
        VisionError::Worker(m) => m@,
    }
}

impl VisionError {
    /// Display text: a kind prefix and the message.
    pub fn to_text(&self) -> (r: String)
        ensures
            r@ == error_prefix(*self) + error_text(*self),
    {
        proof {
            reveal_strlit("invalid argument: ");
            reveal_strlit("invalid pipeline: ");
            reveal_strlit("invalid shape: ");
            reveal_strlit("worker error: ");
        }
        let mut s = String::new();
        match self {
            VisionError::InvalidArgument(m) => {
                crate::text::push_str(&mut s, "invalid argument: ");
                crate::text::push_str(&mut s, m.as_str());
            },
            VisionError::InvalidPipeline(m) => {
                crate::text::push_str(&mut s, "invalid pipeline: ");
                crate::text::push_str(&mut s, m.as_str());
            },
            VisionError::InvalidShape(m) => {
                crate::text::push_str(&mut s, "invalid shape: ");
                crate::text::push_str(&mut s, m.as_str());
            },
            VisionError::Worker(m) => {
                crate::text::push_str(&mut s, "worker error: ");
                crate::text::push_str(&mut s, m.as_str());
            },
        }
        assert(s@ =~= error_prefix(*self) + error_text(*self));
        s
    }
}

pub open spec fn error_prefix(e: VisionError) -> Seq<char> {
    match e {
        VisionError::InvalidArgument(_) => "invalid argument: "@,
        VisionError::InvalidPipeline(_) => "invalid pipeline: "@,
        VisionError::InvalidShape(_) => "invalid shape: "@,
        VisionError::Worker(_) => "worker error: "@,
    }
}

pub fn invalid_argument(message: String) -> (r: VisionError)
    ensures
        r == VisionError::InvalidArgument(message),
{
    VisionError::InvalidArgument(message)
}

pub fn invalid_pipeline(message: String) -> (r: VisionError)
    ensures
        r == VisionError::InvalidPipeline(message),
{
    VisionError::InvalidPipeline(message)
}

pub fn invalid_shape(message: String) -> (r: VisionError)
    ensures
        r == VisionError::InvalidShape(message),
{
    VisionError::InvalidShape(message)
}

} // verus!
