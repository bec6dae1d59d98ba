//! The errors of shader conversion and name recovery.
use vstd::prelude::*;

use crate::text::{decimal, usize_string};

verus! {

/// Why a conversion or a name-mapping build failed.
#[derive(Debug)]
pub enum Error {
    /// A source file could not be read; carries the reader's message.
    Io(String),
    /// The native compiler could not be initialized.
    InitFailed,
    /// The source-to-intermediate compiler rejected the shader.
    CompilationFailed(String),
    /// The intermediate-to-target cross-compiler rejected the module.
    ParseFailed(String),
    /// The type graph could not answer a query about a type, a member name or
    /// a base type.
    ReflectionQueryFailed(String),
    /// A uniform-buffer member has an opaque type; carries the member's debug name.
    UnsupportedMemberType(String),
    /// The combined-sampler and separate-texture lists differ in length.
    ResourceListMismatch { sampled_images: usize, separate_images: usize },
}

/// The text that describes `e` to a user.
pub open spec fn message_of(e: Error) -> Seq<char> {
    match e {
        Error::Io(m) => m@,
        Error::InitFailed => "shader compiler initialization failed"@,
        Error::CompilationFailed(m) => m@,
        Error::ParseFailed(m) => m@,
        Error::ReflectionQueryFailed(m) => "reflection query failed: "@ + m@,
        Error::UnsupportedMemberType(name) => "member of "@ + name@ + " had an unsupported type"@,
        Error::ResourceListMismatch { sampled_images, separate_images } => decimal(
            sampled_images as nat,
        ) + " combined image samplers but "@ + decimal(separate_images as nat)
            + " separate images"@,
    }
}

/// The error for a failure of the cross-compiler: its message where it gave
/// one, `unhandled` where it did not.
pub open spec fn cross_compile_message(detail: Option<Seq<char>>) -> Seq<char> {
    match detail {
        Some(m) => "compilation failed: "@ + m,
        None => "unhandled"@,
    }
}

impl Error {
    /// Describes the error to a user.
    pub fn message(&self) -> (r: String)
        ensures
            r@ == message_of(*self),
    {
        match self {
            Error::Io(m) => m.clone(),
            Error::InitFailed => String::from_str("shader compiler initialization failed"),
            Error::CompilationFailed(m) => m.clone(),
            Error::ParseFailed(m) => m.clone(),
            Error::ReflectionQueryFailed(m) => {
                let mut s = String::from_str("reflection query failed: ");
                s.append(m.as_str());
                s
            },
            Error::UnsupportedMemberType(name) => {
                let mut s = String::from_str("member of ");
                s.append(name.as_str());
                s.append(" had an unsupported type");
                s
            },
            Error::ResourceListMismatch { sampled_images, separate_images } => {
                let mut s = usize_string(*sampled_images);
                s.append(" combined image samplers but ");
                let b = usize_string(*separate_images);
                s.append(b.as_str());
                s.append(" separate images");
                s
            },
        }
    }

    /// The error for a failure of the cross-compiler, from the message it
    /// gave, if any.
    pub fn parse_failed(detail: Option<String>) -> (r: Error)
        ensures
            r matches Error::ParseFailed(m) && m@ == cross_compile_message(
                match detail {
                    Some(d) => Some(d@),
                    None => None,
                },
            ),
    {
        match detail {
            Some(d) => {
                let mut s = String::from_str("compilation failed: ");
                s.append(d.as_str());
                Error::ParseFailed(s)
            },
            None => Error::ParseFailed(String::from_str("unhandled")),
        }
    }
}

} // verus!
