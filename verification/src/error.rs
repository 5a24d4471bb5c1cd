//! Error values surfaced by the baking pipeline.
//!
//! `IOError` tags failures of the surrounding file plumbing (locating a
//! directory, reading the document, writing the result); `FileFormatError`
//! carries a document that does not match the schema together with the path
//! it came from. Both expose their text through `message`, whose contract
//! pins the exact wording.

use vstd::prelude::*;

verus! {

/// A failure of the file plumbing around the generator, tagged by stage.
/// Each variant carries the kind of the underlying failure and its cause.
#[derive(Debug)]
pub enum IOError {
    PathResolutionError(String, String),
    ReadError(String, String),
    WriteError(String, String),
}

impl IOError {
    /// The human-readable description of this error.
    pub fn message(&self) -> (r: String)
        ensures
            forall|k: String, c: String|
                *self == IOError::PathResolutionError(k, c) ==> r@ == "Could not resolve path: "@
                    + k@ + ": "@ + c@,
            forall|k: String, c: String|
                *self == IOError::ReadError(k, c) ==> r@ == "Error while reading: "@ + k@ + ": "@
                    + c@,
            forall|k: String, c: String|
                *self == IOError::WriteError(k, c) ==> r@ == "Error while writing: "@ + k@ + ": "@
                    + c@,
    {
        let mut r = String::new();
        match self {
            IOError::PathResolutionError(kind, cause) => {
                r.append("Could not resolve path: ");
                r.append(kind.as_str());
                r.append(": ");
                r.append(cause.as_str());
            },
            IOError::ReadError(kind, cause) => {
                r.append("Error while reading: ");
                r.append(kind.as_str());
                r.append(": ");
                r.append(cause.as_str());
            },
            IOError::WriteError(kind, cause) => {
                r.append("Error while writing: ");
                r.append(kind.as_str());
                r.append(": ");
                r.append(cause.as_str());
            },
        }
        r
    }
}

/// Mathematical image of a `FormatError`: the variant and its payloads.
pub enum GFormatError {
    Syntax,
    WrongRoot(Seq<char>),
    UnknownAttribute(Seq<char>, Seq<char>),
    UnknownChild(Seq<char>, Seq<char>),
    MissingAttribute(Seq<char>, Seq<char>),
    BadValue(Seq<char>, Seq<char>),
    NoValueKind(Seq<char>),
    ManyValueKinds(Seq<char>),
    EnumIndexOutOfRange(Seq<char>),
}

/// Why a document fails against the schema: the carrier syntax is broken, an
/// element carries the wrong pieces, a typed attribute does not decode, or a
/// config leaf cannot be resolved to a value.
#[derive(Debug)]
pub enum FormatError {
    /// The text is not a well-formed document.
    Syntax,
    /// The root element's tag is not `Konfigurator`.
    WrongRoot(String),
    /// An element carries an attribute the schema does not give it.
    UnknownAttribute(String, String),
    /// An element holds a child element the schema does not give it.
    UnknownChild(String, String),
    /// An element lacks a mandatory attribute: `(tag, attribute)`.
    MissingAttribute(String, String),
    /// An attribute's text does not decode to its declared type:
    /// `(attribute, text)`.
    BadValue(String, String),
    /// A config leaf holds none of the five value elements.
    NoValueKind(String),
    /// A config leaf holds more than one value element.
    ManyValueKinds(String),
    /// An enum config's resolved index has no member.
    EnumIndexOutOfRange(String),
}

impl View for FormatError {
    type V = GFormatError;

    open spec fn view(&self) -> GFormatError {
        match self {
            FormatError::Syntax => GFormatError::Syntax,
            FormatError::WrongRoot(a) => GFormatError::WrongRoot(a@),
            FormatError::UnknownAttribute(a, b) => GFormatError::UnknownAttribute(a@, b@),
            FormatError::UnknownChild(a, b) => GFormatError::UnknownChild(a@, b@),
            FormatError::MissingAttribute(a, b) => GFormatError::MissingAttribute(a@, b@),
            FormatError::BadValue(a, b) => GFormatError::BadValue(a@, b@),
            FormatError::NoValueKind(a) => GFormatError::NoValueKind(a@),
            FormatError::ManyValueKinds(a) => GFormatError::ManyValueKinds(a@),
            FormatError::EnumIndexOutOfRange(a) => GFormatError::EnumIndexOutOfRange(a@),
        }
    }
}

impl FormatError {
    /// The human-readable description of this error.
    pub fn message(&self) -> (r: String)
        ensures
            *self == FormatError::Syntax ==> r@
                == "the document does not match the expected syntax"@,
            forall|a: String|
                *self == FormatError::WrongRoot(a) ==> r@
                    == "expected root element `Konfigurator`, found `"@ + a@ + "`"@,
            forall|a: String, b: String|
                *self == FormatError::UnknownAttribute(a, b) ==> r@ == "element `"@ + a@
                    + "` does not take an attribute `"@ + b@ + "`"@,
            forall|a: String, b: String|
                *self == FormatError::UnknownChild(a, b) ==> r@ == "element `"@ + a@
                    + "` does not take a child element `"@ + b@ + "`"@,
            forall|a: String, b: String|
                *self == FormatError::MissingAttribute(a, b) ==> r@ == "element `"@ + a@
                    + "` is missing its mandatory attribute `"@ + b@ + "`"@,
            forall|a: String, b: String|
                *self == FormatError::BadValue(a, b) ==> r@ == "attribute `"@ + a@ + "` holds `"@
                    + b@ + "`, which does not decode to its declared type"@,
            forall|a: String|
                *self == FormatError::NoValueKind(a) ==> r@ == "config `"@ + a@
                    + "` holds no value element"@,
            forall|a: String|
                *self == FormatError::ManyValueKinds(a) ==> r@ == "config `"@ + a@
                    + "` holds more than one value element"@,
            forall|a: String|
                *self == FormatError::EnumIndexOutOfRange(a) ==> r@ == "config `"@ + a@
                    + "` selects an enum member that does not exist"@,
    {
        let mut r = String::new();
        match self {
            FormatError::Syntax => {
                r.append("the document does not match the expected syntax");
            },
            FormatError::WrongRoot(a) => {
                r.append("expected root element `Konfigurator`, found `");
                r.append(a.as_str());
                r.append("`");
            },
            FormatError::UnknownAttribute(a, b) => {
                r.append("element `");
                r.append(a.as_str());
                r.append("` does not take an attribute `");
                r.append(b.as_str());
                r.append("`");
            },
            FormatError::UnknownChild(a, b) => {
                r.append("element `");
                r.append(a.as_str());
                r.append("` does not take a child element `");
                r.append(b.as_str());
                r.append("`");
            },
            FormatError::MissingAttribute(a, b) => {
                r.append("element `");
                r.append(a.as_str());
                r.append("` is missing its mandatory attribute `");
                r.append(b.as_str());
                r.append("`");
            },
            FormatError::BadValue(a, b) => {
                r.append("attribute `");
                r.append(a.as_str());
                r.append("` holds `");
                r.append(b.as_str());
                r.append("`, which does not decode to its declared type");
            },
            FormatError::NoValueKind(a) => {
                r.append("config `");
                r.append(a.as_str());
                r.append("` holds no value element");
            },
            FormatError::ManyValueKinds(a) => {
                r.append("config `");
                r.append(a.as_str());
                r.append("` holds more than one value element");
            },
            FormatError::EnumIndexOutOfRange(a) => {
                r.append("config `");
                r.append(a.as_str());
                r.append("` selects an enum member that does not exist");
            },
        }
        r
    }
}

/// A document that does not match the schema: the offending file path and a
/// description of the cause.
#[derive(Debug)]
pub struct FileFormatError(pub String, pub String);

impl FileFormatError {
    /// The human-readable description of this error.
    pub fn message(&self) -> (r: String)
        ensures
            r@ == "File format error: "@ + self.0@ + ": "@ + self.1@,
    {
        let mut r = String::new();
        r.append("File format error: ");
        r.append(self.0.as_str());
        r.append(": ");
        r.append(self.1.as_str());
        r
    }
}

} // verus!
