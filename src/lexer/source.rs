use vstd::prelude::*;

verus! {

/// Where program text comes from: a named file, already read, or a string.
pub enum Source {
    File(SourceFile),
    String(String),
}

/// The name and text of a source file.
pub struct SourceFile {
    name: String,
    body: String,
}

impl Source {
    /// The text of the source, whatever its origin.
    pub open spec fn body_spec(&self) -> String {
        match self {
            Source::File(file) => file.body_spec(),
            Source::String(s) => *s,
        }
    }

    pub fn as_file(&self) -> (r: Option<&SourceFile>)
        ensures
            match self {
                Source::File(f) => r == Some(f),
                Source::String(_) => r.is_none(),
            },
    {
        match self {
            Source::File(file) => Some(file),
            Source::String(_) => None,
        }
    }

    pub fn as_str(&self) -> (r: Option<&String>)
        ensures
            match self {
                Source::File(_) => r.is_none(),
                Source::String(s) => r == Some(s),
            },
    {
        match self {
            Source::File(_) => None,
            Source::String(s) => Some(s),
        }
    }

    pub fn body(&self) -> (r: &String)
        ensures
            *r == self.body_spec(),
    {
        match self {
            Source::File(file) => file.body(),
            Source::String(s) => s,
        }
    }
}

impl SourceFile {
    pub closed spec fn name_spec(&self) -> String {
        self.name
    }

    pub closed spec fn body_spec(&self) -> String {
        self.body
    }

    /// A source file named `name` whose text is `body`.
    pub fn from_parts(name: String, body: String) -> (r: Self)
        ensures
            r.name_spec() == name,
            r.body_spec() == body,
    {
        SourceFile { name, body }
    }

    pub fn name(&self) -> (r: &str)
        ensures
            r@ == self.name_spec()@,
    {
        self.name.as_str()
    }

    pub fn body(&self) -> (r: &String)
        ensures
            *r == self.body_spec(),
    {
        &self.body
    }
}

} // verus!
