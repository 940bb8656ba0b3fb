use vstd::prelude::*;

use vstd::string::StringExecFns;

verus! {

/// An error met while reading, classifying or answering one request.
#[derive(Debug)]
pub struct HttpError {
    pub kind: String,
    pub message: String,
}

impl HttpError {
    pub fn new(kind: &str, message: &str) -> (r: HttpError)
        ensures
            r.kind@ == kind@,
            r.message@ == message@,
    {
        HttpError { kind: kind.to_owned(), message: message.to_owned() }
    }

    /// `HttpError{kind:<kind>,message:<message>}`.
    pub fn to_string(&self) -> (r: String)
        ensures
            r@ == "HttpError{kind:"@ + self.kind@ + ",message:"@ + self.message@ + "}"@,
    {
        let mut s = "HttpError{kind:".to_owned();
        s.append(self.kind.as_str());
        s.append(",message:");
        s.append(self.message.as_str());
        s.append("}");
        s
    }
}

/// An error of the worker pool: a pool of no workers was asked for.
#[derive(Debug)]
pub struct ThreadError {
    pub kind: String,
    pub message: String,
}

impl ThreadError {
    pub fn new(kind: &str, message: &str) -> (r: ThreadError)
        ensures
            r.kind@ == kind@,
            r.message@ == message@,
    {
        ThreadError { kind: kind.to_owned(), message: message.to_owned() }
    }

    /// `ThreadError{kind:<kind>,message:<message>}`.
    pub fn to_string(&self) -> (r: String)
        ensures
            r@ == "ThreadError{kind:"@ + self.kind@ + ",message:"@ + self.message@ + "}"@,
    {
        let mut s = "ThreadError{kind:".to_owned();
        s.append(self.kind.as_str());
        s.append(",message:");
        s.append(self.message.as_str());
        s.append("}");
        s
    }
}

/// An error in the configuration text: the key it concerns and what is wrong.
#[derive(Debug)]
pub struct ConfigError {
    pub key: String,
    pub message: String,
}

impl ConfigError {
    pub fn new(key: &str, message: &str) -> (r: ConfigError)
        ensures
            r.key@ == key@,
            r.message@ == message@,
    {
        ConfigError { key: key.to_owned(), message: message.to_owned() }
    }

    /// `ConfigError{key:<key>,message:<message>}`.
    pub fn to_string(&self) -> (r: String)
        ensures
            r@ == "ConfigError{key:"@ + self.key@ + ",message:"@ + self.message@ + "}"@,
    {
        let mut s = "ConfigError{key:".to_owned();
        s.append(self.key.as_str());
        s.append(",message:");
        s.append(self.message.as_str());
        s.append("}");
        s
    }
}

} // verus!
