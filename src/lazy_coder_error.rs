use vstd::prelude::*;
use vstd::string::to_string_from_display_ensures;

verus! {

/// Declares `std::io::Error`, so that an error can carry an I/O failure as its
/// cause. Nothing is assumed of its contents; its text is only ever shown.
#[verifier::external_type_specification]
#[verifier::external_body]
pub struct ExIoError(std::io::Error);

/// Declares `toml::de::Error`, so that an error can carry a failure to decode
/// the configuration record as its cause. Nothing is assumed of its contents.
#[verifier::external_type_specification]
#[verifier::external_body]
pub struct ExTomlDeError(toml::de::Error);

/// Every way an operation of this crate can fail.
#[derive(Debug)]
pub enum LazyCoderError {
    /// The snippet file does not exist as a regular file.
    SnippetFileNotFound,
    /// Reading the snippet file failed.
    SnippetFileError(std::io::Error),
    /// The requested position lies beyond the last snippet.
    RunOutOfSnippets,
    /// The per-user configuration directory cannot be determined or is missing.
    ConfigDirError,
    /// Reading or writing the configuration file failed.
    ConfigFileError(std::io::Error),
    /// The configuration file does not decode into a cursor record.
    ConfigEncoding(toml::de::Error),
    /// A rewind would move the cursor below position 0.
    OperationOutOfRange,
}

impl LazyCoderError {
    /// Whether this error carries an underlying cause whose text ends its message.
    pub open spec fn has_cause(self) -> bool {
        ||| self is SnippetFileError
        ||| self is ConfigFileError
        ||| self is ConfigEncoding
    }

    /// The fixed text that the message of this kind of error starts with; for an
    /// error without a cause, the whole message.
    pub open spec fn message_head(self) -> Seq<char> {
        match self {
            LazyCoderError::SnippetFileNotFound => "snippet file not found"@,
            LazyCoderError::SnippetFileError(_) => "snippet file error: "@,
            LazyCoderError::RunOutOfSnippets => "out of range of available snippets"@,
            LazyCoderError::ConfigDirError => "no valid home directory path could be retrieved"@,
            LazyCoderError::ConfigFileError(_) => "configuration file error: "@,
            LazyCoderError::ConfigEncoding(_) => "configuration encoding error: "@,
            LazyCoderError::OperationOutOfRange => "operation out of range"@,
        }
    }

    /// A human-readable description of the error: the fixed text of its kind,
    /// followed by the displayed text of its cause where it has one.
    pub fn to_string(&self) -> (r: String)
        ensures
            !self.has_cause() ==> r@ == self.message_head(),
            self matches LazyCoderError::SnippetFileError(e) ==> exists|cause: String|
                to_string_from_display_ensures::<std::io::Error>(&e, cause) && r@
                    == self.message_head() + cause@,
            self matches LazyCoderError::ConfigFileError(e) ==> exists|cause: String|
                to_string_from_display_ensures::<std::io::Error>(&e, cause) && r@
                    == self.message_head() + cause@,
            self matches LazyCoderError::ConfigEncoding(e) ==> exists|cause: String|
                to_string_from_display_ensures::<toml::de::Error>(&e, cause) && r@
                    == self.message_head() + cause@,
    {
        match self {
            LazyCoderError::SnippetFileNotFound => String::from_str("snippet file not found"),
            LazyCoderError::SnippetFileError(err) => {
                let cause = err.to_string();
                let mut text = String::from_str("snippet file error: ");
                text.append(cause.as_str());
                text
            },
            LazyCoderError::RunOutOfSnippets => String::from_str("out of range of available snippets"),
            LazyCoderError::ConfigDirError => String::from_str(
                "no valid home directory path could be retrieved",
            ),
            LazyCoderError::ConfigFileError(err) => {
                let cause = err.to_string();
                let mut text = String::from_str("configuration file error: ");
                text.append(cause.as_str());
                text
            },
            LazyCoderError::ConfigEncoding(err) => {
                let cause = err.to_string();
                let mut text = String::from_str("configuration encoding error: ");
                text.append(cause.as_str());
                text
            },
            LazyCoderError::OperationOutOfRange => String::from_str("operation out of range"),
        }
    }
}

impl From<std::io::Error> for LazyCoderError {
    fn from(err: std::io::Error) -> (r: Self) {
        LazyCoderError::ConfigFileError(err)
    }
}

impl vstd::std_specs::convert::FromSpecImpl<std::io::Error> for LazyCoderError {
    open spec fn obeys_from_spec() -> bool {
        true
    }

    open spec fn from_spec(err: std::io::Error) -> Self {
        LazyCoderError::ConfigFileError(err)
    }
}

impl From<toml::de::Error> for LazyCoderError {
    fn from(err: toml::de::Error) -> (r: Self) {
        LazyCoderError::ConfigEncoding(err)
    }
}

impl vstd::std_specs::convert::FromSpecImpl<toml::de::Error> for LazyCoderError {
    open spec fn obeys_from_spec() -> bool {
        true
    }

    open spec fn from_spec(err: toml::de::Error) -> Self {
        LazyCoderError::ConfigEncoding(err)
    }
}

} // verus!
