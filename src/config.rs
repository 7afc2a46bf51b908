use crate::lazy_coder_error::LazyCoderError;
use crate::snippet_handler::SnippetProvider;
use vstd::prelude::*;

verus! {

/// The name of the file, inside the per-user configuration directory, that holds
/// the cursor record.
pub const FILE_NAME: &'static str = "lazycoder.toml";

/// The cursor record: which snippet file is in use, and the zero-based position
/// of the snippet to serve next.
#[derive(Debug)]
pub struct Config {
    pub file_path: String,
    pub position: usize,
}

impl PartialEq for Config {
    fn eq(&self, other: &Config) -> (r: bool) {
        self.position == other.position && self.file_path == other.file_path
    }
}

impl vstd::std_specs::cmp::PartialEqSpecImpl for Config {
    open spec fn obeys_eq_spec() -> bool {
        true
    }

    open spec fn eq_spec(&self, other: &Config) -> bool {
        self.position == other.position && self.file_path@ == other.file_path@
    }
}

/// What the platform reports about the per-user configuration directory.
#[derive(Debug, Clone, Copy, PartialEq, Eq, Structural)]
pub enum ConfigDir {
    /// The platform cannot name one.
    Unavailable,
    /// It is named, but does not exist yet.
    Missing,
    /// It exists.
    Present,
}

/// What writing the cursor record takes.
#[derive(Debug, Clone, Copy, PartialEq, Eq, Structural)]
pub enum SaveStep {
    /// Write the configuration file into the existing directory.
    Write,
    /// Create the directory, then write the configuration file into it.
    CreateDirThenWrite,
}

impl Config {
    /// This record, with the cursor `count` positions further on.
    pub open spec fn skipped_forward(self, count: int) -> Config {
        Config { file_path: self.file_path, position: (self.position + count) as usize }
    }

    /// This record, with the cursor `count` positions back.
    pub open spec fn skipped_backward(self, count: int) -> Config {
        Config { file_path: self.file_path, position: (self.position - count) as usize }
    }

    /// The record for a snippet file whose path resolved to `resolved`, an
    /// absolute path to an existing file, with the cursor at the first snippet;
    /// `SnippetFileNotFound` where the path did not resolve.
    pub fn new(resolved: Result<String, std::io::Error>) -> (r: Result<Config, LazyCoderError>)
        ensures
            resolved matches Ok(path) ==> (r matches Ok(c) && c.file_path@ == path@ && c.position
                == 0),
            resolved is Err ==> (r matches Err(LazyCoderError::SnippetFileNotFound)),
    {
        match resolved {
            Ok(path) => Ok(Config { file_path: path, position: 0 }),
            Err(_) => Err(LazyCoderError::SnippetFileNotFound),
        }
    }

    /// Takes the answer that the snippet source gave for the cursor's position:
    /// a snippet moves the cursor on by one, a failure leaves the record as it
    /// was. The answer is returned unchanged.
    pub fn advance(&mut self, fetched: Result<String, LazyCoderError>) -> (r: Result<
        String,
        LazyCoderError,
    >)
        requires
            fetched is Ok ==> old(self).position < usize::MAX,
        ensures
            r == fetched,
            fetched is Ok ==> *final(self) == old(self).skipped_forward(1),
            fetched is Err ==> *final(self) == *old(self),
    {
        if fetched.is_ok() {
            self.position = self.position + 1;
        }
        fetched
    }

    /// Asks `provider` for the snippet at the cursor, returns its answer, and
    /// moves the cursor on by one where the answer is a snippet; where it is a
    /// failure, the record stays as it was. The caller persists the record after
    /// a success only.
    pub fn next<P: SnippetProvider>(&mut self, provider: &P) -> (r: Result<String, LazyCoderError>)
        requires
            old(self).position < usize::MAX,
        ensures
            provider.answers(old(self).position, r),
            r is Ok ==> *final(self) == old(self).skipped_forward(1),
            r is Err ==> *final(self) == *old(self),
    {
        let fetched = self.peek(provider);
        self.advance(fetched)
    }

    /// Asks `provider` for the snippet at the cursor and returns its answer,
    /// leaving the record as it was.
    pub fn peek<P: SnippetProvider>(&mut self, provider: &P) -> (r: Result<String, LazyCoderError>)
        ensures
            provider.answers(old(self).position, r),
            *final(self) == *old(self),
    {
        provider.get_snippet(self.position)
    }

    /// Moves the cursor `count` positions on. No bound is checked against the
    /// snippet file: a position past its end only fails at the next read.
    pub fn forward(&mut self, count: usize) -> (r: Result<(), LazyCoderError>)
        requires
            old(self).position + count <= usize::MAX,
        ensures
            r is Ok,
            *final(self) == old(self).skipped_forward(count as int),
    {
        self.position = self.position + count;
        Ok(())
    }

    /// Moves the cursor `count` positions back; `OperationOutOfRange`, with the
    /// record left as it was, where that would take it below position 0.
    pub fn rewind(&mut self, count: usize) -> (r: Result<(), LazyCoderError>)
        ensures
            count <= old(self).position ==> (r is Ok && *final(self) == old(self).skipped_backward(
                count as int,
            )),
            count > old(self).position ==> (r matches Err(LazyCoderError::OperationOutOfRange)
                && *final(self) == *old(self)),
    {
        if count <= self.position {
            self.position = self.position - count;
            Ok(())
        } else {
            Err(LazyCoderError::OperationOutOfRange)
        }
    }

    /// What writing this record takes, given the state of the configuration
    /// directory: a missing directory is created only where `create_dir` asks
    /// for it, and is otherwise a `ConfigDirError`, as is a directory that the
    /// platform cannot name.
    pub fn save(&self, dir: ConfigDir, create_dir: bool) -> (r: Result<SaveStep, LazyCoderError>)
        ensures
            dir == ConfigDir::Present ==> r matches Ok(SaveStep::Write),
            dir == ConfigDir::Missing && create_dir ==> r matches Ok(SaveStep::CreateDirThenWrite),
            dir == ConfigDir::Missing && !create_dir ==> r matches Err(
                LazyCoderError::ConfigDirError,
            ),
            dir == ConfigDir::Unavailable ==> r matches Err(LazyCoderError::ConfigDirError),
    {
        match dir {
            ConfigDir::Unavailable => Err(LazyCoderError::ConfigDirError),
            ConfigDir::Missing => {
                if create_dir {
                    Ok(SaveStep::CreateDirThenWrite)
                } else {
                    Err(LazyCoderError::ConfigDirError)
                }
            },
            ConfigDir::Present => Ok(SaveStep::Write),
        }
    }
}

/// Skipping forward by `a` and then by `b` ends where one skip by `a + b` ends.
pub proof fn law_forward_twice(c: Config, a: usize, b: usize)
    requires
        c.position + a + b <= usize::MAX,
    ensures
        c.skipped_forward(a as int).skipped_forward(b as int) == c.skipped_forward(a + b),
{
}

} // verus!
