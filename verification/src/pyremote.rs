use std::time::Duration;
use vstd::prelude::*;
use vstd::std_specs::convert::FromSpecImpl;

verus! {

/// `std::io::Error`, carried through as it came.
#[verifier::external_type_specification]
#[verifier::external_body]
pub struct ExIoError(std::io::Error);

/// What a finished interpreter process left behind.
#[derive(Debug)]
pub struct Output {
    /// Exit code of the process; `None` when a signal ended it.
    pub status: Option<i32>,
    /// Everything the process wrote to its standard output, as it came.
    pub stdout: Vec<u8>,
    /// Everything the process wrote to its standard error, as it came.
    pub stderr: Vec<u8>,
}

/// Why an execution gave no output.
#[derive(Debug)]
pub enum Error {
    /// The process was still running when its time was up.
    Timeout { timeout: Duration },
    /// The workspace could not be prepared, or the process could not be
    /// started or read.
    IO(std::io::Error),
}

impl From<std::io::Error> for Error {
    fn from(error: std::io::Error) -> (wrapped: Error) {
        Error::IO(error)
    }
}

impl FromSpecImpl<std::io::Error> for Error {
    open spec fn obeys_from_spec() -> bool {
        true
    }

    open spec fn from_spec(error: std::io::Error) -> Error {
        Error::IO(error)
    }
}

/// The bytes of a workspace file: the whole prelude, then the source, so
/// that the interpreter has run all of the prelude before it meets the
/// first byte of the source.
pub open spec fn spec_workspace_contents(prelude: Seq<u8>, source: Seq<u8>) -> Seq<u8> {
    prelude + source
}

/// Builds the bytes of the workspace file for one execution.
pub fn workspace_contents(prelude: &[u8], source: &[u8]) -> (contents: Vec<u8>)
    ensures
        contents@ == spec_workspace_contents(prelude@, source@),
{
    let mut contents: Vec<u8> = Vec::new();
    contents.extend_from_slice(prelude);
    contents.extend_from_slice(source);
    contents
}

/// A workspace begins with the whole prelude and ends with the source,
/// each byte for byte.
pub proof fn lemma_prelude_comes_first(prelude: Seq<u8>, source: Seq<u8>)
    ensures
        spec_workspace_contents(prelude, source).len() == prelude.len() + source.len(),
        spec_workspace_contents(prelude, source).subrange(0, prelude.len() as int) == prelude,
        spec_workspace_contents(prelude, source).subrange(
            prelude.len() as int,
            (prelude.len() + source.len()) as int,
        ) == source,
{
    let contents = spec_workspace_contents(prelude, source);
    assert(contents.subrange(0, prelude.len() as int) =~= prelude);
    assert(contents.subrange(prelude.len() as int, (prelude.len() + source.len()) as int)
        =~= source);
}

/// Under one prelude, two sources with the same workspace contents are the
/// same source: no execution can be given the file of another source.
pub proof fn lemma_workspace_tells_sources_apart(
    prelude: Seq<u8>,
    first: Seq<u8>,
    second: Seq<u8>,
)
    requires
        spec_workspace_contents(prelude, first) == spec_workspace_contents(prelude, second),
    ensures
        first == second,
{
    lemma_prelude_comes_first(prelude, first);
    lemma_prelude_comes_first(prelude, second);
}

/// How the race between the process and the timer ended.
#[derive(Debug)]
pub enum Race {
    /// The process ended by itself and its output was read to the end.
    Completed(Output),
    /// Waiting for the process or reading its pipes failed.
    Failed(std::io::Error),
    /// The timer fired first.
    Elapsed,
}

/// The outcome that the end of a race stands for. A race lost to the timer
/// reports the budget and none of the output written until then.
pub open spec fn spec_race_outcome(race: Race, budget: Duration) -> Result<Output, Error> {
    match race {
        Race::Completed(output) => Ok(output),
        Race::Failed(error) => Err(Error::IO(error)),
        Race::Elapsed => Err(Error::Timeout { timeout: budget }),
    }
}

/// Turns the end of a race into the outcome of the execution.
pub fn race_outcome(race: Race, budget: Duration) -> (outcome: Result<Output, Error>)
    ensures
        outcome == spec_race_outcome(race, budget),
{
    match race {
        Race::Completed(output) => Ok(output),
        Race::Failed(error) => Err(Error::from(error)),
        Race::Elapsed => Err(Error::Timeout { timeout: budget }),
    }
}

} // verus!
