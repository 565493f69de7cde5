//! Atomic publication of a file: the contents go to a fresh temporary file
//! beside the destination, which is synchronized and then moved into place,
//! so that readers see either the old file or the complete new one.
//!
//! The decisions are here, as a state machine; the application performs
//! each file operation it asks for and answers with what happened.
use crate::config::{join_path, ConfigError};
use crate::encode::EncodeError;
use crate::text::{append_str, decimal_text, u64_to_decimal};
use vstd::prelude::*;

verus! {

/// How many temporary names are tried before giving up.
pub const TEMPORARY_FILE_ATTEMPTS: u32 = 32;

/// What is being written.
#[derive(Clone, Copy, Debug, PartialEq, Eq, Structural)]
pub enum WriteTarget {
    /// A screenshot; an existing file is replaced only when the user
    /// confirmed it.
    Screenshot { replace_existing: bool },
    /// The settings file, which is always replaced.
    Configuration,
}

/// A file operation that failed.
#[derive(Clone, Copy, Debug, PartialEq, Eq, Structural)]
pub enum WriteOperation {
    CreateDirectory,
    CreateTemporary,
    CreateUniqueTemporary,
    WriteTemporary,
    SynchronizeTemporary,
    Publish,
}

/// Why a write failed.
#[derive(Clone, Debug, PartialEq, Eq)]
pub enum WriteFailure {
    /// The destination names no file.
    MissingFileName(String),
    /// The destination exists and may not be replaced.
    DestinationExists(String),
    /// A file operation failed at `path` with the system's `message`.
    Io { operation: WriteOperation, path: String, message: String },
}

/// Where a write stands.
#[derive(Clone, Copy, Debug, PartialEq, Eq, Structural)]
pub enum WriteStage {
    Start,
    CheckingDestination,
    CreatingDirectory,
    CreatingTemporary,
    Writing,
    Synchronizing,
    Rechecking,
    Publishing,
    Removing,
    Finished,
}

/// What the application does next.
#[derive(Debug)]
pub enum WriteAction {
    /// Report whether the destination exists.
    CheckDestination,
    /// Create this directory and its parents.
    CreateDirectory(String),
    /// Create this file, failing if it exists, and keep it open.
    CreateTemporary(String),
    /// Write all the contents to the open temporary file.
    WriteTemporary,
    /// Flush the temporary file to the device, then close it.
    SynchronizeTemporary,
    /// Close the temporary file if it is open and move it to the
    /// destination, replacing an existing file only if `replace_existing`.
    Publish { replace_existing: bool },
    /// Close and delete the temporary file, whatever the outcome.
    RemoveTemporary(String),
    /// The write is over.
    Finish(Result<(), WriteFailure>),
}

/// What happened to the requested operation.
#[derive(Debug)]
pub enum WriteEvent {
    /// The answer to [`WriteAction::CheckDestination`].
    Exists(bool),
    /// The outcome of a directory creation, write, synchronization,
    /// publication or removal, with the system's message on failure.
    Completed(Result<(), String>),
    /// The outcome of [`WriteAction::CreateTemporary`].
    Creation(CreationOutcome),
}

#[derive(Debug)]
pub enum CreationOutcome {
    Created,
    /// A file of that name exists already: another name is tried.
    AlreadyExists,
    Failed(String),
}

/// One atomic write in progress.
#[derive(Debug)]
pub struct AtomicWrite {
    pub target: WriteTarget,
    pub destination: String,
    /// The destination's directory (`.` where it names none).
    pub parent: String,
    /// The destination's file name, if it has one.
    pub file_name: Option<String>,
    pub process_id: u32,
    pub stage: WriteStage,
    /// Temporary names tried so far.
    pub attempts: u32,
    /// The temporary file's path once one has been named.
    pub temporary: String,
    /// The failure reported once the temporary file is removed.
    pub failure: Option<WriteFailure>,
}

/// The name of a temporary file for `file_name`, unique to this process
/// and this attempt.
pub open spec fn temporary_name(target: WriteTarget, file_name: Seq<char>, process_id: nat, sequence: nat) -> Seq<char> {
    match target {
        WriteTarget::Screenshot { .. } => "."@ + file_name + ".rustshot-"@ + decimal_text(process_id) + "-"@
            + decimal_text(sequence) + ".tmp"@,
        WriteTarget::Configuration => "."@ + file_name + "."@ + decimal_text(process_id) + "."@
            + decimal_text(sequence) + ".tmp"@,
    }
}

/// The file name a temporary name is made from: a screenshot's own, the
/// settings file's own or, where it has none, `config.toml`.
pub open spec fn base_name(target: WriteTarget, file_name: Option<String>) -> Seq<char> {
    match file_name {
        Some(name) => name@,
        None => "config.toml"@,
    }
}

/// The answer that `stage` waits for has the right kind.
pub open spec fn expects(stage: WriteStage, event: WriteEvent) -> bool {
    match stage {
        WriteStage::Start => true,
        WriteStage::CheckingDestination | WriteStage::Rechecking => event is Exists,
        WriteStage::CreatingTemporary => event is Creation,
        WriteStage::Finished => false,
        _ => event is Completed,
    }
}

/// `failure` is an I/O failure of `operation` at `path` with `message`.
pub open spec fn io_failure(failure: WriteFailure, operation: WriteOperation, path: Seq<char>, message: Seq<char>) -> bool {
    &&& failure matches WriteFailure::Io { operation: o, path: p, message: m }
    &&& o == operation
    &&& p@ == path
    &&& m@ == message
}

/// The name of the temporary file that attempt `sequence` creates beside
/// the destination.
pub fn temporary_file_name(target: WriteTarget, file_name: &Option<String>, process_id: u32, sequence: u64) -> (name: String)
    ensures
        name@ == temporary_name(target, base_name(target, *file_name), process_id as nat, sequence as nat),
{
    let mut name = ".".to_owned();
    match file_name {
        Some(file_name) => append_str(&mut name, file_name.as_str()),
        None => append_str(&mut name, "config.toml"),
    }
    match target {
        WriteTarget::Screenshot { .. } => {
            append_str(&mut name, ".rustshot-");
            append_str(&mut name, u64_to_decimal(process_id as u64).as_str());
            append_str(&mut name, "-");
        },
        WriteTarget::Configuration => {
            append_str(&mut name, ".");
            append_str(&mut name, u64_to_decimal(process_id as u64).as_str());
            append_str(&mut name, ".");
        },
    }
    append_str(&mut name, u64_to_decimal(sequence).as_str());
    append_str(&mut name, ".tmp");
    proof {
        let base = base_name(target, *file_name);
        assert(name@ =~= temporary_name(target, base, process_id as nat, sequence as nat));
    }
    name
}

impl AtomicWrite {
    /// The fields that a step leaves alone.
    pub open spec fn same_setting(self, other: Self) -> bool {
        &&& self.target == other.target
        &&& self.destination@ == other.destination@
        &&& self.parent@ == other.parent@
        &&& self.file_name == other.file_name
        &&& self.process_id == other.process_id
    }

    /// The stage after starting, and the first action.
    pub open spec fn start_action(self) -> (WriteStage, WriteAction) {
        match self.target {
            WriteTarget::Screenshot { replace_existing } => if self.file_name is None {
                (WriteStage::Finished, WriteAction::Finish(Err(WriteFailure::MissingFileName(self.destination))))
            } else if !replace_existing {
                (WriteStage::CheckingDestination, WriteAction::CheckDestination)
            } else {
                (WriteStage::CreatingDirectory, WriteAction::CreateDirectory(self.parent))
            },
            WriteTarget::Configuration => (WriteStage::CreatingDirectory, WriteAction::CreateDirectory(self.parent)),
        }
    }

    /// Only a screenshot that may not replace a file checks the destination
    /// again before it is published.
    pub open spec fn rechecks(self) -> bool {
        self.target == (WriteTarget::Screenshot { replace_existing: false })
    }

    /// `after` and `action` follow `self` on `event`; `sequence` numbers a
    /// newly named temporary file.
    pub open spec fn stepped(self, event: WriteEvent, sequence: u64, after: Self, action: WriteAction) -> bool {
        &&& after.same_setting(self)
        &&& match (self.stage, event) {
            (WriteStage::Start, _) => {
                let (stage, first) = self.start_action();
                &&& after.stage == stage
                &&& (first matches WriteAction::CreateDirectory(path) ==> (action matches WriteAction::CreateDirectory(p)
                    && p@ == path@))
                &&& (first is CheckDestination ==> action is CheckDestination)
                &&& (first matches WriteAction::Finish(Err(WriteFailure::MissingFileName(d))) ==> (
                action matches WriteAction::Finish(Err(WriteFailure::MissingFileName(a))) && a@ == d@))
            },
            (WriteStage::CheckingDestination, WriteEvent::Exists(true)) => {
                &&& after.stage == WriteStage::Finished
                &&& action matches WriteAction::Finish(Err(WriteFailure::DestinationExists(d)))
                &&& d@ == self.destination@
            },
            (WriteStage::CheckingDestination, WriteEvent::Exists(false)) => {
                &&& after.stage == WriteStage::CreatingDirectory
                &&& action matches WriteAction::CreateDirectory(p)
                &&& p@ == self.parent@
            },
            (WriteStage::CreatingDirectory, WriteEvent::Completed(Err(message))) => {
                &&& after.stage == WriteStage::Finished
                &&& action matches WriteAction::Finish(Err(failure))
                &&& io_failure(failure, WriteOperation::CreateDirectory, self.parent@, message@)
            },
            (WriteStage::CreatingDirectory, WriteEvent::Completed(Ok(()))) => {
                &&& after.stage == WriteStage::CreatingTemporary
                &&& after.attempts == 1
                &&& action matches WriteAction::CreateTemporary(path)
                &&& path@ == after.temporary@
            },
            (WriteStage::CreatingTemporary, WriteEvent::Creation(CreationOutcome::Created)) => {
                &&& after.stage == WriteStage::Writing
                &&& after.temporary@ == self.temporary@
                &&& action is WriteTemporary
            },
            (WriteStage::CreatingTemporary, WriteEvent::Creation(CreationOutcome::AlreadyExists)) => {
                if self.attempts < TEMPORARY_FILE_ATTEMPTS {
                    &&& after.stage == WriteStage::CreatingTemporary
                    &&& after.attempts == self.attempts + 1
                    &&& action matches WriteAction::CreateTemporary(path)
                    &&& path@ == after.temporary@
                } else {
                    &&& after.stage == WriteStage::Finished
                    &&& action matches WriteAction::Finish(Err(failure))
                    &&& io_failure(
                        failure,
                        WriteOperation::CreateUniqueTemporary,
                        self.parent@,
                        "temporary file name attempts exhausted"@,
                    )
                }
            },
            (WriteStage::CreatingTemporary, WriteEvent::Creation(CreationOutcome::Failed(message))) => {
                &&& after.stage == WriteStage::Finished
                &&& action matches WriteAction::Finish(Err(failure))
                &&& io_failure(failure, WriteOperation::CreateTemporary, self.temporary@, message@)
            },
            (WriteStage::Writing, WriteEvent::Completed(Ok(()))) => {
                &&& after.stage == WriteStage::Synchronizing
                &&& after.temporary@ == self.temporary@
                &&& action is SynchronizeTemporary
            },
            (WriteStage::Writing, WriteEvent::Completed(Err(message))) => {
                &&& after.stage == WriteStage::Removing
                &&& after.failure matches Some(failure)
                &&& io_failure(failure, WriteOperation::WriteTemporary, self.temporary@, message@)
                &&& action matches WriteAction::RemoveTemporary(path)
                &&& path@ == self.temporary@
            },
            (WriteStage::Synchronizing, WriteEvent::Completed(Ok(()))) => {
                &&& after.temporary@ == self.temporary@
                &&& if self.rechecks() {
                    after.stage == WriteStage::Rechecking && action is CheckDestination
                } else {
                    after.stage == WriteStage::Publishing && action == (WriteAction::Publish {
                        replace_existing: true,
                    })
                }
            },
            (WriteStage::Synchronizing, WriteEvent::Completed(Err(message))) => {
                &&& after.stage == WriteStage::Removing
                &&& after.failure matches Some(failure)
                &&& io_failure(failure, WriteOperation::SynchronizeTemporary, self.temporary@, message@)
                &&& action matches WriteAction::RemoveTemporary(path)
                &&& path@ == self.temporary@
            },
            (WriteStage::Rechecking, WriteEvent::Exists(true)) => {
                &&& after.stage == WriteStage::Removing
                &&& after.failure matches Some(WriteFailure::DestinationExists(d))
                &&& d@ == self.destination@
                &&& action matches WriteAction::RemoveTemporary(path)
                &&& path@ == self.temporary@
            },
            (WriteStage::Rechecking, WriteEvent::Exists(false)) => {
                &&& after.stage == WriteStage::Publishing
                &&& after.temporary@ == self.temporary@
                &&& action == (WriteAction::Publish { replace_existing: false })
            },
            (WriteStage::Publishing, WriteEvent::Completed(Ok(()))) => {
                &&& after.stage == WriteStage::Finished
                &&& action == WriteAction::Finish(Ok(()))
            },
            (WriteStage::Publishing, WriteEvent::Completed(Err(message))) => {
                &&& after.stage == WriteStage::Removing
                &&& after.failure matches Some(failure)
                &&& io_failure(failure, WriteOperation::Publish, self.destination@, message@)
                &&& action matches WriteAction::RemoveTemporary(path)
                &&& path@ == self.temporary@
            },
            (WriteStage::Removing, _) => {
                &&& after.stage == WriteStage::Finished
                &&& self.failure matches Some(failure)
                &&& action == WriteAction::Finish(Err(failure))
            },
            _ => false,
        }
    }

    /// Every stage but the last waits for an answer; one that removes the
    /// temporary file holds the failure to report.
    pub open spec fn well_formed(self) -> bool {
        &&& self.stage == WriteStage::Removing ==> self.failure is Some
        &&& self.stage == WriteStage::CreatingTemporary ==> 1 <= self.attempts <= TEMPORARY_FILE_ATTEMPTS
        &&& self.target is Screenshot && self.stage != WriteStage::Start && self.stage != WriteStage::Finished
            ==> self.file_name is Some
    }

    /// A write of `destination` that has not started; `parent` and
    /// `file_name` are the destination's directory and file name.
    pub fn new(
        target: WriteTarget,
        destination: String,
        parent: String,
        file_name: Option<String>,
        process_id: u32,
    ) -> (write: Self)
        ensures
            write.target == target,
            write.destination@ == destination@,
            write.parent@ == parent@,
            write.file_name == file_name,
            write.process_id == process_id,
            write.stage == WriteStage::Start,
            write.failure is None,
            write.well_formed(),
    {
        AtomicWrite {
            target,
            destination,
            parent,
            file_name,
            process_id,
            stage: WriteStage::Start,
            attempts: 0,
            temporary: String::new(),
            failure: None,
        }
    }

    fn name_temporary(&mut self, sequence: u64) -> (path: String)
        ensures
            final(self).same_setting(*old(self)),
            final(self).stage == old(self).stage,
            final(self).attempts == old(self).attempts,
            final(self).failure == old(self).failure,
            path@ == final(self).temporary@,
    {
        let name = temporary_file_name(self.target, &self.file_name, self.process_id, sequence);
        let path = join_path(self.parent.as_str(), name.as_str());
        self.temporary = path.clone();
        path
    }

    /// Takes the answer to the last action and says what to do next.
    pub fn advance(&mut self, event: WriteEvent, sequence: u64) -> (action: WriteAction)
        requires
            old(self).well_formed(),
            expects(old(self).stage, event),
        ensures
            old(self).stepped(event, sequence, *final(self), action),
            final(self).well_formed(),
    {
        match self.stage {
            WriteStage::Start => {
                match self.target {
                    WriteTarget::Screenshot { replace_existing } => {
                        if self.file_name.is_none() {
                            self.stage = WriteStage::Finished;
                            WriteAction::Finish(Err(WriteFailure::MissingFileName(self.destination.clone())))
                        } else if !replace_existing {
                            self.stage = WriteStage::CheckingDestination;
                            WriteAction::CheckDestination
                        } else {
                            self.stage = WriteStage::CreatingDirectory;
                            WriteAction::CreateDirectory(self.parent.clone())
                        }
                    },
                    WriteTarget::Configuration => {
                        self.stage = WriteStage::CreatingDirectory;
                        WriteAction::CreateDirectory(self.parent.clone())
                    },
                }
            },
            WriteStage::CheckingDestination => {
                if event matches WriteEvent::Exists(true) {
                    self.stage = WriteStage::Finished;
                    WriteAction::Finish(Err(WriteFailure::DestinationExists(self.destination.clone())))
                } else {
                    self.stage = WriteStage::CreatingDirectory;
                    WriteAction::CreateDirectory(self.parent.clone())
                }
            },
            WriteStage::CreatingDirectory => match event {
                WriteEvent::Completed(Err(message)) => {
                    self.stage = WriteStage::Finished;
                    WriteAction::Finish(
                        Err(
                            WriteFailure::Io {
                                operation: WriteOperation::CreateDirectory,
                                path: self.parent.clone(),
                                message,
                            },
                        ),
                    )
                },
                _ => {
                    self.stage = WriteStage::CreatingTemporary;
                    self.attempts = 1;
                    let path = self.name_temporary(sequence);
                    WriteAction::CreateTemporary(path)
                },
            },
            WriteStage::CreatingTemporary => match event {
                WriteEvent::Creation(CreationOutcome::Created) => {
                    self.stage = WriteStage::Writing;
                    WriteAction::WriteTemporary
                },
                WriteEvent::Creation(CreationOutcome::Failed(message)) => {
                    self.stage = WriteStage::Finished;
                    WriteAction::Finish(
                        Err(
                            WriteFailure::Io {
                                operation: WriteOperation::CreateTemporary,
                                path: self.temporary.clone(),
                                message,
                            },
                        ),
                    )
                },
                _ => {
                    if self.attempts < TEMPORARY_FILE_ATTEMPTS {
                        self.attempts = self.attempts + 1;
                        let path = self.name_temporary(sequence);
                        WriteAction::CreateTemporary(path)
                    } else {
                        self.stage = WriteStage::Finished;
                        WriteAction::Finish(
                            Err(
                                WriteFailure::Io {
                                    operation: WriteOperation::CreateUniqueTemporary,
                                    path: self.parent.clone(),
                                    message: "temporary file name attempts exhausted".to_owned(),
                                },
                            ),
                        )
                    }
                },
            },
            WriteStage::Writing => match event {
                WriteEvent::Completed(Err(message)) => {
                    self.stage = WriteStage::Removing;
                    self.failure = Some(
                        WriteFailure::Io {
                            operation: WriteOperation::WriteTemporary,
                            path: self.temporary.clone(),
                            message,
                        },
                    );
                    WriteAction::RemoveTemporary(self.temporary.clone())
                },
                _ => {
                    self.stage = WriteStage::Synchronizing;
                    WriteAction::SynchronizeTemporary
                },
            },
            WriteStage::Synchronizing => match event {
                WriteEvent::Completed(Err(message)) => {
                    self.stage = WriteStage::Removing;
                    self.failure = Some(
                        WriteFailure::Io {
                            operation: WriteOperation::SynchronizeTemporary,
                            path: self.temporary.clone(),
                            message,
                        },
                    );
                    WriteAction::RemoveTemporary(self.temporary.clone())
                },
                _ => {
                    if self.target == (WriteTarget::Screenshot { replace_existing: false }) {
                        self.stage = WriteStage::Rechecking;
                        WriteAction::CheckDestination
                    } else {
                        self.stage = WriteStage::Publishing;
                        WriteAction::Publish { replace_existing: true }
                    }
                },
            },
            WriteStage::Rechecking => {
                if event matches WriteEvent::Exists(true) {
                    self.stage = WriteStage::Removing;
                    self.failure = Some(WriteFailure::DestinationExists(self.destination.clone()));
                    WriteAction::RemoveTemporary(self.temporary.clone())
                } else {
                    self.stage = WriteStage::Publishing;
                    WriteAction::Publish { replace_existing: false }
                }
            },
            WriteStage::Publishing => match event {
                WriteEvent::Completed(Err(message)) => {
                    self.stage = WriteStage::Removing;
                    self.failure = Some(
                        WriteFailure::Io {
                            operation: WriteOperation::Publish,
                            path: self.destination.clone(),
                            message,
                        },
                    );
                    WriteAction::RemoveTemporary(self.temporary.clone())
                },
                _ => {
                    self.stage = WriteStage::Finished;
                    WriteAction::Finish(Ok(()))
                },
            },
            WriteStage::Removing => {
                self.stage = WriteStage::Finished;
                match self.failure.take() {
                    Some(failure) => WriteAction::Finish(Err(failure)),
                    None => WriteAction::Finish(Ok(())),
                }
            },
            WriteStage::Finished => WriteAction::Finish(Ok(())),
        }
    }
}

/// What an operation's failure is called in a screenshot error.
pub open spec fn screenshot_operation(operation: WriteOperation) -> Seq<char> {
    match operation {
        WriteOperation::CreateDirectory => "create destination directory"@,
        WriteOperation::CreateTemporary => "create temporary screenshot"@,
        WriteOperation::CreateUniqueTemporary => "create a unique temporary screenshot"@,
        WriteOperation::WriteTemporary => "write temporary screenshot"@,
        WriteOperation::SynchronizeTemporary => "synchronize temporary screenshot"@,
        WriteOperation::Publish => "publish screenshot"@,
    }
}

/// What an operation's failure is called in a settings error.
pub open spec fn configuration_operation(operation: WriteOperation) -> Seq<char> {
    match operation {
        WriteOperation::CreateDirectory => "create configuration directory"@,
        WriteOperation::CreateTemporary => "create temporary configuration"@,
        WriteOperation::CreateUniqueTemporary => "create a unique temporary configuration"@,
        WriteOperation::WriteTemporary => "write temporary configuration"@,
        WriteOperation::SynchronizeTemporary => "synchronize temporary configuration"@,
        WriteOperation::Publish => "replace configuration"@,
    }
}

fn screenshot_operation_text(operation: WriteOperation) -> (text: &'static str)
    ensures
        text@ == screenshot_operation(operation),
{
    match operation {
        WriteOperation::CreateDirectory => "create destination directory",
        WriteOperation::CreateTemporary => "create temporary screenshot",
        WriteOperation::CreateUniqueTemporary => "create a unique temporary screenshot",
        WriteOperation::WriteTemporary => "write temporary screenshot",
        WriteOperation::SynchronizeTemporary => "synchronize temporary screenshot",
        WriteOperation::Publish => "publish screenshot",
    }
}

fn configuration_operation_text(operation: WriteOperation) -> (text: &'static str)
    ensures
        text@ == configuration_operation(operation),
{
    match operation {
        WriteOperation::CreateDirectory => "create configuration directory",
        WriteOperation::CreateTemporary => "create temporary configuration",
        WriteOperation::CreateUniqueTemporary => "create a unique temporary configuration",
        WriteOperation::WriteTemporary => "write temporary configuration",
        WriteOperation::SynchronizeTemporary => "synchronize temporary configuration",
        WriteOperation::Publish => "replace configuration",
    }
}

/// A screenshot write's failure as an encoding error.
pub fn screenshot_error(failure: WriteFailure) -> (error: EncodeError)
    ensures
        match failure {
            WriteFailure::MissingFileName(path) => {
                &&& error matches EncodeError::MissingFileName(p)
                &&& p@ == path@
            },
            WriteFailure::DestinationExists(path) => {
                &&& error matches EncodeError::DestinationExists(p)
                &&& p@ == path@
            },
            WriteFailure::Io { operation, path, message } => {
                &&& error matches EncodeError::Io { operation: o, path: p, message: m }
                &&& o@ == screenshot_operation(operation)
                &&& p@ == path@
                &&& m@ == message@
            },
        },
{
    match failure {
        WriteFailure::MissingFileName(path) => EncodeError::MissingFileName(path),
        WriteFailure::DestinationExists(path) => EncodeError::DestinationExists(path),
        WriteFailure::Io { operation, path, message } => EncodeError::Io {
            operation: screenshot_operation_text(operation).to_owned(),
            path,
            message,
        },
    }
}

/// A settings write's failure as a configuration error. A settings write
/// never refuses an existing file and always has a file name, so only I/O
/// failures arise; the others keep their path as an I/O failure of
/// publication.
pub fn configuration_error(failure: WriteFailure) -> (error: ConfigError)
    ensures
        match failure {
            WriteFailure::Io { operation, path, message } => {
                &&& error matches ConfigError::Io { operation: o, path: p, message: m }
                &&& o@ == configuration_operation(operation)
                &&& p@ == path@
                &&& m@ == message@
            },
            WriteFailure::MissingFileName(path) | WriteFailure::DestinationExists(path) => {
                &&& error matches ConfigError::Io { operation: o, path: p, .. }
                &&& o@ == configuration_operation(WriteOperation::Publish)
                &&& p@ == path@
            },
        },
{
    match failure {
        WriteFailure::Io { operation, path, message } => ConfigError::Io {
            operation: configuration_operation_text(operation).to_owned(),
            path,
            message,
        },
        WriteFailure::MissingFileName(path) | WriteFailure::DestinationExists(path) => ConfigError::Io {
            operation: configuration_operation_text(WriteOperation::Publish).to_owned(),
            path,
            message: "the destination cannot be replaced".to_owned(),
        },
    }
}

/// A screenshot write that may not replace a file never asks to publish
/// over an existing one: a publish it asks for refuses to replace the
/// destination, and comes only right after the destination was found
/// absent once the contents were written and synchronized.
pub proof fn lemma_no_replacing_publish(
    write: AtomicWrite,
    event: WriteEvent,
    sequence: u64,
    after: AtomicWrite,
    action: WriteAction,
)
    requires
        write.target == (WriteTarget::Screenshot { replace_existing: false }),
        write.stepped(event, sequence, after, action),
    ensures
        action != (WriteAction::Publish { replace_existing: true }),
        action is Publish ==> write.stage == WriteStage::Rechecking && (event matches WriteEvent::Exists(
            false,
        )),
        after.target == write.target,
{
}

} // verus!
