//! An edit goes on once the file that it starts from was read.
use crate::cursor::tools::response::{ExecMessage, ReadOutcome};
use crate::cursor::tools::runtime;
use crate::cursor::tools::runtime::{
    CursorToolRuntime, ExecStage, ExecStageView, IdSource, PendingExec, RuntimeView,
};
use crate::error::{Error, ErrorView};
use crate::text;
use vstd::prelude::*;

verus! {

/// The file that an edit starts from, out of the client's answer.
pub fn edit_read<'a>(entry: &PendingExec, message: &'a ExecMessage) -> (r: Result<
    &'a ReadOutcome,
    Error,
>)
    ensures
        match r {
            Ok(read) => *message == ExecMessage::Read(*read),
            Err(error) => !(*message is Read) && error@ == ErrorView::Protocol(
                "expected ReadResult for edit tool "@ + entry@.call.name,
            ),
        },
{
    match message {
        ExecMessage::Read(read) => Ok(read),
        _ => Err(
            Error::Protocol(
                text::concat("expected ReadResult for edit tool ", entry.call.name.as_str()),
            ),
        ),
    }
}

/// How an edit goes on.
#[derive(Debug)]
pub enum EditStep {
    /// The call is answered with the error.
    Failed { entry: PendingExec, error: String },
    /// The client is asked to write what the ticket names, under this id.
    Write { id: u32, ticket: u64 },
}

/// How an edit goes on: what it writes is worked out elsewhere from what was read, and comes as a
/// ticket for it or as the reason why there is nothing to write.
pub fn advance_edit(
    runtime: &mut CursorToolRuntime,
    ids: &mut IdSource,
    entry: PendingExec,
    message: &ExecMessage,
    write: Result<u64, String>,
) -> (r: Result<EditStep, Error>)
    requires
        old(runtime).wf(),
    ensures
        final(runtime).wf(),
        !(*message is Read) ==> {
            &&& r matches Err(error) && error@ == ErrorView::Protocol(
                "expected ReadResult for edit tool "@ + entry@.call.name,
            )
            &&& final(runtime)@ == old(runtime)@
            &&& final(ids).last == old(ids).last
        },
        *message is Read ==> match write {
            Err(reason) => {
                &&& r matches Ok(EditStep::Failed { entry: failed, error }) && failed@ == entry@
                    && error@ == reason@
                &&& final(runtime)@ == old(runtime)@
                &&& final(ids).last == old(ids).last
            },
            Ok(ticket) => match r {
                Ok(EditStep::Write { id, ticket: written }) => {
                    &&& old(ids).last < u32::MAX && id == old(ids).last + 1 && final(ids).last == id
                    &&& written == ticket
                    &&& final(runtime)@ == (RuntimeView {
                        execs: old(runtime)@.execs.insert(
                            id,
                            runtime::fresh_exec(
                                entry@.call,
                                entry@.terminals_folder,
                                ExecStageView::EditWrite(ticket),
                                entry@.started_at_ms,
                            ),
                        ),
                        ..old(runtime)@
                    })
                },
                Ok(EditStep::Failed { .. }) => false,
                Err(error) => old(ids).last == u32::MAX && error@ == runtime::no_more_ids()
                    && final(runtime)@ == old(runtime)@ && final(ids).last == 0,
            },
        },
{
    match edit_read(&entry, message) {
        Ok(_) => {},
        Err(error) => {
            return Err(error);
        },
    }
    match write {
        Err(reason) => Ok(EditStep::Failed { entry, error: reason }),
        Ok(ticket) => match runtime.reserve_exec_stage(
            ids,
            &entry.call,
            entry.terminals_folder.as_str(),
            ExecStage::EditWrite(ticket),
            entry.started_at_ms,
        ) {
            Ok(id) => Ok(EditStep::Write { id, ticket }),
            Err(error) => Err(error),
        },
    }
}

/// What became of a client's answer to a question that the user was asked.
#[derive(Debug)]
pub enum ClientToolEvent {
    /// The call is answered; the ticket names what the caller keeps of the answer.
    Completed(u64),
    /// Nothing yet.
    Pending,
}

/// What became of a client's answer, from the answer that was worked out, if there is one yet.
pub fn client_tool_event(completion: Option<u64>) -> (r: ClientToolEvent)
    ensures
        r == (match completion {
            Some(ticket) => ClientToolEvent::Completed(ticket),
            None => ClientToolEvent::Pending,
        }),
{
    match completion {
        Some(ticket) => ClientToolEvent::Completed(ticket),
        None => ClientToolEvent::Pending,
    }
}

} // verus!
