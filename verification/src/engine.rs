//! The adapter's side of the conversation with the engine: what to send for
//! a request, which answer to await, and what to do with a frame that nobody
//! awaits.
//!
//! Nothing here reads or writes: a request is the line to write and the
//! topic of the answer to subscribe to, and an answer is a frame that the
//! subscription was handed.

pub mod error;
pub mod id;
pub mod request;
pub mod topic;

pub use error::Error;
pub use id::{id, id_of};
pub use request::{Req, Request};
pub use topic::Topic;

use crate::format::control::{Connect, ErrorIn, Output, Quit, QuitAck};
use crate::format::field::flag;
use crate::format::handler::{InstallAck, InstallReq, UninstallAck, UninstallReq};
use crate::format::local::{SetLocalAck, SetLocalReq};
use crate::format::message::{MessageAck, MessageReq};
use crate::format::params::Params;
use crate::format::record::{frame, from_str, read, to_string, Record};
use crate::format::scalar::{ConnectRole, DebugLevel};
use crate::format::ser::wire_record;
use crate::format::shape::Datum;
use crate::format::text::joined;
use crate::format::watcher::{UnwatchAck, UnwatchReq, WatchAck, WatchReq};
use crate::subable::{Subed, Subscriber};
use topic::{text_at, Label};
use vstd::prelude::*;

verus! {

/// A request that is answered: the line to write, and the topic of the
/// answer to await.
#[derive(Debug)]
pub struct Call {
    /// The frame to write, without the newline that ends it.
    pub line: String,
    /// The topic to subscribe to for the answer.
    pub topic: Topic,
}

/// Request the engine to install a message handler with the given priority.
pub fn install(priority: Option<u64>, name: String, filter: Option<(String, Option<String>)>) -> (call: Call)
    ensures
        call.line@ == frame((InstallReq { priority, name, filter })),
        call.topic@ == Label::InstallAck(name@),
{
    let topic = Topic::InstallAck(name.clone());
    let message = InstallReq { priority, name, filter };
    Call { line: to_string(&message), topic }
}

/// Request the engine to remove a previously installed handler.
pub fn uninstall(name: String) -> (call: Call)
    ensures
        call.line@ == frame((UninstallReq { name })),
        call.topic@ == Label::UninstallAck(name@),
{
    let topic = Topic::UninstallAck(name.clone());
    let message = UninstallReq { name };
    Call { line: to_string(&message), topic }
}

/// Request the engine to install a message watcher.
pub fn watch(name: String) -> (call: Call)
    ensures
        call.line@ == frame((WatchReq { name })),
        call.topic@ == Label::WatchAck(name@),
{
    let topic = Topic::WatchAck(name.clone());
    let message = WatchReq { name };
    Call { line: to_string(&message), topic }
}

/// Request the engine to remove a previously installed watcher.
pub fn unwatch(name: String) -> (call: Call)
    ensures
        call.line@ == frame((UnwatchReq { name })),
        call.topic@ == Label::UnwatchAck(name@),
{
    let topic = Topic::UnwatchAck(name.clone());
    let message = UnwatchReq { name };
    Call { line: to_string(&message), topic }
}

/// Request the engine to set a local parameter.
pub fn setlocal(name: String, value: String) -> (call: Call)
    ensures
        call.line@ == frame((SetLocalReq { name, value: Some(value) })),
        call.topic@ == Label::SetLocalAck(name@),
{
    let topic = Topic::SetLocalAck(name.clone());
    let message = SetLocalReq { name, value: Some(value) };
    Call { line: to_string(&message), topic }
}

/// Request the value of a local parameter.
pub fn getlocal(name: String) -> (call: Call)
    ensures
        call.line@ == frame((SetLocalReq { name, value: None })),
        call.topic@ == Label::SetLocalAck(name@),
{
    let topic = Topic::SetLocalAck(name.clone());
    let message = SetLocalReq { name, value: None };
    Call { line: to_string(&message), topic }
}

/// Send a message to the engine for processing. The id has to be unique for
/// the life of the process, see [`id`]; the time is that of the call, in
/// seconds since the Unix epoch.
pub fn message(id: String, time: u64, name: String, retvalue: String, kv: Params) -> (call: Call)
    ensures
        call.line@ == frame((MessageReq { id, time, name, retvalue, kv })),
        call.topic@ == Label::MessageAck(id@),
{
    let topic = Topic::MessageAck(id.clone());
    let message = MessageReq { id, time, name, retvalue, kv };
    Call { line: to_string(&message), topic }
}

/// Tell the engine that the application wants to stop handling messages.
/// Once the answer has arrived, every subscription is to be ended.
pub fn quit() -> (call: Call)
    ensures
        call.line@ == frame(Quit),
        call.topic@ == Label::QuitAck,
{
    Call { line: to_string(&Quit), topic: Topic::QuitAck }
}

/// The topic of the messages that the engine sends to be processed.
pub fn messages() -> (topic: Topic)
    ensures
        topic@ == Label::Message,
{
    Topic::Message
}

/// The topic of the messages that the engine hands to their watchers.
pub fn watches() -> (topic: Topic)
    ensures
        topic@ == Label::Watch,
{
    Topic::Watch
}

/// Tell the engine the role of a socket connection. There is no answer.
pub fn connect(role: ConnectRole, channel: Option<(String, Option<String>)>) -> (line: String)
    ensures
        line@ == frame((Connect { role, channel })),
{
    to_string(&Connect { role, channel })
}

/// Output some arbitrary text to the engine's log. There is no answer.
pub fn output(text: String) -> (line: String)
    ensures
        line@ == frame((Output { text })),
{
    to_string(&Output { text })
}

/// Output some debug text to the engine's log. There is no answer.
pub fn debug(level: DebugLevel, text: String) -> (line: String)
    ensures
        line@ == frame((crate::format::control::Debug { level, text })),
{
    to_string(&crate::format::control::Debug { level, text })
}

/// The answer to a message from the engine, in terms of what the message
/// holds: its id, name, return value and parameters, with the flag that
/// tells whether it was processed.
pub open spec fn answer(message: Datum, processed: bool) -> Datum {
    let fields = message->Struct_0;
    Datum::Struct(
        seq![
            fields[0],
            flag(processed),
            Datum::Present(Box::new(fields[2])),
            fields[3],
            fields[4],
        ],
    )
}

/// The answer to a message that nobody processed: its id, return value and
/// parameters, without a name.
pub open spec fn refusal(message: Datum) -> Datum {
    let fields = message->Struct_0;
    Datum::Struct(seq![fields[0], flag(false), Datum::Absent, fields[3], fields[4]])
}

/// Acknowledge a message from the engine, letting it forward the message to
/// the next handler if it was not processed.
pub fn ack(req: Request, processed: bool) -> (line: String)
    ensures
        line@ == joined(
            wire_record(MessageAck::tag(), answer(req@, processed), MessageAck::layout()),
            ':',
        ),
{
    let original = req.into_inner();
    let message = MessageAck {
        id: original.id,
        processed,
        name: Some(original.name),
        retvalue: original.retvalue,
        kv: original.kv,
    };
    assert(message.datum()->Struct_0 =~= answer(req@, processed)->Struct_0);
    to_string(&message)
}

/// The flag to acknowledge a message with, given what its handler made of
/// it: a message is acknowledged in success and in error, and it was
/// processed only if its handler says so.
pub fn processed<E>(outcome: &Result<bool, E>) -> (flag: bool)
    ensures
        flag == (*outcome matches Ok(done) && done),
{
    match outcome {
        Ok(done) => *done,
        Err(_) => false,
    }
}

/// What to do with a frame that no subscription awaits.
#[derive(Debug)]
pub enum Response {
    /// The frame is a message that no handler took: write this line, which
    /// tells the engine that the message was not processed.
    Ack(String),
    /// The frame reports a line that the engine could not read: report it,
    /// and do not answer.
    Report(String),
    /// Anything else: drop it.
    Drop,
}

/// What a [`Response`] holds.
pub enum Reply {
    Ack(Seq<char>),
    Report(Seq<char>),
    Drop,
}

impl View for Response {
    type V = Reply;

    open spec fn view(&self) -> Reply {
        match self {
            Response::Ack(line) => Reply::Ack(line@),
            Response::Report(original) => Reply::Report(original@),
            Response::Drop => Reply::Drop,
        }
    }
}

/// What to do with a frame that no subscription awaits.
///
/// A message is answered, with the frame that tells that it was not
/// processed. The report of a line in error is reported in turn, and not
/// answered. Anything else is dropped.
pub open spec fn respond(recvd: Seq<char>) -> Reply {
    match read::<MessageReq>(recvd) {
        Ok(message) => Reply::Ack(
            joined(wire_record(MessageAck::tag(), refusal(message), MessageAck::layout()), ':'),
        ),
        Err(_) => match read::<ErrorIn>(recvd) {
            Ok(report) => Reply::Report(text_at(report, 0)),
            Err(_) => Reply::Drop,
        },
    }
}

/// Decide what to do with a frame that no subscription awaits.
pub fn default_response(recvd: &str) -> (response: Response)
    ensures
        response@ == respond(recvd@),
{
    match from_str::<MessageReq>(recvd) {
        Ok(message) => {
            let ghost whole = message.datum();
            let reply = MessageAck {
                id: message.id,
                processed: false,
                name: None,
                retvalue: message.retvalue,
                kv: message.kv,
            };
            assert(reply.datum()->Struct_0 =~= refusal(whole)->Struct_0);
            Response::Ack(to_string(&reply))
        },
        Err(_) => match from_str::<ErrorIn>(recvd) {
            Ok(report) => Response::Report(report.original),
            Err(_) => Response::Drop,
        },
    }
}

/// What a subscription makes of an item that it was handed.
#[derive(Debug)]
pub enum Next<T> {
    /// The record that was awaited.
    Item(T),
    /// A frame of the awaited topic that is no such record.
    Failed(Error),
    /// A frame that nobody awaits: respond as told, and go on waiting.
    Respond(Response),
    /// No more items.
    End,
}

/// Decide what a subscription makes of what it was handed: a frame of its
/// topic is read as the record `T`, a frame that nobody awaits gets the
/// default response, and the end of the subscription ends the wait.
pub fn next<T: Record>(delivery: Option<Subed<String>>) -> (r: Next<T>)
    ensures
        match delivery {
            None => r is End,
            Some(Subed::Yes(recvd)) => match read::<T>(recvd@) {
                Ok(value) => r matches Next::Item(record) && record.datum() == value,
                Err(e) => r matches Next::Failed(error) && error == Error::Format(e),
            },
            Some(Subed::No(recvd)) => r matches Next::Respond(response) && response@ == respond(
                recvd@,
            ),
        },
{
    match delivery {
        None => Next::End,
        Some(Subed::Yes(recvd)) => match from_str::<T>(recvd.as_str()) {
            Ok(record) => Next::Item(record),
            Err(e) => Next::Failed(Error::Format(e)),
        },
        Some(Subed::No(recvd)) => Next::Respond(default_response(recvd.as_str())),
    }
}

/// The answer that a request waited for, or the error that the stream ended
/// before it.
pub fn expect<T>(answer: Option<T>) -> (r: Result<T, Error>)
    ensures
        r == match answer {
            Some(found) => Ok::<T, Error>(found),
            None => Err::<T, Error>(Error::UnexpectedEof),
        },
{
    match answer {
        Some(found) => Ok(found),
        None => Err(Error::UnexpectedEof),
    }
}

/// What [`install`] gives its caller: whether the handler was installed.
pub fn install_ack(answer: Option<InstallAck>) -> (r: Result<bool, Error>)
    ensures
        r == match answer {
            Some(ack) => Ok::<bool, Error>(ack.success),
            None => Err::<bool, Error>(Error::UnexpectedEof),
        },
{
    Ok(expect(answer)?.success)
}

/// What [`uninstall`] gives its caller: whether the handler was removed.
pub fn uninstall_ack(answer: Option<UninstallAck>) -> (r: Result<bool, Error>)
    ensures
        r == match answer {
            Some(ack) => Ok::<bool, Error>(ack.success),
            None => Err::<bool, Error>(Error::UnexpectedEof),
        },
{
    Ok(expect(answer)?.success)
}

/// What [`watch`] gives its caller: whether the watcher was installed.
pub fn watch_ack(answer: Option<WatchAck>) -> (r: Result<bool, Error>)
    ensures
        r == match answer {
            Some(ack) => Ok::<bool, Error>(ack.success),
            None => Err::<bool, Error>(Error::UnexpectedEof),
        },
{
    Ok(expect(answer)?.success)
}

/// What [`unwatch`] gives its caller: whether the watcher was removed.
pub fn unwatch_ack(answer: Option<UnwatchAck>) -> (r: Result<bool, Error>)
    ensures
        r == match answer {
            Some(ack) => Ok::<bool, Error>(ack.success),
            None => Err::<bool, Error>(Error::UnexpectedEof),
        },
{
    Ok(expect(answer)?.success)
}

/// What [`setlocal`] gives its caller: whether the parameter was changed.
pub fn setlocal_ack(answer: Option<SetLocalAck>) -> (r: Result<bool, Error>)
    ensures
        r == match answer {
            Some(ack) => Ok::<bool, Error>(ack.success),
            None => Err::<bool, Error>(Error::UnexpectedEof),
        },
{
    Ok(expect(answer)?.success)
}

/// What [`getlocal`] gives its caller: the value of the parameter.
pub fn getlocal_ack(answer: Option<SetLocalAck>) -> (r: Result<String, Error>)
    ensures
        match answer {
            Some(ack) => r matches Ok(value) && value@ == ack.value@,
            None => r matches Err(e) && e == Error::UnexpectedEof,
        },
{
    Ok(expect(answer)?.value)
}

/// What [`message`] gives its caller: whether the message was processed,
/// its return value and its parameters.
pub fn message_ack(answer: Option<MessageAck>) -> (r: Result<(bool, String, Params), Error>)
    ensures
        match answer {
            Some(ack) => r matches Ok(got) && got.0 == ack.processed && got.1@ == ack.retvalue@
                && got.2@ == ack.kv@,
            None => r matches Err(e) && e == Error::UnexpectedEof,
        },
{
    let ack = expect(answer)?;
    Ok((ack.processed, ack.retvalue, ack.kv))
}

/// What [`quit`] gives its caller: nothing. Once the answer has arrived,
/// every subscription of the hub is ended, so that each of them finds its
/// slot gone when it is polled next; while it has not, they stay.
pub fn quit_ack(hub: &mut Subscriber, answer: Option<QuitAck>) -> (r: Result<(), Error>)
    ensures
        r == match answer {
            Some(_) => Ok::<(), Error>(()),
            None => Err::<(), Error>(Error::UnexpectedEof),
        },
        final(hub)@ == if answer is Some {
            Set::<Label>::empty()
        } else {
            old(hub)@
        },
{
    expect(answer)?;
    hub.unsubscribe_all();
    Ok(())
}

} // verus!
