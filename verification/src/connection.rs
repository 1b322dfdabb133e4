//! The connection: what one side of an open stream does with its outbox and
//! with the frames that go over the stream.
//!
//! A `TolliverConnection` owns the handle on the outbox and decides; the
//! caller owns the stream and moves the bytes. The connection says which
//! frame is to be written next, the caller writes it and tells the connection
//! how that went, and the connection settles the record in the outbox.
//!
//! A connection begins by draining: every record that an earlier run left in
//! the outbox is written to the stream at hand, whatever peer it was first
//! meant for, the oldest first, and deleted once written. Only then is the
//! connection ready for sending and receiving.

use vstd::prelude::*;
use vstd::string::StringExecFns;

use crate::error::{io_error_from_kind, io_error_of, TolliverError};
use crate::outbox::{ascending_by_id, Outbox, UnsentMessage, UnsentMessageView};
use crate::wire::{
    body_to_tolliver_message, decode_frame, frame_body, frame_bytes, frame_bytes_missing,
    frame_missing, frame_proto_id, lemma_frame_round_trip, ReadMessage, MAX_BODY_LENGTH,
};

verus! {

/// Where a connection stands.
#[derive(Debug, Clone, Copy, PartialEq, Eq, Structural)]
pub enum ConnectionState {
    /// Records found in the outbox are still to be written.
    Draining,
    /// Messages can be sent and received.
    Ready,
    /// The connection is given up: nothing can be sent or received.
    Closed,
}

/// How a durable send ended once its frame was on the wire.
#[derive(Debug)]
pub enum SendStatus {
    /// The record is deleted: the outbox no longer holds the message.
    Completed,
    /// The record could not be deleted, for the reason given. The peer has
    /// the message; the outbox still holds it, and the next connection that
    /// drains the outbox will send it again.
    Orphaned(TolliverError),
}

/// What reading has to do next.
#[derive(Debug)]
pub enum ReadProgress {
    /// So many more bytes have to be read before the frame is whole.
    Incomplete(usize),
    /// The frame is whole, and this is its message.
    Complete(ReadMessage),
}

/// A connection as a mathematical value.
pub struct ConnectionView {
    /// Where the connection stands.
    pub state: ConnectionState,
    /// The records that are in the outbox by this connection's doing or
    /// finding and whose frames it still owes the stream, the next one to
    /// write first.
    pub pending: Seq<UnsentMessageView>,
    /// The frames of outbox records that the caller reported written, in the
    /// order of the reports.
    pub written: Seq<Seq<u8>>,
    /// The ids of the records that the outbox reported deleted, in the order
    /// of the reports.
    pub deleted: Seq<int>,
}

impl ConnectionView {
    /// What holds of every connection: one that drains has something to
    /// drain.
    pub open spec fn wf(self) -> bool {
        self.state is Draining ==> self.pending.len() > 0
    }

    /// The connection as it is first: it owes the stream `records`, and
    /// drains unless there are none.
    pub open spec fn initial(records: Seq<UnsentMessageView>) -> ConnectionView {
        ConnectionView {
            state: if records.len() > 0 {
                ConnectionState::Draining
            } else {
                ConnectionState::Ready
            },
            pending: records,
            written: Seq::empty(),
            deleted: Seq::empty(),
        }
    }

    /// The connection once `record` is stored in the outbox for a durable
    /// send.
    pub open spec fn queued(self, record: UnsentMessageView) -> ConnectionView {
        ConnectionView { pending: self.pending.push(record), ..self }
    }

    /// The connection once the frame of its first pending record is written
    /// and the record deleted. With the last record gone, draining is over.
    pub open spec fn completed(self) -> ConnectionView {
        ConnectionView {
            state: if self.pending.len() == 1 && self.state is Draining {
                ConnectionState::Ready
            } else {
                self.state
            },
            pending: self.pending.drop_first(),
            written: self.written.push(self.pending[0].message_bytes),
            deleted: self.deleted.push(self.pending[0].id),
        }
    }

    /// The connection once the frame of its first pending record is written
    /// and the record could not be deleted, while sending: the connection
    /// lets go of the record.
    pub open spec fn orphaned(self) -> ConnectionView {
        ConnectionView {
            pending: self.pending.drop_first(),
            written: self.written.push(self.pending[0].message_bytes),
            ..self
        }
    }

    /// The connection once the frame of its first pending record could not be
    /// written, while sending: the record stays in the outbox, and the
    /// connection lets go of it and does not try again.
    pub open spec fn abandoned(self) -> ConnectionView {
        ConnectionView { pending: self.pending.drop_first(), ..self }
    }

    /// The connection once it is given up. The records it still owed stay in
    /// the outbox.
    pub open spec fn closed(self) -> ConnectionView {
        ConnectionView { state: ConnectionState::Closed, pending: Seq::empty(), ..self }
    }

    /// The connection once the first record's frame was written and the
    /// outbox has answered the deletion with `deleted`.
    pub open spec fn settled(self, deleted: Result<(), TolliverError>) -> ConnectionView {
        if deleted is Ok {
            self.completed()
        } else if self.state is Draining {
            ConnectionView {
                written: self.written.push(self.pending[0].message_bytes),
                ..self.closed()
            }
        } else {
            self.orphaned()
        }
    }

    /// The connection after `count` records in a row were written and
    /// deleted.
    pub open spec fn drained(self, count: nat) -> ConnectionView
        decreases count,
    {
        if count == 0 {
            self
        } else {
            self.completed().drained((count - 1) as nat)
        }
    }
}

/// The frames of `records`, in their order.
pub open spec fn frames_of(records: Seq<UnsentMessageView>) -> Seq<Seq<u8>> {
    records.map_values(|record: UnsentMessageView| record.message_bytes)
}

/// The ids of `records`, in their order.
pub open spec fn ids_of(records: Seq<UnsentMessageView>) -> Seq<int> {
    records.map_values(|record: UnsentMessageView| record.id)
}

/// The error of a connection that is not ready: the one that std makes of
/// the kind `NotConnected`.
fn not_connected() -> (error: std::io::Error)
    ensures
        error == not_connected_error(),
{
    io_error_of(std::io::ErrorKind::NotConnected)
}

/// The error with which a connection that is not ready answers: the one that
/// std makes of the kind `NotConnected`.
pub open spec fn not_connected_error() -> std::io::Error {
    io_error_from_kind(std::io::ErrorKind::NotConnected)
}

/// What `complete_send` says where no record is pending.
pub open spec fn nothing_pending_text() -> Seq<char> {
    "No message awaits completion"@
}

/// How a send ends once its frame is on the wire and the outbox has answered
/// the deletion with `deleted`. While draining, a record that cannot be
/// deleted fails the connection; while sending, the message counts as
/// delivered and the record as orphaned.
pub open spec fn send_result(state: ConnectionState, deleted: Result<(), TolliverError>) -> Result<
    SendStatus,
    TolliverError,
> {
    match deleted {
        Ok(()) => Ok(SendStatus::Completed),
        Err(error) => if state is Draining {
            Err(error)
        } else {
            Ok(SendStatus::Orphaned(error))
        },
    }
}

/// One side of an open stream, with its handle on the outbox.
pub struct TolliverConnection {
    outbox: Outbox,
    /// Whether the records found in the outbox have not all been written.
    draining: bool,
    /// Whether the connection was given up.
    closed: bool,
    /// The records whose frames are owed to the stream, the next one first.
    pending: Vec<UnsentMessage>,
    written: Ghost<Seq<Seq<u8>>>,
    deleted: Ghost<Seq<int>>,
}

impl View for TolliverConnection {
    type V = ConnectionView;

    closed spec fn view(&self) -> ConnectionView {
        ConnectionView {
            state: if self.closed {
                ConnectionState::Closed
            } else if self.draining && self.pending@.len() > 0 {
                ConnectionState::Draining
            } else {
                ConnectionState::Ready
            },
            pending: if self.closed {
                Seq::empty()
            } else {
                self.pending.deep_view()
            },
            written: self.written@,
            deleted: self.deleted@,
        }
    }
}

impl TolliverConnection {
    /// Every connection is well formed.
    pub proof fn lemma_wf(&self)
        ensures
            self@.wf(),
    {
    }

    /// Makes a connection that owes the stream `records`.
    fn with_records(outbox: Outbox, records: Vec<UnsentMessage>) -> (connection: Self)
        ensures
            connection@ == ConnectionView::initial(records.deep_view()),
    {
        TolliverConnection {
            outbox,
            draining: true,
            closed: false,
            pending: records,
            written: Ghost(Seq::empty()),
            deleted: Ghost(Seq::empty()),
        }
    }

    /// Makes the connection for a stream that has just been opened: lists
    /// what an earlier run left in the outbox, in ascending order of ids. The
    /// connection drains unless the outbox was empty. Fails only where the
    /// outbox cannot be read.
    pub fn new(outbox: Outbox) -> (result: Result<Self, TolliverError>)
        ensures
            result matches Ok(connection) ==> connection@ == ConnectionView::initial(
                connection@.pending,
            ) && ascending_by_id(connection@.pending),
            result matches Err(error) ==> error is SqliteError,
    {
        let mut outbox = outbox;
        match outbox.read_from_disk() {
            Ok(records) => Ok(Self::with_records(outbox, records)),
            Err(error) => Err(error),
        }
    }

    /// Where the connection stands.
    pub fn state(&self) -> (state: ConnectionState)
        ensures
            state == self@.state,
    {
        if self.closed {
            ConnectionState::Closed
        } else if self.draining && self.pending.len() > 0 {
            ConnectionState::Draining
        } else {
            ConnectionState::Ready
        }
    }

    /// The record whose frame the caller has to write to the stream now:
    /// the first that is pending, if any is.
    pub fn next_unsent(&self) -> (next: Option<&UnsentMessage>)
        ensures
            next is Some <==> self@.pending.len() > 0,
            next matches Some(message) ==> message@ == self@.pending[0],
    {
        if !self.closed && self.pending.len() > 0 {
            Some(&self.pending[0])
        } else {
            None
        }
    }

    /// Gives the connection up. What it still owed stays in the outbox for
    /// the next connection to drain.
    pub fn close(&mut self)
        ensures
            final(self)@ == old(self)@.closed(),
    {
        self.closed = true;
        self.pending.clear();
    }

    /// Encodes one frame for the caller to write to the stream. Nothing is
    /// stored. Fails with `BodyTooLarge` where the body is longer than 65535
    /// bytes, else with `IOError` unless the connection is ready.
    pub fn unreliable_send_bytes(&self, proto_id: u64, bytes: Vec<u8>) -> (result: Result<
        Vec<u8>,
        TolliverError,
    >)
        ensures
            result is Ok <==> bytes@.len() <= MAX_BODY_LENGTH && self@.state is Ready,
            result matches Ok(message) ==> message@ == frame_bytes(proto_id, bytes@),
            result matches Err(error) ==> (if bytes@.len() > MAX_BODY_LENGTH {
                error is BodyTooLarge
            } else {
                error == TolliverError::IOError(not_connected_error())
            }),
    {
        let message = match body_to_tolliver_message(proto_id, bytes) {
            Ok(message) => message,
            Err(error) => {
                return Err(error);
            },
        };
        match self.state() {
            ConnectionState::Ready => Ok(message),
            _ => Err(TolliverError::IOError(not_connected())),
        }
    }

    /// Takes the outbox's answer to storing `message_bytes` for `peer`: with
    /// an id, the record is pending; with a failure, nothing has changed.
    fn queue_saved(&mut self, saved: Result<i32, TolliverError>, peer: String, message_bytes: Vec<
        u8,
    >) -> (result: Result<(), TolliverError>)
        requires
            old(self)@.state is Ready,
        ensures
            saved matches Ok(id) ==> result is Ok && final(self)@ == old(self)@.queued(
                UnsentMessageView { id: id as int, peer: peer@, message_bytes: message_bytes@ },
            ),
            saved matches Err(error) ==> result == Err::<(), TolliverError>(error) && final(self)@
                == old(self)@,
    {
        match saved {
            Ok(id) => {
                let message = UnsentMessage { id, peer, message_bytes };
                self.draining = false;
                self.pending.push(message);
                assert(self.pending.deep_view() =~= old(self).pending.deep_view().push(message@));
                Ok(())
            },
            Err(error) => Err(error),
        }
    }

    /// Begins a durable send: encodes one frame and stores it in the outbox
    /// for the peer at the other end of the stream, whose address the caller
    /// has asked the stream for and hands over as `peer`, or else the reason
    /// why the stream would not tell. The record is then pending, behind
    /// those that already were: `next_unsent` gives it to the caller for
    /// writing, and `complete_send` settles it.
    ///
    /// Fails with `BodyTooLarge` where the body is longer than 65535 bytes,
    /// else with `IOError` unless the connection is ready and the peer's
    /// address is known; in these cases the outbox is not touched. Fails with
    /// `SqliteError` where the outbox cannot store the frame. A failure
    /// leaves the connection as it was.
    pub fn send_bytes(
        &mut self,
        peer: Result<String, std::io::Error>,
        proto_id: u64,
        bytes: Vec<u8>,
    ) -> (result: Result<(), TolliverError>)
        ensures
            result matches Ok(()) ==> {
                &&& old(self)@.state is Ready
                &&& bytes@.len() <= MAX_BODY_LENGTH
                &&& peer is Ok
                &&& final(self)@.pending.len() == old(self)@.pending.len() + 1
                &&& final(self)@ == old(self)@.queued(final(self)@.pending.last())
                &&& final(self)@.pending.last().peer == peer->Ok_0@
                &&& final(self)@.pending.last().message_bytes == frame_bytes(proto_id, bytes@)
            },
            result matches Err(error) ==> {
                &&& final(self)@ == old(self)@
                &&& if bytes@.len() > MAX_BODY_LENGTH {
                    error is BodyTooLarge
                } else if !(old(self)@.state is Ready) {
                    error == TolliverError::IOError(not_connected_error())
                } else if peer is Err {
                    error == TolliverError::IOError(peer->Err_0)
                } else {
                    error is SqliteError
                }
            },
    {
        let message_bytes = match body_to_tolliver_message(proto_id, bytes) {
            Ok(message_bytes) => message_bytes,
            Err(error) => {
                return Err(error);
            },
        };
        match self.state() {
            ConnectionState::Ready => {},
            _ => {
                return Err(TolliverError::IOError(not_connected()));
            },
        }
        let peer = match peer {
            Ok(peer) => peer,
            Err(cause) => {
                return Err(TolliverError::IOError(cause));
            },
        };
        let saved = self.outbox.save_to_disk(peer.clone(), &message_bytes);
        self.queue_saved(saved, peer, message_bytes)
    }

    /// Takes the outbox's answer to deleting the first pending record, whose
    /// frame is on the wire.
    fn settle(&mut self, deleted: Result<(), TolliverError>) -> (result: Result<
        SendStatus,
        TolliverError,
    >)
        requires
            !(old(self)@.state is Closed),
            old(self)@.pending.len() > 0,
        ensures
            final(self)@ == old(self)@.settled(deleted),
            result == send_result(old(self)@.state, deleted),
    {
        let ghost before = self@;
        let draining = self.draining;
        let message = self.pending.remove(0);
        assert(self.pending.deep_view() =~= before.pending.drop_first());
        self.written = Ghost(before.written.push(message@.message_bytes));
        match deleted {
            Ok(()) => {
                self.deleted = Ghost(before.deleted.push(message@.id));
                if self.pending.len() == 0 {
                    self.draining = false;
                }
                Ok(SendStatus::Completed)
            },
            Err(error) => {
                if draining {
                    self.closed = true;
                    self.pending.clear();
                    Err(error)
                } else {
                    Ok(SendStatus::Orphaned(error))
                }
            },
        }
    }

    /// Takes the outcome of writing the frame of the first pending record to
    /// the stream, and settles the record.
    ///
    /// Where the frame was written, the record is deleted from the outbox,
    /// and with the last record that draining found, the connection is
    /// ready. Where the record cannot be deleted, draining fails with the
    /// outbox's error and the connection is given up; a send, whose message
    /// the peer has, ends as `Orphaned`.
    ///
    /// Where the frame was not written, the stream's error comes back as
    /// `IOError` and the record stays in the outbox. Draining then fails and
    /// the connection is given up; after a send the connection goes on and
    /// does not try the record again.
    ///
    /// On a closed connection, and where no record is pending, nothing
    /// changes and the call fails.
    pub fn complete_send(&mut self, written: Result<(), std::io::Error>) -> (result: Result<
        SendStatus,
        TolliverError,
    >)
        ensures
            written matches Err(cause) ==> result == Err::<SendStatus, TolliverError>(
                TolliverError::IOError(cause),
            ),
            old(self)@.state is Closed && written is Ok ==> result == Err::<
                SendStatus,
                TolliverError,
            >(TolliverError::IOError(not_connected_error())),
            old(self)@.pending.len() == 0 ==> result is Err && final(self)@ == old(self)@,
            old(self)@.pending.len() == 0 && written is Ok && !(old(self)@.state is Closed) ==> (
            result matches Err(TolliverError::TolliverError(text)) && text@
                == nothing_pending_text()),
            old(self)@.pending.len() > 0 && written is Err ==> final(self)@ == (if old(
                self,
            )@.state is Draining {
                old(self)@.closed()
            } else {
                old(self)@.abandoned()
            }),
            old(self)@.pending.len() > 0 && written is Ok ==> match result {
                Ok(SendStatus::Completed) => final(self)@ == old(self)@.completed(),
                Ok(SendStatus::Orphaned(error)) => old(self)@.state is Ready && final(self)@ == old(
                    self,
                )@.orphaned() && final(self)@ == old(self)@.settled(
                    Err::<(), TolliverError>(error),
                ),
                Err(error) => old(self)@.state is Draining && (error is SqliteError
                    || error is TolliverError) && final(self)@ == old(self)@.settled(
                    Err::<(), TolliverError>(error),
                ),
            },
    {
        if self.closed {
            return match written {
                Ok(()) => Err(TolliverError::IOError(not_connected())),
                Err(cause) => Err(TolliverError::IOError(cause)),
            };
        }
        if self.pending.len() == 0 {
            return match written {
                Ok(()) => Err(
                    TolliverError::TolliverError(String::from_str("No message awaits completion")),
                ),
                Err(cause) => Err(TolliverError::IOError(cause)),
            };
        }
        match written {
            Ok(()) => {
                let id = self.pending[0].id;
                let deleted = self.outbox.delete_from_disk(id);
                self.settle(deleted)
            },
            Err(cause) => {
                if self.draining {
                    self.closed = true;
                    self.pending.clear();
                } else {
                    let _ = self.pending.remove(0);
                    assert(self.pending.deep_view() =~= old(self).pending.deep_view().drop_first());
                }
                Err(TolliverError::IOError(cause))
            },
        }
    }

    /// Says what reading has to do next, given the bytes read so far since
    /// the last message: how many more bytes to read, or the message. Fails
    /// with `IOError` unless the connection is ready.
    pub fn read(&self, received: &[u8]) -> (result: Result<ReadProgress, TolliverError>)
        ensures
            result is Ok <==> self@.state is Ready,
            result matches Err(error) ==> error == TolliverError::IOError(not_connected_error()),
            result matches Ok(ReadProgress::Incomplete(missing)) ==> missing > 0 && missing
                == frame_missing(received@),
            result matches Ok(ReadProgress::Complete(message)) ==> {
                &&& frame_missing(received@) == 0
                &&& message.proto_id == frame_proto_id(received@)
                &&& message.body@ == frame_body(received@)
            },
    {
        match self.state() {
            ConnectionState::Ready => {},
            _ => {
                return Err(TolliverError::IOError(not_connected()));
            },
        }
        match decode_frame(received) {
            Some(message) => Ok(ReadProgress::Complete(message)),
            None => Ok(ReadProgress::Incomplete(frame_bytes_missing(received))),
        }
    }
}

/// What `count` completions in a row do to a draining connection: they take
/// the first `count` pending records, in their order, and the connection is
/// ready exactly when none is left.
pub proof fn lemma_drained(connection: ConnectionView, count: nat)
    requires
        connection.state is Draining,
        count <= connection.pending.len(),
    ensures
        connection.drained(count).pending == connection.pending.skip(count as int),
        connection.drained(count).written == connection.written + frames_of(
            connection.pending.take(count as int),
        ),
        connection.drained(count).deleted == connection.deleted + ids_of(
            connection.pending.take(count as int),
        ),
        connection.drained(count).state == (if count < connection.pending.len() || count == 0 {
            ConnectionState::Draining
        } else {
            ConnectionState::Ready
        }),
    decreases count,
{
    if count > 0 && connection.completed().state is Draining {
        lemma_drained(connection.completed(), (count - 1) as nat);
    }
}

/// Draining. A connection that found `records` in the outbox, whatever peers
/// they were meant for, is ready after as many completions as there are
/// records and not before; each completion takes the record that comes
/// next. By then the frames of all the records have been written, each once
/// and in the order of the records, the records have been deleted in that
/// order, and none is pending. `new` gives the records in ascending order of
/// their ids, so that is the order of the frames on the wire.
///
/// A completion is what a call of `complete_send` that answers `Completed`
/// does to the connection.
pub proof fn lemma_drain_writes_all_in_order(records: Seq<UnsentMessageView>)
    ensures
        ConnectionView::initial(records).drained(records.len()).state is Ready,
        ConnectionView::initial(records).drained(records.len()).pending.len() == 0,
        ConnectionView::initial(records).drained(records.len()).written == frames_of(records),
        ConnectionView::initial(records).drained(records.len()).deleted == ids_of(records),
        forall|count: nat|
            count < records.len() ==> {
                &&& (#[trigger] ConnectionView::initial(records).drained(count)).state is Draining
                &&& ConnectionView::initial(records).drained(count).pending[0]
                    == records[count as int]
            },
        ascending_by_id(records) ==> forall|i: int, j: int|
            0 <= i < j < records.len() ==> ids_of(records)[i] <= ids_of(records)[j],
{
    let start = ConnectionView::initial(records);
    if records.len() > 0 {
        lemma_drained(start, records.len());
        assert forall|count: nat| count < records.len() implies {
            &&& (#[trigger] start.drained(count)).state is Draining
            &&& start.drained(count).pending[0] == records[count as int]
        } by {
            lemma_drained(start, count);
        }
    }
}

/// A durable send on a ready connection that owes nothing. Once the frame
/// of the body is stored, under whatever id and for whatever peer, which is
/// what a successful `send_bytes` does, and the frame is written and its
/// record deleted, which is what a `complete_send` that answers `Completed`
/// does, the connection is ready and owes nothing again; the frame has been
/// written exactly once, it is whole and carries the schema id and the body;
/// and the record that held it is deleted.
pub proof fn lemma_durable_send_delivers_once(
    connection: ConnectionView,
    id: int,
    peer: Seq<char>,
    proto_id: u64,
    body: Seq<u8>,
)
    requires
        connection.state is Ready,
        connection.pending.len() == 0,
        body.len() <= MAX_BODY_LENGTH,
    ensures
        ({
            let frame = frame_bytes(proto_id, body);
            let record = UnsentMessageView { id, peer, message_bytes: frame };
            let end = connection.queued(record).completed();
            &&& end.state is Ready
            &&& end.pending.len() == 0
            &&& end.written == connection.written.push(frame)
            &&& end.deleted == connection.deleted.push(id)
            &&& frame_missing(frame) == 0
            &&& frame_proto_id(frame) == proto_id
            &&& frame_body(frame) == body
        }),
{
    lemma_frame_round_trip(proto_id, body);
}

/// Whether a record has another id than `id`.
pub open spec fn other_than(id: int) -> spec_fn(UnsentMessageView) -> bool {
    |record: UnsentMessageView| record.id != id
}

/// What is left of `log` when the records with the id `id` are gone.
pub open spec fn log_without(log: Seq<UnsentMessageView>, id: int) -> Seq<UnsentMessageView> {
    log.filter(other_than(id))
}

/// What is left of `log` when the records with the ids `ids` are gone, one
/// id after the other.
pub open spec fn log_without_all(log: Seq<UnsentMessageView>, ids: Seq<int>) -> Seq<
    UnsentMessageView,
>
    decreases ids.len(),
{
    if ids.len() == 0 {
        log
    } else {
        log_without_all(log_without(log, ids[0]), ids.drop_first())
    }
}

/// Deleting every id that occurs in a log leaves nothing of the log.
proof fn lemma_log_without_all(log: Seq<UnsentMessageView>, ids: Seq<int>)
    requires
        forall|i: int| 0 <= i < log.len() ==> ids.contains(#[trigger] log[i].id),
    ensures
        log_without_all(log, ids).len() == 0,
    decreases ids.len(),
{
    if ids.len() == 0 {
        if log.len() > 0 {
            assert(ids.contains(log[0].id));
        }
    } else {
        let rest = log_without(log, ids[0]);
        assert forall|i: int| 0 <= i < rest.len() implies ids.drop_first().contains(
            #[trigger] rest[i].id,
        ) by {
            let record = rest[i];
            log.lemma_filter_pred(other_than(ids[0]), i);
            log.lemma_filter_contains_rev(other_than(ids[0]), record);
            let at = choose|at: int| 0 <= at < log.len() && log[at] == record;
            let found = choose|found: int| 0 <= found < ids.len() && ids[found] == record.id;
            assert(ids.drop_first()[found - 1] == record.id);
        }
        lemma_log_without_all(rest, ids.drop_first());
    }
}

/// Draining empties the outbox: an outbox that holds `records` and loses
/// what the connection deletes while it drains holds nothing in the end.
pub proof fn lemma_drain_empties_outbox(records: Seq<UnsentMessageView>)
    ensures
        log_without_all(
            records,
            ConnectionView::initial(records).drained(records.len()).deleted,
        ).len() == 0,
{
    lemma_drain_writes_all_in_order(records);
    assert forall|i: int| 0 <= i < records.len() implies ids_of(records).contains(
        #[trigger] records[i].id,
    ) by {
        assert(ids_of(records)[i] == records[i].id);
    }
    lemma_log_without_all(records, ids_of(records));
}

/// A log in which no record has the id `id` is left whole when that id goes.
proof fn lemma_keeps_all(log: Seq<UnsentMessageView>, id: int)
    requires
        forall|i: int| 0 <= i < log.len() ==> (#[trigger] log[i]).id != id,
    ensures
        log_without(log, id) == log,
    decreases log.len(),
{
    if log.len() > 0 {
        lemma_keeps_all(log.drop_last(), id);
        log.drop_last().lemma_filter_push(log.last(), other_than(id));
        assert(log.drop_last().push(log.last()) =~= log);
    } else {
        log.lemma_filter_len(other_than(id));
    }
}

/// A durable send leaves the outbox as it found it: an outbox that holds
/// `log`, takes the record of the send under an id that no other record has,
/// and loses it again when the send is complete, holds `log` and no record
/// with that id. If no other record held the frame of the send, no record
/// holds it afterwards.
pub proof fn lemma_durable_send_leaves_no_record(
    log: Seq<UnsentMessageView>,
    record: UnsentMessageView,
)
    requires
        forall|i: int| 0 <= i < log.len() ==> (#[trigger] log[i]).id != record.id,
    ensures
        log_without(log.push(record), record.id) == log,
        forall|i: int|
            0 <= i < log_without(log.push(record), record.id).len() ==> (#[trigger] log_without(
                log.push(record),
                record.id,
            )[i]).id != record.id,
        (forall|i: int| 0 <= i < log.len() ==> (#[trigger] log[i]).message_bytes
            != record.message_bytes) ==> forall|i: int|
            0 <= i < log_without(log.push(record), record.id).len() ==> (#[trigger] log_without(
                log.push(record),
                record.id,
            )[i]).message_bytes != record.message_bytes,
{
    lemma_keeps_all(log, record.id);
    log.lemma_filter_push(record, other_than(record.id));
}

} // verus!
