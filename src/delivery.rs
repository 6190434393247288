use vstd::prelude::*;
use vstd::string::*;
use crate::codec::{ack_line, ack_text};

verus! {

/// A stored SMS: the row that the store keeps for one message id.
#[derive(Clone, Debug, PartialEq, Eq)]
pub struct SmsMessage {
    pub id: String,
    pub sender: String,
    pub content: String,
    pub received_at: i64,
    /// The JSON text of the message's metadata (`null` when there is none).
    pub metas: String,
}

/// The payload of an `SMS_RECEIVED` frame.
#[derive(Clone, Debug, PartialEq, Eq)]
pub struct SmsPayload {
    /// The id inside the payload; the frame's own id takes precedence.
    pub id: String,
    pub sender: String,
    pub content: String,
    pub received_at: i64,
    /// The JSON text of the optional metadata.
    pub metas: String,
}

/// How an outside step ended.
#[derive(Clone, Copy, Debug, PartialEq, Eq, Structural)]
pub enum Outcome {
    Succeeded,
    /// The store already held a row with this id.
    Duplicate,
    Failed,
}

/// Where the delivery of one SMS stands.
#[derive(Clone, Copy, Debug, PartialEq, Eq, Structural)]
pub enum Phase {
    /// The row is to be inserted.
    Storing,
    /// The notification is to be sent.
    Notifying,
    /// The acknowledgement is to be written to the device.
    Acknowledging,
    /// The row is to be marked as acknowledged.
    Marking,
    /// All steps ran.
    Finished,
    /// The insert failed: nothing is acknowledged, the device sends again.
    Dropped,
    /// The acknowledgement could not be written: the link is suspect.
    Broken,
}

/// The next step of a delivery.
#[derive(Clone, Debug, PartialEq, Eq)]
pub enum DeliveryAction {
    /// Insert this row and commit it.
    Store(SmsMessage),
    /// Send a push notification; its failure is only logged.
    Notify { title: String, body: String },
    /// Write this line to the device and flush it.
    SendAck(String),
    /// Mark the row with this id as acknowledged.
    MarkAck(String),
    /// Nothing is left to do for this message.
    Done,
    /// Tear the link down and reconnect.
    Reconnect,
}

/// The delivery of one received SMS: store, notify, acknowledge, mark.
#[derive(Clone, Debug)]
pub struct SmsDelivery {
    pub record: SmsMessage,
    pub phase: Phase,
}

/// `SMS from ` followed by the sender.
pub open spec fn title_text(sender: Seq<char>) -> Seq<char> {
    "SMS from "@ + sender
}

/// The phase after a step of `p` ended with `o`.
pub open spec fn phase_after(p: Phase, o: Outcome) -> Phase {
    match p {
        Phase::Storing => if o is Failed {
            Phase::Dropped
        } else {
            Phase::Notifying
        },
        Phase::Notifying => Phase::Acknowledging,
        Phase::Acknowledging => if o is Failed {
            Phase::Broken
        } else {
            Phase::Marking
        },
        Phase::Marking => Phase::Finished,
        _ => p,
    }
}

/// `a` is the step that phase `p` asks for, on row `m`.
pub open spec fn action_for(p: Phase, m: SmsMessage, a: DeliveryAction) -> bool {
    match p {
        Phase::Storing => a matches DeliveryAction::Store(r) && r.id@ == m.id@ && r.sender@
            == m.sender@ && r.content@ == m.content@ && r.received_at == m.received_at
            && r.metas@ == m.metas@,
        Phase::Notifying => a matches DeliveryAction::Notify { title, body } && title@
            == title_text(m.sender@) && body@ == m.content@,
        Phase::Acknowledging => a matches DeliveryAction::SendAck(l) && l@ == ack_text(m.id@),
        Phase::Marking => a matches DeliveryAction::MarkAck(i) && i@ == m.id@,
        Phase::Finished | Phase::Dropped => a is Done,
        Phase::Broken => a is Reconnect,
    }
}

fn copy_text(s: &String) -> (r: String)
    ensures
        r@ == s@,
{
    s.clone()
}

impl SmsDelivery {
    /// Starts the delivery of a decoded SMS frame. The row takes the frame's
    /// id, whatever id the payload carries.
    pub fn new(frame_id: &str, payload: SmsPayload) -> (r: SmsDelivery)
        ensures
            r.phase == Phase::Storing,
            r.record.id@ == frame_id@,
            r.record.sender@ == payload.sender@,
            r.record.content@ == payload.content@,
            r.record.received_at == payload.received_at,
            r.record.metas@ == payload.metas@,
    {
        SmsDelivery {
            record: SmsMessage {
                id: frame_id.to_owned(),
                sender: payload.sender,
                content: payload.content,
                received_at: payload.received_at,
                metas: payload.metas,
            },
            phase: Phase::Storing,
        }
    }

    /// The step that the current phase asks for.
    pub fn next_action(&self) -> (r: DeliveryAction)
        ensures
            action_for(self.phase, self.record, r),
    {
        match self.phase {
            Phase::Storing => DeliveryAction::Store(
                SmsMessage {
                    id: copy_text(&self.record.id),
                    sender: copy_text(&self.record.sender),
                    content: copy_text(&self.record.content),
                    received_at: self.record.received_at,
                    metas: copy_text(&self.record.metas),
                },
            ),
            Phase::Notifying => {
                let mut title = "SMS from ".to_owned();
                title.append(self.record.sender.as_str());
                DeliveryAction::Notify { title, body: copy_text(&self.record.content) }
            },
            Phase::Acknowledging => DeliveryAction::SendAck(ack_line(self.record.id.as_str())),
            Phase::Marking => DeliveryAction::MarkAck(copy_text(&self.record.id)),
            Phase::Finished | Phase::Dropped => DeliveryAction::Done,
            Phase::Broken => DeliveryAction::Reconnect,
        }
    }

    /// Records how the step of the current phase ended.
    pub fn report(&mut self, outcome: Outcome)
        ensures
            final(self).record == old(self).record,
            final(self).phase == phase_after(old(self).phase, outcome),
    {
        self.phase = match self.phase {
            Phase::Storing => match outcome {
                Outcome::Failed => Phase::Dropped,
                _ => Phase::Notifying,
            },
            Phase::Notifying => Phase::Acknowledging,
            Phase::Acknowledging => match outcome {
                Outcome::Failed => Phase::Broken,
                _ => Phase::Marking,
            },
            Phase::Marking => Phase::Finished,
            p => p,
        };
    }

    /// Whether the delivery has nothing left to do.
    pub fn is_finished(&self) -> (r: bool)
        ensures
            r == (self.phase is Finished || self.phase is Dropped || self.phase is Broken),
    {
        match self.phase {
            Phase::Finished | Phase::Dropped | Phase::Broken => true,
            _ => false,
        }
    }
}

/// The stored ids, each with whether it is acknowledged.
pub type Rows = Map<Seq<char>, bool>;

/// The lines written to the device, in order.
pub type Wire = Seq<Seq<char>>;

/// What the step of phase `p` for message `id`, ended with `o`, leaves in
/// the store and on the wire. An insert keeps an existing row (re-insertion
/// is a no-op) and adds a new one unacknowledged; a written acknowledgement
/// appends its line; a successful mark sets the row's flag.
pub open spec fn world_after(p: Phase, id: Seq<char>, o: Outcome, rows: Rows, wire: Wire) -> (Rows, Wire) {
    match p {
        Phase::Storing => if o is Failed || rows.contains_key(id) {
            (rows, wire)
        } else {
            (rows.insert(id, false), wire)
        },
        Phase::Acknowledging => if o is Failed {
            (rows, wire)
        } else {
            (rows, wire.push(ack_text(id)))
        },
        Phase::Marking => if o is Succeeded && rows.contains_key(id) {
            (rows.insert(id, true), wire)
        } else {
            (rows, wire)
        },
        _ => (rows, wire),
    }
}

/// Runs a delivery of `id` from phase `p` through the outcomes `outs`.
pub open spec fn run(p: Phase, id: Seq<char>, outs: Seq<Outcome>, rows: Rows, wire: Wire) -> (Phase, Rows, Wire)
    decreases outs.len(),
{
    if outs.len() == 0 {
        (p, rows, wire)
    } else {
        let (r, w) = world_after(p, id, outs[0], rows, wire);
        run(phase_after(p, outs[0]), id, outs.drop_first(), r, w)
    }
}

/// A delivery in which every step succeeds.
pub open spec fn clean_run() -> Seq<Outcome> {
    seq![Outcome::Succeeded, Outcome::Succeeded, Outcome::Succeeded, Outcome::Succeeded]
}

/// The store and wire after the same frame was delivered `n` times.
pub open spec fn replay(n: nat, id: Seq<char>, rows: Rows, wire: Wire) -> (Rows, Wire)
    decreases n,
{
    if n == 0 {
        (rows, wire)
    } else {
        let (r, w) = replay((n - 1) as nat, id, rows, wire);
        let (_, r2, w2) = run(Phase::Storing, id, clean_run(), r, w);
        (r2, w2)
    }
}

/// The ids whose rows are not acknowledged.
pub open spec fn unacknowledged(rows: Rows) -> Set<Seq<char>> {
    Set::new(|k: Seq<char>| rows.contains_key(k) && !rows[k])
}

/// A delivery whose insert, write and mark succeed ends with the row stored
/// and acknowledged and exactly one acknowledgement line written, whatever
/// the notification did; no other row changes.
pub proof fn lemma_delivery_acknowledges(
    id: Seq<char>,
    stored: Outcome,
    notified: Outcome,
    rows: Rows,
    wire: Wire,
)
    requires
        !(stored is Failed),
    ensures
        ({
            let (p, r, w) = run(
                Phase::Storing,
                id,
                seq![stored, notified, Outcome::Succeeded, Outcome::Succeeded],
                rows,
                wire,
            );
            &&& p == Phase::Finished
            &&& r.contains_key(id) && r[id]
            &&& r.dom() == rows.dom().insert(id)
            &&& forall|k: Seq<char>| k != id && rows.contains_key(k) ==> r[k] == rows[k]
            &&& w == wire.push(ack_text(id))
        }),
{
    let outs = seq![stored, notified, Outcome::Succeeded, Outcome::Succeeded];
    reveal_with_fuel(run, 5);
    let (r1, w1) = world_after(Phase::Storing, id, stored, rows, wire);
    assert(r1.contains_key(id));
    assert(outs.drop_first().drop_first().drop_first().drop_first() =~= Seq::<Outcome>::empty());
    let (p, r, w) = run(Phase::Storing, id, outs, rows, wire);
    assert(r.dom() =~= rows.dom().insert(id));
}

/// Delivering the same frame again and again leaves one acknowledged row
/// for its id, one acknowledgement line per delivery, and the earlier lines
/// untouched.
pub proof fn lemma_replay_is_idempotent(n: nat, id: Seq<char>, rows: Rows, wire: Wire)
    requires
        n >= 1,
    ensures
        ({
            let (r, w) = replay(n, id, rows, wire);
            &&& r.contains_key(id) && r[id]
            &&& r.dom() == rows.dom().insert(id)
            &&& forall|k: Seq<char>| k != id && rows.contains_key(k) ==> r[k] == rows[k]
            &&& w.len() == wire.len() + n
            &&& w.take(wire.len() as int) == wire
            &&& forall|i: int| wire.len() <= i < w.len() ==> w[i] == ack_text(id)
        }),
    decreases n,
{
    let (r0, w0) = replay((n - 1) as nat, id, rows, wire);
    lemma_delivery_acknowledges(id, Outcome::Succeeded, Outcome::Succeeded, r0, w0);
    assert(clean_run() =~= seq![
        Outcome::Succeeded,
        Outcome::Succeeded,
        Outcome::Succeeded,
        Outcome::Succeeded,
    ]);
    let (r, w) = replay(n, id, rows, wire);
    if n > 1 {
        lemma_replay_is_idempotent((n - 1) as nat, id, rows, wire);
        assert(r.dom() =~= rows.dom().insert(id));
        assert(w.take(wire.len() as int) =~= w0.take(wire.len() as int));
    } else {
        assert(w0 == wire);
        assert(r.dom() =~= rows.dom().insert(id));
        assert(w.take(wire.len() as int) =~= wire);
    }
}

/// Once a delivery stops, nothing it is told changes the store or the wire.
proof fn lemma_stopped_is_inert(p: Phase, id: Seq<char>, outs: Seq<Outcome>, rows: Rows, wire: Wire)
    requires
        p is Finished || p is Dropped || p is Broken,
    ensures
        run(p, id, outs, rows, wire) == (p, rows, wire),
    decreases outs.len(),
{
    if outs.len() > 0 {
        lemma_stopped_is_inert(p, id, outs.drop_first(), rows, wire);
    }
}

/// A failed insert is never acknowledged: whatever follows, the wire and the
/// store stay as they were and the delivery is dropped.
pub proof fn lemma_failed_store_sends_no_ack(id: Seq<char>, outs: Seq<Outcome>, rows: Rows, wire: Wire)
    requires
        outs.len() > 0,
        outs[0] is Failed,
    ensures
        run(Phase::Storing, id, outs, rows, wire) == (Phase::Dropped, rows, wire),
{
    lemma_stopped_is_inert(Phase::Dropped, id, outs.drop_first(), rows, wire);
}

/// When the link closes after the acknowledgement was written but before
/// the mark, the row of a message that was not yet acknowledged stays
/// unacknowledged, and so is listed among the unacknowledged rows.
pub proof fn lemma_unmarked_row_stays_pending(
    id: Seq<char>,
    stored: Outcome,
    notified: Outcome,
    rows: Rows,
    wire: Wire,
)
    requires
        !(stored is Failed),
        !(rows.contains_key(id) && rows[id]),
    ensures
        ({
            let (p, r, w) = run(
                Phase::Storing,
                id,
                seq![stored, notified, Outcome::Succeeded],
                rows,
                wire,
            );
            &&& p == Phase::Marking
            &&& r.contains_key(id) && !r[id]
            &&& unacknowledged(r).contains(id)
            &&& w == wire.push(ack_text(id))
        }),
{
    reveal_with_fuel(run, 4);
    let outs = seq![stored, notified, Outcome::Succeeded];
    assert(outs.drop_first().drop_first().drop_first() =~= Seq::<Outcome>::empty());
}

proof fn lemma_store_precedes_ack(p: Phase, id: Seq<char>, outs: Seq<Outcome>, rows: Rows, wire: Wire)
    requires
        p is Storing || p is Dropped || rows.contains_key(id),
    ensures
        ({
            let (q, r, w) = run(p, id, outs, rows, wire);
            &&& rows.contains_key(id) ==> r.contains_key(id)
            &&& r.contains_key(id) || w == wire
        }),
    decreases outs.len(),
{
    if outs.len() == 0 {
    } else if p is Dropped {
        lemma_stopped_is_inert(p, id, outs, rows, wire);
    } else {
        let (r1, w1) = world_after(p, id, outs[0], rows, wire);
        lemma_store_precedes_ack(phase_after(p, outs[0]), id, outs.drop_first(), r1, w1);
    }
}

/// An acknowledgement is written only for a message whose row was stored:
/// whatever the outcomes, either the row is in the store afterwards or the
/// wire is untouched.
pub proof fn lemma_ack_only_after_store(id: Seq<char>, outs: Seq<Outcome>, rows: Rows, wire: Wire)
    ensures
        ({
            let (p, r, w) = run(Phase::Storing, id, outs, rows, wire);
            r.contains_key(id) || w == wire
        }),
{
    lemma_store_precedes_ack(Phase::Storing, id, outs, rows, wire);
}

proof fn lemma_ack_precedes_mark(
    p: Phase,
    id: Seq<char>,
    outs: Seq<Outcome>,
    rows: Rows,
    wire0: Wire,
    wire: Wire,
)
    requires
        p is Marking || p is Finished ==> wire.len() > wire0.len(),
        !(p is Marking || p is Finished) ==> !(rows.contains_key(id) && rows[id]),
        wire.len() >= wire0.len(),
    ensures
        ({
            let (q, r, w) = run(p, id, outs, rows, wire);
            r.contains_key(id) && r[id] ==> w.len() > wire0.len()
        }),
    decreases outs.len(),
{
    if outs.len() > 0 {
        let (r1, w1) = world_after(p, id, outs[0], rows, wire);
        lemma_ack_precedes_mark(phase_after(p, outs[0]), id, outs.drop_first(), r1, wire0, w1);
    }
}

/// A row is marked acknowledged only after its acknowledgement line was
/// written: starting from a row that is not acknowledged, if the delivery
/// leaves it acknowledged then the wire has grown.
pub proof fn lemma_mark_only_after_ack(id: Seq<char>, outs: Seq<Outcome>, rows: Rows, wire: Wire)
    requires
        !(rows.contains_key(id) && rows[id]),
    ensures
        ({
            let (p, r, w) = run(Phase::Storing, id, outs, rows, wire);
            r.contains_key(id) && r[id] ==> w.len() > wire.len()
        }),
{
    lemma_ack_precedes_mark(Phase::Storing, id, outs, rows, wire, wire);
}

} // verus!
