//! Reading a response body chunk by chunk.

use vstd::prelude::*;
use vstd::string::*;
use crate::address::WebUrl;
use crate::body::BodyPlan;
use crate::error::{check_model, ErrorModel, ObscuraNetError};

verus! {

/// What is due to the byte counter, where one is installed.
#[derive(Clone, Copy, Debug, PartialEq, Eq, Structural)]
pub enum Charge {
    /// Nothing.
    Nothing,
    /// Bytes that were measured on the wire.
    Bytes(u64),
    /// An estimate of the transfer starts.
    EstimateStart,
    /// A decoded chunk of this length goes into the estimate.
    EstimateChunk(usize),
    /// The estimate is complete.
    EstimateComplete,
}

/// The measured bytes of a charge.
pub open spec fn charged_bytes(charge: Charge) -> nat {
    match charge {
        Charge::Bytes(n) => n as nat,
        _ => 0,
    }
}

/// A body that is being read.
pub struct BodyReader {
    url: String,
    limit: usize,
    header_bytes: u64,
    content_length: Option<u64>,
    measured: bool,
    charged: u64,
    body: Vec<u8>,
}

/// A body that is being read, by its texts and bytes.
pub struct ReaderModel {
    pub url: Seq<char>,
    /// The longest body that is accepted.
    pub limit: nat,
    /// What the header fields took on the wire.
    pub header_bytes: nat,
    /// The length of the body on the wire, if it is known.
    pub content_length: Option<u64>,
    /// The transport counts the bytes of the body below its decoder.
    pub measured: bool,
    /// The bytes of the body that were charged.
    pub charged: nat,
    /// What was read, decoded.
    pub body: Seq<u8>,
}

impl View for BodyReader {
    type V = ReaderModel;

    closed spec fn view(&self) -> ReaderModel {
        ReaderModel {
            url: self.url@,
            limit: self.limit as nat,
            header_bytes: self.header_bytes as nat,
            content_length: self.content_length,
            measured: self.measured,
            charged: self.charged as nat,
            body: self.body@,
        }
    }
}

/// A body that was read.
pub struct ReadBody {
    body: Vec<u8>,
    wire: u64,
    limit: usize,
}

/// A body that was read, by its bytes and numbers.
pub struct BodyModel {
    pub body: Seq<u8>,
    /// What the whole response took on the wire.
    pub wire: nat,
    /// The longest body that was accepted.
    pub limit: nat,
}

impl View for ReadBody {
    type V = BodyModel;

    closed spec fn view(&self) -> BodyModel {
        BodyModel { body: self.body@, wire: self.wire as nat, limit: self.limit as nat }
    }
}

impl ReadBody {
    #[verifier::type_invariant]
    spec fn within_limit(self) -> bool {
        self.body@.len() <= self.limit
    }

    /// What the whole response took on the wire.
    pub fn wire(&self) -> (wire: u64)
        ensures
            wire == self@.wire,
    {
        self.wire
    }

    /// The bytes of the body, and what the whole response took on the wire.
    pub fn into_parts(self) -> (parts: (Vec<u8>, u64))
        ensures
            parts.0@ == self@.body,
            parts.1 == self@.wire,
            parts.0@.len() <= self@.limit,
    {
        proof {
            use_type_invariant(&self);
        }
        (self.body, self.wire)
    }
}

/// What the transport hands over next: decoded bytes, or the text of an error.
pub open spec fn chunk_model(chunk: Result<&[u8], &str>) -> Result<Seq<u8>, Seq<char>> {
    match chunk {
        Ok(bytes) => Ok(bytes@),
        Err(e) => Err(e@),
    }
}

/// What is due when the reading starts: the header fields, or the start of an
/// estimate.
pub open spec fn opening_charge(reader: ReaderModel) -> Charge {
    if reader.measured {
        Charge::Bytes(reader.header_bytes as u64)
    } else {
        Charge::EstimateStart
    }
}

/// Whether a chunk is taken: the transport's error and a body beyond the limit
/// end the reading.
pub open spec fn chunk_verdict(reader: ReaderModel, chunk: Result<Seq<u8>, Seq<char>>) -> Result<
    (),
    ErrorModel,
> {
    match chunk {
        Err(e) => Err(ErrorModel::Network("Failed to read body: "@ + e)),
        Ok(bytes) => if reader.body.len() + bytes.len() > reader.limit {
            Err(ErrorModel::ResponseTooLarge { url: reader.url, limit: reader.limit })
        } else {
            Ok(())
        },
    }
}

/// What is due for a chunk. Measured bytes are due even where the chunk ends
/// the reading, since they crossed the wire; an estimate counts only chunks
/// that are taken.
pub open spec fn chunk_charge(
    reader: ReaderModel,
    received: u64,
    chunk: Result<Seq<u8>, Seq<char>>,
) -> Charge {
    if reader.measured {
        Charge::Bytes((received - reader.charged) as u64)
    } else if chunk_verdict(reader, chunk) is Ok {
        Charge::EstimateChunk(chunk->Ok_0.len() as usize)
    } else {
        Charge::Nothing
    }
}

/// The reader behind a chunk.
pub open spec fn after_chunk(
    reader: ReaderModel,
    received: u64,
    chunk: Result<Seq<u8>, Seq<char>>,
) -> ReaderModel {
    ReaderModel {
        charged: if reader.measured {
            received as nat
        } else {
            reader.charged
        },
        body: if chunk_verdict(reader, chunk) is Ok {
            reader.body + chunk->Ok_0
        } else {
            reader.body
        },
        ..reader
    }
}

/// What is due when the body has ended.
pub open spec fn closing_charge(reader: ReaderModel, received: u64) -> Charge {
    if reader.measured {
        Charge::Bytes((received - reader.charged) as u64)
    } else {
        Charge::EstimateComplete
    }
}

/// What the whole response took on the wire: the header fields, and the bytes
/// that were measured, else the declared length, else the length of the body.
pub open spec fn wire_total(reader: ReaderModel, received: u64) -> nat {
    reader.header_bytes + (if reader.measured {
        received as nat
    } else if reader.content_length is Some {
        reader.content_length->0 as nat
    } else {
        reader.body.len()
    })
}

/// What the transport's counter may say next: it never runs backwards.
pub open spec fn counts_on(reader: ReaderModel, received: u64) -> bool {
    reader.measured ==> reader.charged <= received
}

impl BodyReader {
    #[verifier::type_invariant]
    spec fn within_limit(self) -> bool {
        self.body@.len() <= self.limit
    }

    /// Starts to read a planned body.
    pub fn start(plan: &BodyPlan, limit: usize, url: &WebUrl, measured: bool) -> (reader: BodyReader)
        ensures
            reader@ == (ReaderModel {
                url: url@.href,
                limit: limit as nat,
                header_bytes: plan@.header_bytes,
                content_length: plan@.content_length,
                measured,
                charged: 0,
                body: Seq::empty(),
            }),
    {
        BodyReader {
            url: url.href.clone(),
            limit,
            header_bytes: plan.header_bytes,
            content_length: plan.content_length,
            measured,
            charged: 0,
            body: Vec::with_capacity(plan.capacity),
        }
    }

    /// What is due when the reading starts.
    pub fn opening(&self) -> (charge: Charge)
        ensures
            charge == opening_charge(self@),
    {
        if self.measured {
            Charge::Bytes(self.header_bytes)
        } else {
            Charge::EstimateStart
        }
    }

    /// How much of the body was read.
    pub fn len(&self) -> (n: usize)
        ensures
            n == self@.body.len(),
            n <= self@.limit,
    {
        proof {
            use_type_invariant(self);
        }
        self.body.len()
    }

    /// Takes what the transport hands over. `received` is what the transport
    /// has counted below its decoder, where it does.
    pub fn chunk(&mut self, received: u64, chunk: Result<&[u8], &str>) -> (due: (
        Charge,
        Result<(), ObscuraNetError>,
    ))
        requires
            counts_on(old(self)@, received),
        ensures
            final(self)@ == after_chunk(old(self)@, received, chunk_model(chunk)),
            due.0 == chunk_charge(old(self)@, received, chunk_model(chunk)),
            check_model(due.1) == chunk_verdict(old(self)@, chunk_model(chunk)),
            final(self)@.body.len() <= final(self)@.limit,
    {
        proof {
            use_type_invariant(&*self);
        }
        let mut charge = Charge::Nothing;
        if self.measured {
            charge = Charge::Bytes(received - self.charged);
            self.charged = received;
        }
        match chunk {
            Err(e) => {
                let mut text = "Failed to read body: ".to_owned();
                text.append(e);
                (charge, Err(ObscuraNetError::Network(text)))
            },
            Ok(bytes) => {
                if bytes.len() > self.limit - self.body.len() {
                    return (
                        charge,
                        Err(
                            ObscuraNetError::ResponseTooLarge {
                                url: self.url.clone(),
                                limit: self.limit,
                            },
                        ),
                    );
                }
                if !self.measured {
                    charge = Charge::EstimateChunk(bytes.len());
                }
                let mut body: Vec<u8> = Vec::new();
                std::mem::swap(&mut body, &mut self.body);
                body.extend_from_slice(bytes);
                self.body = body;
                assert(self@.body =~= old(self)@.body + bytes@);
                (charge, Ok(()))
            },
        }
    }

    /// Ends the reading: what is still due, and what was read.
    pub fn finish(self, received: u64) -> (end: (Charge, ReadBody))
        requires
            counts_on(self@, received),
            wire_total(self@, received) <= u64::MAX,
        ensures
            end.0 == closing_charge(self@, received),
            end.1@ == (BodyModel {
                body: self@.body,
                wire: wire_total(self@, received),
                limit: self@.limit,
            }),
            end.1@.body.len() <= end.1@.limit,
    {
        proof {
            use_type_invariant(&self);
        }
        if self.measured {
            let charge = Charge::Bytes(received - self.charged);
            let wire: u64 = self.header_bytes + received;
            return (charge, ReadBody { body: self.body, wire, limit: self.limit });
        }
        let length: u64 = match self.content_length {
            Some(n) => n,
            None => self.body.len() as u64,
        };
        let wire: u64 = self.header_bytes + length;
        (Charge::EstimateComplete, ReadBody { body: self.body, wire, limit: self.limit })
    }
}

/// What the transport handed over, and what it had counted by then.
pub struct Arrival {
    pub received: u64,
    pub chunk: Result<Seq<u8>, Seq<char>>,
}

/// The reader behind a run of arrivals.
pub open spec fn after_all(reader: ReaderModel, run: Seq<Arrival>) -> ReaderModel
    decreases run.len(),
{
    if run.len() == 0 {
        reader
    } else {
        after_chunk(after_all(reader, run.drop_last()), run.last().received, run.last().chunk)
    }
}

/// The transport's counter never runs backwards in a run.
pub open spec fn counts_up(reader: ReaderModel, run: Seq<Arrival>) -> bool
    decreases run.len(),
{
    run.len() > 0 ==> counts_up(reader, run.drop_last()) && counts_on(
        after_all(reader, run.drop_last()),
        run.last().received,
    )
}

/// The measured bytes that are charged for a run, the opening included.
pub open spec fn charged_for(reader: ReaderModel, run: Seq<Arrival>) -> nat
    decreases run.len(),
{
    if run.len() == 0 {
        charged_bytes(opening_charge(reader))
    } else {
        charged_for(reader, run.drop_last()) + charged_bytes(
            chunk_charge(
                after_all(reader, run.drop_last()),
                run.last().received,
                run.last().chunk,
            ),
        )
    }
}

/// What is due for a run, in order, the opening first.
pub open spec fn charges_for(reader: ReaderModel, run: Seq<Arrival>) -> Seq<Charge>
    decreases run.len(),
{
    if run.len() == 0 {
        seq![opening_charge(reader)]
    } else {
        charges_for(reader, run.drop_last()).push(
            chunk_charge(
                after_all(reader, run.drop_last()),
                run.last().received,
                run.last().chunk,
            ),
        )
    }
}

/// What is due for a complete body, in order.
pub open spec fn body_charges(reader: ReaderModel, run: Seq<Arrival>, received: u64) -> Seq<Charge> {
    charges_for(reader, run).push(closing_charge(after_all(reader, run), received))
}

/// The chunks that a run hands over, one after the other.
pub open spec fn joined(run: Seq<Arrival>) -> Seq<u8>
    decreases run.len(),
{
    if run.len() == 0 {
        Seq::empty()
    } else {
        joined(run.drop_last()) + run.last().chunk->Ok_0
    }
}

/// A reader that has not read yet.
pub open spec fn fresh(reader: ReaderModel) -> bool {
    &&& reader.charged == 0
    &&& reader.body == Seq::<u8>::empty()
    &&& reader.header_bytes <= u64::MAX
}

/// Every chunk of a run is taken.
pub open spec fn all_taken(reader: ReaderModel, run: Seq<Arrival>) -> bool
    decreases run.len(),
{
    run.len() > 0 ==> all_taken(reader, run.drop_last()) && chunk_verdict(
        after_all(reader, run.drop_last()),
        run.last().chunk,
    ) is Ok
}

/// Where the transport counts, the charges of a body add up at every moment to
/// the header fields and what has crossed the wire: a transfer that is cut
/// short is charged exactly as far as it came.
pub proof fn law_partial_transfers_are_charged_exactly(reader: ReaderModel, run: Seq<Arrival>)
    requires
        fresh(reader),
        reader.measured,
        counts_up(reader, run),
    ensures
        run.len() == 0 ==> charged_for(reader, run) == reader.header_bytes,
        run.len() > 0 ==> charged_for(reader, run) == reader.header_bytes + run.last().received,
        charged_for(reader, run) == reader.header_bytes + after_all(reader, run).charged,
    decreases run.len(),
{
    lemma_run_keeps(reader, run);
    if run.len() > 0 {
        let front = run.drop_last();
        law_partial_transfers_are_charged_exactly(reader, front);
        lemma_run_keeps(reader, front);
    }
}

/// Where the transport counts, the charges of a complete body add up to what
/// the response reports to have taken on the wire.
pub proof fn law_complete_transfers_are_charged_once(
    reader: ReaderModel,
    run: Seq<Arrival>,
    received: u64,
)
    requires
        fresh(reader),
        reader.measured,
        counts_up(reader, run),
        counts_on(after_all(reader, run), received),
    ensures
        charged_for(reader, run) + charged_bytes(closing_charge(after_all(reader, run), received))
            == wire_total(after_all(reader, run), received),
        wire_total(after_all(reader, run), received) == reader.header_bytes + received,
{
    law_partial_transfers_are_charged_exactly(reader, run);
    lemma_run_keeps(reader, run);
}

/// Where the transport counts, nothing is estimated.
pub proof fn law_measured_transfers_are_not_estimated(
    reader: ReaderModel,
    run: Seq<Arrival>,
    received: u64,
)
    requires
        reader.measured,
    ensures
        opening_charge(reader) is Bytes,
        run.len() > 0 ==> chunk_charge(
            after_all(reader, run.drop_last()),
            run.last().received,
            run.last().chunk,
        ) is Bytes,
        closing_charge(after_all(reader, run), received) is Bytes,
{
    lemma_run_keeps(reader, run);
    if run.len() > 0 {
        lemma_run_keeps(reader, run.drop_last());
    }
}

/// Where the transport does not count, no measured bytes are charged.
pub proof fn law_estimates_charge_no_measured_bytes(reader: ReaderModel, run: Seq<Arrival>)
    requires
        !reader.measured,
    ensures
        charged_for(reader, run) == 0,
    decreases run.len(),
{
    if run.len() > 0 {
        law_estimates_charge_no_measured_bytes(reader, run.drop_last());
        lemma_run_keeps(reader, run.drop_last());
    }
}

/// A body is never longer than its limit, whatever arrives.
pub proof fn law_body_stays_within_limit(reader: ReaderModel, run: Seq<Arrival>)
    requires
        fresh(reader),
    ensures
        after_all(reader, run).body.len() <= reader.limit,
    decreases run.len(),
{
    lemma_run_keeps(reader, run);
    if run.len() > 0 {
        law_body_stays_within_limit(reader, run.drop_last());
        lemma_run_keeps(reader, run.drop_last());
    }
}

/// The chunks of a body are all taken if and only if the transport hands over
/// no error and the chunks together stay within the limit.
pub proof fn law_chunks_within_limit_are_taken(reader: ReaderModel, run: Seq<Arrival>)
    requires
        fresh(reader),
    ensures
        all_taken(reader, run) <==> (forall|i: int|
            0 <= i < run.len() ==> (#[trigger] run[i]).chunk is Ok) && joined(run).len()
            <= reader.limit,
    decreases run.len(),
{
    if run.len() > 0 {
        let front = run.drop_last();
        law_chunks_within_limit_are_taken(reader, front);
        lemma_run_keeps(reader, front);
        if all_taken(reader, front) {
            law_body_is_its_chunks(reader, front);
        }
        assert(forall|i: int| 0 <= i < front.len() ==> front[i] == run[i]);
        assert(run.last() == run[run.len() - 1]);
        if forall|i: int| 0 <= i < run.len() ==> (#[trigger] run[i]).chunk is Ok {
            assert(forall|i: int| 0 <= i < front.len() ==> (#[trigger] front[i]).chunk is Ok);
        }
        if all_taken(reader, run) {
            assert forall|i: int| 0 <= i < run.len() implies (#[trigger] run[i]).chunk is Ok by {
                if i < front.len() {
                    assert(front[i].chunk is Ok);
                }
            }
        }
    }
}

/// A body whose chunks were all taken is those chunks, one after the other.
pub proof fn law_body_is_its_chunks(reader: ReaderModel, run: Seq<Arrival>)
    requires
        fresh(reader),
        all_taken(reader, run),
    ensures
        after_all(reader, run).body == joined(run),
    decreases run.len(),
{
    if run.len() > 0 {
        law_body_is_its_chunks(reader, run.drop_last());
    }
}

proof fn lemma_run_keeps(reader: ReaderModel, run: Seq<Arrival>)
    ensures
        after_all(reader, run).measured == reader.measured,
        after_all(reader, run).limit == reader.limit,
        after_all(reader, run).header_bytes == reader.header_bytes,
        after_all(reader, run).content_length == reader.content_length,
    decreases run.len(),
{
    if run.len() > 0 {
        lemma_run_keeps(reader, run.drop_last());
    }
}

/// A chunk is taken if and only if the transport handed over bytes and they fit
/// in what is left of the limit; then the body grows by those bytes, and else it
/// stays as it is. An error of the transport is handed on with its text, and a
/// chunk that does not fit is refused with the address and the limit.
pub proof fn law_chunks_that_fit_are_taken(
    reader: ReaderModel,
    received: u64,
    chunk: Result<Seq<u8>, Seq<char>>,
)
    ensures
        ({
            let verdict = chunk_verdict(reader, chunk);
            let next = after_chunk(reader, received, chunk);
            &&& verdict is Ok <==> chunk is Ok && reader.body.len() + chunk->Ok_0.len()
                <= reader.limit
            &&& verdict is Ok ==> next.body == reader.body + chunk->Ok_0
            &&& verdict is Err ==> next.body == reader.body
            &&& chunk is Err ==> verdict->Err_0 == ErrorModel::Network(
                "Failed to read body: "@ + chunk->Err_0,
            )
            &&& chunk is Ok && verdict is Err ==> verdict->Err_0 == (ErrorModel::ResponseTooLarge {
                url: reader.url,
                limit: reader.limit,
            })
            &&& next.url == reader.url
            &&& next.limit == reader.limit
            &&& next.header_bytes == reader.header_bytes
            &&& next.content_length == reader.content_length
            &&& next.measured == reader.measured
        }),
{
}

/// Where the transport counts, a chunk is charged with what was counted since
/// the last, whether it is taken or not, and so is the end of the body.
pub proof fn law_counted_bytes_are_charged_as_they_come(
    reader: ReaderModel,
    received: u64,
    chunk: Result<Seq<u8>, Seq<char>>,
)
    requires
        reader.measured,
        reader.charged <= received,
        reader.header_bytes <= u64::MAX,
    ensures
        charged_bytes(opening_charge(reader)) == reader.header_bytes,
        charged_bytes(chunk_charge(reader, received, chunk)) + reader.charged == received,
        charged_bytes(closing_charge(reader, received)) + reader.charged == received,
        after_chunk(reader, received, chunk).charged == received,
        wire_total(reader, received) == reader.header_bytes + received,
{
}

/// Where the transport does not count, the estimate is told of the start, of
/// every chunk that is taken with its length, and of the end, and of nothing
/// else. What the response took on the wire is then its header fields and the
/// length that it declared, or else the length of its body.
pub proof fn law_uncounted_transfers_are_estimated(
    reader: ReaderModel,
    received: u64,
    chunk: Result<Seq<u8>, Seq<char>>,
)
    requires
        !reader.measured,
    ensures
        opening_charge(reader) == Charge::EstimateStart,
        chunk is Ok && reader.body.len() + chunk->Ok_0.len() <= reader.limit ==> chunk_charge(
            reader,
            received,
            chunk,
        ) == Charge::EstimateChunk(chunk->Ok_0.len() as usize),
        chunk is Err || reader.body.len() + chunk->Ok_0.len() > reader.limit ==> chunk_charge(
            reader,
            received,
            chunk,
        ) == Charge::Nothing,
        closing_charge(reader, received) == Charge::EstimateComplete,
        reader.content_length matches Some(n) ==> wire_total(reader, received)
            == reader.header_bytes + n,
        reader.content_length is None ==> wire_total(reader, received) == reader.header_bytes
            + reader.body.len(),
{
}

} // verus!
