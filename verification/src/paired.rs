use vstd::prelude::*;
use vstd::string::StringExecFns;

verus! {

/// A decoded sequence record: an identifier and a raw payload of bytes.
/// The pairing logic never inspects the payload; identifier equality is
/// its only predicate.
#[derive(Debug)]
pub struct Record {
    pub id: String,
    pub seq: Vec<u8>,
}

/// A decode failure reported by an upstream record source, carrying a
/// human-readable message.
#[derive(Debug)]
pub struct DecodeError {
    pub message: String,
}

/// One error item produced by the paired stream. Errors are items of the
/// sequence, not terminal conditions: the stream may be advanced again
/// after yielding one.
#[derive(Debug)]
pub enum PairError {
    /// A failure reported by either underlying stream, passed through
    /// with its original message.
    UpstreamDecodeError(DecodeError),
    /// Both sides produced a record but the identifiers differ.
    IdentifierMismatch { id_r1: String, id_r2: String },
    /// One side was exhausted while the other still had an item.
    /// `r1_exhausted` tells which side ended early.
    UnbalancedStreams { r1_exhausted: bool },
}

impl PairError {
    /// The human-readable message of this error.
    pub open spec fn message_spec(&self) -> Seq<char> {
        match self {
            PairError::UpstreamDecodeError(e) => e.message@,
            PairError::IdentifierMismatch { id_r1, id_r2 } =>
                "read pair had different read IDs: ("@ + id_r1@ + ", "@ + id_r2@ + ")"@,
            PairError::UnbalancedStreams { r1_exhausted } =>
                if *r1_exhausted {
                    "reached the end of r1 before r2"@
                } else {
                    "reached the end of r2 before r1"@
                },
        }
    }

    pub fn message(&self) -> (m: String)
        ensures
            m@ == self.message_spec(),
    {
        match self {
            PairError::UpstreamDecodeError(e) => e.message.clone(),
            PairError::IdentifierMismatch { id_r1, id_r2 } => {
                let mut m = String::from_str("read pair had different read IDs: (");
                m.append(id_r1.as_str());
                m.append(", ");
                m.append(id_r2.as_str());
                m.append(")");
                m
            },
            PairError::UnbalancedStreams { r1_exhausted } => {
                if *r1_exhausted {
                    String::from_str("reached the end of r1 before r2")
                } else {
                    String::from_str("reached the end of r2 before r1")
                }
            },
        }
    }
}

/// What remains of one underlying stream after a step has pulled from it:
/// the first item is consumed when there is one.
pub open spec fn rest_of(s: Seq<Result<Record, DecodeError>>) -> Seq<Result<Record, DecodeError>> {
    if s.len() > 0 {
        s.drop_first()
    } else {
        s
    }
}

/// The outcome of one advance of the paired stream, given what remains of
/// the two underlying streams. Decode failures are checked first (the R1
/// side before the R2 side), then identifier equality, then balanced
/// exhaustion; `None` stands for end-of-stream and arises exactly when
/// both sides are exhausted together.
pub open spec fn step_outcome(
    r1: Seq<Result<Record, DecodeError>>,
    r2: Seq<Result<Record, DecodeError>>,
) -> Option<Result<(Record, Record), PairError>> {
    if r1.len() > 0 && r1[0] is Err {
        Some(Err(PairError::UpstreamDecodeError(r1[0]->Err_0)))
    } else if r1.len() > 0 && r2.len() > 0 && r2[0] is Err {
        Some(Err(PairError::UpstreamDecodeError(r2[0]->Err_0)))
    } else if r1.len() > 0 && r2.len() > 0 {
        if r1[0]->Ok_0.id@ == r2[0]->Ok_0.id@ {
            Some(Ok((r1[0]->Ok_0, r2[0]->Ok_0)))
        } else {
            Some(
                Err(
                    PairError::IdentifierMismatch {
                        id_r1: r1[0]->Ok_0.id,
                        id_r2: r2[0]->Ok_0.id,
                    },
                ),
            )
        }
    } else if r1.len() == 0 && r2.len() == 0 {
        None
    } else if r1.len() == 0 {
        Some(Err(PairError::UnbalancedStreams { r1_exhausted: true }))
    } else {
        Some(Err(PairError::UnbalancedStreams { r1_exhausted: false }))
    }
}

/// A lazy adapter over two streams of decoded records, advanced in
/// lockstep: each advance pulls one item from each side and yields a
/// matched pair, an error item, or end-of-stream.
pub struct PairedRecords {
    records_r1: Vec<Result<Record, DecodeError>>,
    records_r2: Vec<Result<Record, DecodeError>>,
}

impl PairedRecords {
    /// The items of the R1 side not yet consumed.
    pub closed spec fn r1(&self) -> Seq<Result<Record, DecodeError>> {
        self.records_r1@
    }

    /// The items of the R2 side not yet consumed.
    pub closed spec fn r2(&self) -> Seq<Result<Record, DecodeError>> {
        self.records_r2@
    }

    /// Takes ownership of the two underlying streams. No validation
    /// happens here: every check is deferred to the advance operation.
    pub fn new(
        records_r1: Vec<Result<Record, DecodeError>>,
        records_r2: Vec<Result<Record, DecodeError>>,
    ) -> (s: Self)
        ensures
            s.r1() == records_r1@,
            s.r2() == records_r2@,
    {
        PairedRecords { records_r1, records_r2 }
    }

    /// Advances the paired stream one step: pulls one item from each side
    /// that still has one and yields the outcome that `step_outcome`
    /// prescribes for the items not yet consumed.
    pub fn next(&mut self) -> (r: Option<Result<(Record, Record), PairError>>)
        ensures
            r == step_outcome(old(self).r1(), old(self).r2()),
            final(self).r1() == rest_of(old(self).r1()),
            final(self).r2() == rest_of(old(self).r2()),
    {
        let item_r1: Option<Result<Record, DecodeError>> = if self.records_r1.len() > 0 {
            Some(self.records_r1.remove(0))
        } else {
            None
        };
        let item_r2: Option<Result<Record, DecodeError>> = if self.records_r2.len() > 0 {
            Some(self.records_r2.remove(0))
        } else {
            None
        };
        match (item_r1, item_r2) {
            (Some(Err(e)), _) => Some(Err(PairError::UpstreamDecodeError(e))),
            (Some(Ok(_)), Some(Err(e))) => Some(Err(PairError::UpstreamDecodeError(e))),
            (Some(Ok(rec1)), Some(Ok(rec2))) => {
                if rec1.id == rec2.id {
                    Some(Ok((rec1, rec2)))
                } else {
                    Some(Err(PairError::IdentifierMismatch { id_r1: rec1.id, id_r2: rec2.id }))
                }
            },
            (Some(Ok(_)), None) => Some(Err(PairError::UnbalancedStreams { r1_exhausted: false })),
            (None, Some(_)) => Some(Err(PairError::UnbalancedStreams { r1_exhausted: true })),
            (None, None) => None,
        }
    }
}

/// At position `i` both streams hold a successfully decoded record and
/// the two records share an identifier.
pub open spec fn matched_at(
    r1: Seq<Result<Record, DecodeError>>,
    r2: Seq<Result<Record, DecodeError>>,
    i: int,
) -> bool {
    &&& r1[i] is Ok
    &&& r2[i] is Ok
    &&& r1[i]->Ok_0.id@ == r2[i]->Ok_0.id@
}

/// Law: a step consumes exactly one item from each side that still has
/// one, so after `i + 1` lockstep steps a stream that began with the
/// items of `s` holds exactly `s.skip(i + 1)`.
pub proof fn lemma_step_consumes_one(s: Seq<Result<Record, DecodeError>>, i: int)
    requires
        0 <= i < s.len(),
    ensures
        rest_of(s.skip(i)) == s.skip(i + 1),
{
    assert(rest_of(s.skip(i)) =~= s.skip(i + 1));
}

/// Law: end-of-stream arises exactly when both underlying streams are
/// exhausted together; any asymmetric exhaustion yields an error item
/// instead.
pub proof fn lemma_end_only_when_both_exhausted(
    r1: Seq<Result<Record, DecodeError>>,
    r2: Seq<Result<Record, DecodeError>>,
)
    ensures
        step_outcome(r1, r2) is None <==> (r1.len() == 0 && r2.len() == 0),
{
}

/// Law: once the paired stream has yielded end-of-stream it is
/// terminated: both sides stay empty and every later advance yields
/// end-of-stream again.
pub proof fn lemma_end_of_stream_is_stable(
    r1: Seq<Result<Record, DecodeError>>,
    r2: Seq<Result<Record, DecodeError>>,
)
    requires
        step_outcome(r1, r2) is None,
    ensures
        rest_of(r1) == r1,
        rest_of(r2) == r2,
        step_outcome(rest_of(r1), rest_of(r2)) is None,
{
}

/// Law: when the two streams have equal length and every pair of
/// positionally-corresponding records decodes and shares an identifier,
/// the output is exactly the sequence of pairs in order followed by
/// end-of-stream: step `i` yields the pair of the records at position
/// `i`, and the step after the last pair yields end-of-stream.
pub proof fn lemma_matched_streams_yield_pairs_in_order(
    r1: Seq<Result<Record, DecodeError>>,
    r2: Seq<Result<Record, DecodeError>>,
    i: int,
)
    requires
        r1.len() == r2.len(),
        forall|j: int| 0 <= j < r1.len() ==> #[trigger] matched_at(r1, r2, j),
        0 <= i <= r1.len(),
    ensures
        i < r1.len() ==> step_outcome(r1.skip(i), r2.skip(i)) == Some(
            Ok::<(Record, Record), PairError>((r1[i]->Ok_0, r2[i]->Ok_0)),
        ),
        i == r1.len() ==> step_outcome(r1.skip(i), r2.skip(i)) is None,
{
    if i < r1.len() {
        assert(matched_at(r1, r2, i));
        assert(r1.skip(i)[0] == r1[i]);
        assert(r2.skip(i)[0] == r2[i]);
    }
}

/// Law: if the R1 stream has strictly fewer items than the R2 stream and
/// every position up to R1's end holds a matching pair, then the step at
/// which R1 first exhausts yields the unbalanced-streams error whose
/// message reads "reached the end of r1 before r2".
pub proof fn lemma_r1_exhausts_first(
    r1: Seq<Result<Record, DecodeError>>,
    r2: Seq<Result<Record, DecodeError>>,
)
    requires
        r1.len() < r2.len(),
        forall|j: int| 0 <= j < r1.len() ==> #[trigger] matched_at(r1, r2, j),
    ensures
        step_outcome(r1.skip(r1.len() as int), r2.skip(r1.len() as int)) == Some(
            Err::<(Record, Record), PairError>(
                PairError::UnbalancedStreams { r1_exhausted: true },
            ),
        ),
        (PairError::UnbalancedStreams { r1_exhausted: true }).message_spec()
            == "reached the end of r1 before r2"@,
{
}

/// Law: if the R2 stream has strictly fewer items than the R1 stream,
/// every position up to R2's end holds a matching pair, and the R1 item
/// at that position decodes, then the step at which R2 first exhausts
/// yields the unbalanced-streams error whose message reads "reached the
/// end of r2 before r1". (If that R1 item is itself a decode failure,
/// the failure is reported first instead.)
pub proof fn lemma_r2_exhausts_first(
    r1: Seq<Result<Record, DecodeError>>,
    r2: Seq<Result<Record, DecodeError>>,
)
    requires
        r2.len() < r1.len(),
        forall|j: int| 0 <= j < r2.len() ==> #[trigger] matched_at(r1, r2, j),
        r1[r2.len() as int] is Ok,
    ensures
        step_outcome(r1.skip(r2.len() as int), r2.skip(r2.len() as int)) == Some(
            Err::<(Record, Record), PairError>(
                PairError::UnbalancedStreams { r1_exhausted: false },
            ),
        ),
        (PairError::UnbalancedStreams { r1_exhausted: false }).message_spec()
            == "reached the end of r2 before r1"@,
{
    assert(r1.skip(r2.len() as int)[0] == r1[r2.len() as int]);
}

/// Law: a decode failure at lockstep position `k` of either side is
/// passed through at step `k` with its message unchanged (the R1 side
/// reported first when both fail), and that step still consumes exactly
/// one item from each side, no more.
pub proof fn lemma_decode_failure_passes_through(
    r1: Seq<Result<Record, DecodeError>>,
    r2: Seq<Result<Record, DecodeError>>,
    k: int,
)
    requires
        0 <= k < r1.len(),
        0 <= k < r2.len(),
        r1[k] is Err || r2[k] is Err,
    ensures
        step_outcome(r1.skip(k), r2.skip(k)) == Some(
            Err::<(Record, Record), PairError>(
                PairError::UpstreamDecodeError(
                    if r1[k] is Err {
                        r1[k]->Err_0
                    } else {
                        r2[k]->Err_0
                    },
                ),
            ),
        ),
        (PairError::UpstreamDecodeError(
            if r1[k] is Err {
                r1[k]->Err_0
            } else {
                r2[k]->Err_0
            },
        )).message_spec() == (if r1[k] is Err {
            r1[k]->Err_0
        } else {
            r2[k]->Err_0
        }).message@,
        rest_of(r1.skip(k)) == r1.skip(k + 1),
        rest_of(r2.skip(k)) == r2.skip(k + 1),
{
    assert(r1.skip(k)[0] == r1[k]);
    assert(r2.skip(k)[0] == r2[k]);
    lemma_step_consumes_one(r1, k);
    lemma_step_consumes_one(r2, k);
}

} // verus!
