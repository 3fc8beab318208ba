//! A transport that keeps what it is sent instead of driving a bus.

use vstd::prelude::*;
use crate::async_interface::{
    transferred, AsyncWriteOnlyDataCommand, BusLog, DataFormat, DisplayError, Phase, Transfer,
};

verus! {

/// One transfer that a recording transport took: its phase and its bytes.
#[derive(Debug)]
pub struct Record {
    pub phase: Phase,
    pub bytes: Vec<u8>,
}

impl View for Record {
    type V = Transfer;

    open spec fn view(&self) -> Transfer {
        Transfer { phase: self.phase, bytes: self.bytes@ }
    }
}

/// The transfers that `records` stand for.
pub open spec fn transfers_recorded(records: Seq<Record>) -> Seq<Transfer> {
    Seq::new(records.len(), |i: int| records[i]@)
}

/// A transport that records every transfer it takes, and that can be told to take only so
/// many and to refuse the rest.
pub struct RecordingInterface {
    records: Vec<Record>,
    limit: Option<usize>,
    refusal: DisplayError,
    fault: Option<DisplayError>,
}

impl RecordingInterface {
    /// The transfers taken so far, oldest first.
    pub closed spec fn recorded(&self) -> Seq<Record> {
        self.records@
    }

    /// The number of transfers after which the transport refuses every further one, if it
    /// refuses any.
    pub closed spec fn limit(&self) -> Option<usize> {
        self.limit
    }

    /// The error with which the transport refuses a transfer.
    pub closed spec fn refusal(&self) -> DisplayError {
        self.refusal
    }

    /// The error of the latest transfer refused, if any was.
    pub closed spec fn latest_fault(&self) -> Option<DisplayError> {
        self.fault
    }

    /// Whether the transport takes one more transfer.
    pub open spec fn accepts(&self) -> bool {
        match self.limit() {
            None => true,
            Some(limit) => self.recorded().len() < limit,
        }
    }

    /// A transport that takes every transfer. It starts with an empty log: nothing sent and
    /// no fault.
    pub fn new() -> (r: RecordingInterface)
        ensures
            r.recorded() == Seq::<Record>::empty(),
            r.limit() is None,
            r.latest_fault() is None,
            r.accepts(),
            r.log() == (BusLog { sent: Seq::<Transfer>::empty(), fault: None }),
    {
        assert(transfers_recorded(Seq::<Record>::empty()) =~= Seq::<Transfer>::empty());
        RecordingInterface {
            records: Vec::new(),
            limit: None,
            refusal: DisplayError::BusWriteError,
            fault: None,
        }
    }

    /// A transport that takes `limit` transfers and refuses every later one with `refusal`.
    pub fn failing_after(limit: usize, refusal: DisplayError) -> (r: RecordingInterface)
        ensures
            r.recorded() == Seq::<Record>::empty(),
            r.limit() == Some(limit),
            r.refusal() == refusal,
            r.latest_fault() is None,
    {
        RecordingInterface { records: Vec::new(), limit: Some(limit), refusal, fault: None }
    }

    /// The transfers taken so far, oldest first.
    pub fn records(&self) -> (r: &Vec<Record>)
        ensures
            r@ == self.recorded(),
    {
        &self.records
    }

    /// Ends the recording and hands out the transfers taken, oldest first.
    pub fn into_records(self) -> (r: Vec<Record>)
        ensures
            r@ == self.recorded(),
    {
        self.records
    }

    /// The error of the latest transfer refused, if any was.
    pub fn last_fault(&self) -> (r: Option<DisplayError>)
        ensures
            r == self.latest_fault(),
    {
        self.fault
    }

    /// Takes or refuses one transfer of `data` in `phase`.
    fn take(&mut self, phase: Phase, data: DataFormat<'_>) -> (r: Result<(), DisplayError>)
        ensures
            transferred(
                old(self).log(),
                final(self).log(),
                (Transfer { phase, bytes: data.wire_bytes() }),
                r,
            ),
            final(self).limit() == old(self).limit(),
            final(self).refusal() == old(self).refusal(),
            r is Ok <==> old(self).accepts(),
            r is Err ==> r == Err::<(), DisplayError>(old(self).refusal()),
    {
        let full = match self.limit {
            None => false,
            Some(limit) => self.records.len() >= limit,
        };
        if full {
            self.fault = Some(self.refusal);
            return Err(self.refusal);
        }
        let ghost before = self.log().sent;
        self.records.push(Record { phase, bytes: data.to_bytes() });
        assert(self.log().sent =~= before.push(Transfer { phase, bytes: data.wire_bytes() }));
        Ok(())
    }
}

impl AsyncWriteOnlyDataCommand for RecordingInterface {
    open spec fn log(&self) -> BusLog {
        BusLog { sent: transfers_recorded(self.recorded()), fault: self.latest_fault() }
    }

    fn send_commands(&mut self, cmd: DataFormat<'_>) -> (r: Result<(), DisplayError>)
        ensures
            final(self).limit() == old(self).limit(),
            final(self).refusal() == old(self).refusal(),
            r is Ok <==> old(self).accepts(),
            r is Err ==> r == Err::<(), DisplayError>(old(self).refusal()),
    {
        self.take(Phase::Command, cmd)
    }

    fn send_data(&mut self, buf: DataFormat<'_>) -> (r: Result<(), DisplayError>)
        ensures
            final(self).limit() == old(self).limit(),
            final(self).refusal() == old(self).refusal(),
            r is Ok <==> old(self).accepts(),
            r is Err ==> r == Err::<(), DisplayError>(old(self).refusal()),
    {
        self.take(Phase::Data, buf)
    }
}

} // verus!
