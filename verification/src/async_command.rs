//! Sending a command over a transport.

use vstd::prelude::*;
use crate::async_interface::{
    carried_out, lemma_continued, lemma_single, lemma_stopped_early, AsyncWriteOnlyDataCommand,
    BusLog, DataFormat, DisplayError, Phase, Transfer,
};
use crate::command::Command;

verus! {

/// The transfers that carry `commands` one after the other.
pub open spec fn transfers_of(commands: Seq<Command>) -> Seq<Transfer>
    decreases commands.len(),
{
    if commands.len() == 0 {
        seq![]
    } else {
        transfers_of(commands.drop_last()) + commands.last().transfers()
    }
}

impl Command {
    /// The transfers that carry the command: its opcode in the command phase, then, where it
    /// has parameters, all of them in one transfer of the data phase.
    pub open spec fn transfers(self) -> Seq<Transfer> {
        let opcode = seq![Transfer { phase: Phase::Command, bytes: seq![self.opcode()] }];
        if self.payload().len() == 0 {
            opcode
        } else {
            opcode + seq![Transfer { phase: Phase::Data, bytes: self.payload() }]
        }
    }

    /// Sends the command over `iface`.
    pub fn send_async<DI>(self, iface: &mut DI) -> (r: Result<(), DisplayError>) where
        DI: AsyncWriteOnlyDataCommand,

        ensures
            carried_out(old(iface).log(), final(iface).log(), self.transfers(), r),
    {
        let ghost before = iface.log();
        let ghost opcode = Transfer { phase: Phase::Command, bytes: seq![self.opcode()] };
        let ghost payload = Transfer { phase: Phase::Data, bytes: self.payload() };
        let (command, data, len) = self.encode();
        proof {
            self.lemma_payload_fits();
        }

        let opcode_bytes: [u8; 1] = [command];
        assert(opcode_bytes@ =~= seq![command]);
        let sent = iface.send_commands(DataFormat::U8(opcode_bytes.as_slice()));
        proof {
            lemma_single(before, iface.log(), opcode, sent);
        }
        if let Err(e) = sent {
            proof {
                lemma_stopped_early(before, iface.log(), seq![opcode], seq![payload], sent);
            }
            return Err(e);
        }
        if len > 0 {
            let ghost between = iface.log();
            assert(data@.subrange(0, len as int) =~= data@.take(len as int));
            let sent = iface.send_data(
                DataFormat::U8(vstd::slice::slice_subrange(data.as_slice(), 0, len)),
            );
            proof {
                lemma_single(between, iface.log(), payload, sent);
                lemma_continued(before, between, iface.log(), seq![opcode], seq![payload], sent);
            }
            return sent;
        }
        Ok(())
    }
}

/// Sends `commands` in order over `iface`, up to the first that fails.
pub(crate) fn send_all<DI>(iface: &mut DI, commands: &[Command]) -> (r: Result<(), DisplayError>) where
    DI: AsyncWriteOnlyDataCommand,

    ensures
        carried_out(old(iface).log(), final(iface).log(), transfers_of(commands@), r),
{
    let ghost before = iface.log();
    let mut i: usize = 0;
    assert(before.sent =~= before.sent + transfers_of(commands@.take(0)));
    while i < commands.len()
        invariant
            i <= commands.len(),
            before == old(iface).log(),
            carried_out(before, iface.log(), transfers_of(commands@.take(i as int)), Ok(())),
        decreases commands.len() - i,
    {
        let ghost between = iface.log();
        let ghost done = commands@.take(i as int);
        let ghost next = commands@.take(i + 1);
        let sent = commands[i].send_async(iface);
        proof {
            assert(next.drop_last() =~= done);
            assert(next.last() == commands@[i as int]);
            assert(transfers_of(next) == transfers_of(done) + commands@[i as int].transfers());
            lemma_continued(
                before,
                between,
                iface.log(),
                transfers_of(done),
                commands@[i as int].transfers(),
                sent,
            );
        }
        if let Err(e) = sent {
            proof {
                assert(sent == Err::<(), DisplayError>(e));
                assert(next == commands@.take(next.len() as int));
                lemma_prefix_stops(before, iface.log(), next, commands@, sent);
            }
            return Err(e);
        }
        i += 1;
    }
    assert(commands@.take(i as int) =~= commands@);
    Ok(())
}

/// The transfers of the first commands of a list begin the transfers of the whole list.
proof fn lemma_transfers_of_prefix(commands: Seq<Command>, n: int)
    requires
        0 <= n <= commands.len(),
    ensures
        transfers_of(commands.take(n)).len() <= transfers_of(commands).len(),
        transfers_of(commands.take(n)) == transfers_of(commands).take(
            transfers_of(commands.take(n)).len() as int,
        ),
    decreases commands.len(),
{
    if n == commands.len() {
        assert(commands.take(n) =~= commands);
        assert(transfers_of(commands) =~= transfers_of(commands).take(
            transfers_of(commands).len() as int,
        ));
    } else {
        lemma_transfers_of_prefix(commands.drop_last(), n);
        assert(commands.drop_last().take(n) =~= commands.take(n));
        let shorter = transfers_of(commands.drop_last());
        let part = transfers_of(commands.take(n));
        assert(part =~= (shorter + commands.last().transfers()).take(part.len() as int));
    }
}

/// A failure while sending the first commands of a list is a failure of sending the list.
proof fn lemma_prefix_stops(
    before: BusLog,
    after: BusLog,
    begun: Seq<Command>,
    commands: Seq<Command>,
    r: Result<(), DisplayError>,
)
    requires
        r is Err,
        begun.len() <= commands.len(),
        begun == commands.take(begun.len() as int),
        carried_out(before, after, transfers_of(begun), r),
    ensures
        carried_out(before, after, transfers_of(commands), r),
{
    lemma_transfers_of_prefix(commands, begun.len() as int);
    let whole = transfers_of(commands);
    let part = transfers_of(begun);
    let n = after.sent.len() - before.sent.len();
    assert(part.take(n) =~= whole.take(n));
}

} // verus!
