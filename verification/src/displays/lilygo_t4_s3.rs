//! The LilyGo T4-S3: the controller sits on a QSPI bus, and its reset pin on
//! an output line.
//!
//! Commands travel as single-line writes with the control opcode; the command
//! byte is the middle byte of the 24-bit address. Pixels travel as quad-line
//! writes with the pixel opcode, in chunks that the bus can take in one
//! transaction.

use crate::commands;
use crate::interface::{
    lemma_all_actions, lemma_next_action, progress, ran, ControllerInterface, DelayMs, Entry,
    ResetInterface,
};
use vstd::prelude::*;

verus! {

/// The opcode of a write of pixel data.
pub const QSPI_PIXEL_OPCODE: u8 = 0x32;

/// The opcode of a write of a command.
pub const QSPI_CONTROL_OPCODE: u8 = 0x02;

/// The largest payload, in bytes, that the bus takes in one transaction.
pub const DMA_CHUNK_SIZE: usize = 16380;

/// The width of the address of a write, in bits.
pub const ADDRESS_BITS: u8 = 24;

/// Time for which the reset line is held low.
pub const RESET_LOW_MS: u32 = 20;

/// Time given to the controller after the reset line went high.
pub const RESET_HIGH_MS: u32 = 150;

/// The number of lines on which the payload of a write travels.
#[derive(Debug, Clone, Copy, PartialEq, Eq, Structural)]
pub enum DataMode {
    /// One data line.
    Single,
    /// Four data lines.
    Quad,
}

/// One half-duplex write on the bus.
pub struct Transaction {
    /// The lines that the payload travels on.
    pub data_mode: DataMode,
    /// The opcode, sent as eight bits.
    pub opcode: u8,
    /// The lines that the opcode travels on.
    pub opcode_lines: DataMode,
    /// The address.
    pub address: u32,
    /// The number of bits of the address that are sent.
    pub address_bits: u8,
    /// The lines that the address travels on.
    pub address_lines: DataMode,
    /// The number of dummy cycles between address and payload.
    pub dummy: u8,
    /// The bytes that follow the address.
    pub payload: Seq<u8>,
}

/// A bus that performs half-duplex writes made of an opcode, an address and
/// a payload.
pub trait HalfDuplexBus {
    /// The specific error type of this bus.
    type Error;

    /// Performs one write: the opcode as eight bits on `opcode_lines`, the
    /// lowest `address_bits` bits of the address on `address_lines`, `dummy`
    /// idle cycles, and the payload on the lines of `data_mode`.
    fn half_duplex_write(
        &mut self,
        data_mode: DataMode,
        opcode: u8,
        opcode_lines: DataMode,
        address: u32,
        address_bits: u8,
        address_lines: DataMode,
        dummy: u8,
        payload: &[u8],
    ) -> Result<(), Self::Error>;
}

/// An output line that can be driven low or high.
pub trait OutputLine {
    /// The specific error type of this line.
    type Error;

    /// Drives the line high (`true`) or low (`false`).
    fn set_level(&mut self, high: bool) -> Result<(), Self::Error>;
}

/// The address that carries the command byte `cmd`: the byte stands in bits
/// 8 to 15.
pub open spec fn command_address(cmd: u8) -> u32 {
    (cmd * 256) as u32
}

/// The write that carries the command `cmd` with the parameters `data`:
/// everything on one line, the control opcode, the command in a 24-bit
/// address, no dummy cycles.
pub open spec fn command_write(cmd: u8, data: Seq<u8>) -> Transaction {
    Transaction {
        data_mode: DataMode::Single,
        opcode: QSPI_CONTROL_OPCODE,
        opcode_lines: DataMode::Single,
        address: command_address(cmd),
        address_bits: ADDRESS_BITS,
        address_lines: DataMode::Single,
        dummy: 0,
        payload: data,
    }
}

/// The number of chunks of at most `chunk` bytes that `len` bytes split
/// into: `len / chunk`, rounded up.
pub open spec fn chunk_count(len: int, chunk: int) -> int {
    (len + chunk - 1) / chunk
}

/// The smaller of two integers.
pub open spec fn least(a: int, b: int) -> int {
    if a <= b {
        a
    } else {
        b
    }
}

/// Chunk `k` of the burst that sends `pixels` in chunks of `chunk` bytes.
/// The first chunk starts a memory write, the others continue it. The
/// payload travels on four lines; the pixel opcode and the 24-bit address
/// travel on one line, and there are no dummy cycles.
pub open spec fn burst_chunk(pixels: Seq<u8>, chunk: int, k: int) -> Transaction {
    Transaction {
        data_mode: DataMode::Quad,
        opcode: QSPI_PIXEL_OPCODE,
        opcode_lines: DataMode::Single,
        address: if k == 0 {
            command_address(commands::RAMWR)
        } else {
            command_address(commands::RAMWRC)
        },
        address_bits: ADDRESS_BITS,
        address_lines: DataMode::Single,
        dummy: 0,
        payload: pixels.subrange(k * chunk, least((k + 1) * chunk, pixels.len() as int)),
    }
}

/// The burst that sends `pixels` in chunks of at most `chunk` bytes.
pub open spec fn pixel_burst(pixels: Seq<u8>, chunk: int) -> Seq<Transaction> {
    Seq::new(chunk_count(pixels.len() as int, chunk) as nat, |k: int| burst_chunk(pixels, chunk, k))
}

/// The payloads of the first `n` of `writes`, one after the other.
pub open spec fn payloads(writes: Seq<Transaction>, n: nat) -> Seq<u8>
    decreases n,
{
    if n == 0 {
        Seq::empty()
    } else {
        payloads(writes, (n - 1) as nat) + writes[n - 1].payload
    }
}

/// The chunks cover the payload and no more: all chunks but the last lie
/// wholly inside it, and all chunks together reach its end.
pub proof fn lemma_chunk_count(len: int, chunk: int)
    requires
        0 <= len,
        1 <= chunk,
    ensures
        0 <= chunk_count(len, chunk),
        (chunk_count(len, chunk) - 1) * chunk < len || len == 0,
        len <= chunk_count(len, chunk) * chunk,
        len == 0 <==> chunk_count(len, chunk) == 0,
{
    let x = len + chunk - 1;
    vstd::arithmetic::div_mod::lemma_fundamental_div_mod(x, chunk);
    vstd::arithmetic::div_mod::lemma_mod_bound(x, chunk);
    let c = x / chunk;
    let r = x % chunk;
    assert(x == chunk * c + r);
    assert(chunk * c == c * chunk) by (nonlinear_arith);
    assert((c - 1) * chunk == c * chunk - chunk) by (nonlinear_arith);
    if c < 0 {
        assert(c * chunk <= -chunk) by (nonlinear_arith)
            requires
                c <= -1,
                chunk >= 1,
        ;
    }
    if c == 0 {
        assert(c * chunk == 0) by (nonlinear_arith)
            requires
                c == 0,
        ;
    }
    if len == 0 {
        if c >= 1 {
            assert(c * chunk >= chunk) by (nonlinear_arith)
                requires
                    c >= 1,
                    chunk >= 1,
            ;
        }
    }
}

/// A chunk that starts inside the payload is one of the burst's chunks, and
/// a chunk index at which the payload is used up is the number of chunks.
pub proof fn lemma_chunk_index(len: int, chunk: int, k: int)
    requires
        0 <= len,
        1 <= chunk,
        0 <= k <= chunk_count(len, chunk),
    ensures
        k * chunk < len ==> k < chunk_count(len, chunk),
        k * chunk >= len ==> k == chunk_count(len, chunk),
{
    lemma_chunk_count(len, chunk);
    let c = chunk_count(len, chunk);
    if k * chunk < len && k >= c {
        assert(k * chunk >= c * chunk) by (nonlinear_arith)
            requires
                k >= c,
                chunk >= 1,
        ;
    }
    if k * chunk >= len && k < c {
        assert(k * chunk <= (c - 1) * chunk) by (nonlinear_arith)
            requires
                k <= c - 1,
                chunk >= 1,
        ;
    }
}

/// The payloads of the first `k` chunks of a burst are the first `k * chunk`
/// bytes of the pixels, or all of them where they are fewer.
pub proof fn lemma_burst_prefix(pixels: Seq<u8>, chunk: int, k: nat)
    requires
        1 <= chunk,
        k <= chunk_count(pixels.len() as int, chunk),
    ensures
        payloads(pixel_burst(pixels, chunk), k) == pixels.subrange(
            0,
            least(k * chunk, pixels.len() as int),
        ),
    decreases k,
{
    let len = pixels.len() as int;
    let burst = pixel_burst(pixels, chunk);
    if k == 0 {
        assert(0 * chunk == 0) by (nonlinear_arith);
        assert(payloads(burst, 0) =~= pixels.subrange(0, 0));
    } else {
        lemma_burst_prefix(pixels, chunk, (k - 1) as nat);
        lemma_chunk_count(len, chunk);
        let j = k - 1;
        assert(j * chunk <= (chunk_count(len, chunk) - 1) * chunk) by (nonlinear_arith)
            requires
                j <= chunk_count(len, chunk) - 1,
                chunk >= 1,
        ;
        assert(0 <= j * chunk) by (nonlinear_arith)
            requires
                0 <= j,
                chunk >= 1,
        ;
        assert((j + 1) * chunk == j * chunk + chunk) by (nonlinear_arith);
        assert(j * chunk < len);
        assert(burst[j].payload == pixels.subrange(j * chunk, least((j + 1) * chunk, len)));
        assert(payloads(burst, k) =~= pixels.subrange(0, least(k * chunk, len)));
    }
}

/// A burst sends the pixels it was made of: its chunks are as many as the
/// payload's length divided by the chunk size, rounded up; the first starts
/// a memory write and the others continue it; none is longer than the chunk
/// size; each sends the pixel opcode and a 24-bit address on one line, no
/// dummy cycles, and its payload on four lines; and their payloads, one
/// after the other, are the pixels.
pub proof fn lemma_burst_complete(pixels: Seq<u8>, chunk: int)
    requires
        1 <= chunk,
    ensures
        pixel_burst(pixels, chunk).len() == chunk_count(pixels.len() as int, chunk),
        forall|k: int|
            0 <= k < pixel_burst(pixels, chunk).len() ==> (#[trigger] pixel_burst(
                pixels,
                chunk,
            )[k]).address == if k == 0 {
                command_address(commands::RAMWR)
            } else {
                command_address(commands::RAMWRC)
            },
        forall|k: int|
            0 <= k < pixel_burst(pixels, chunk).len() ==> 1 <= (#[trigger] pixel_burst(
                pixels,
                chunk,
            )[k]).payload.len() <= chunk,
        forall|k: int|
            0 <= k < pixel_burst(pixels, chunk).len() ==> {
                let write = #[trigger] pixel_burst(pixels, chunk)[k];
                &&& write.data_mode == DataMode::Quad
                &&& write.opcode == QSPI_PIXEL_OPCODE
                &&& write.opcode_lines == DataMode::Single
                &&& write.address_bits == 24
                &&& write.address_lines == DataMode::Single
                &&& write.dummy == 0
            },
        payloads(pixel_burst(pixels, chunk), pixel_burst(pixels, chunk).len()) == pixels,
{
    let len = pixels.len() as int;
    let c = chunk_count(len, chunk);
    let burst = pixel_burst(pixels, chunk);
    lemma_chunk_count(len, chunk);
    lemma_burst_prefix(pixels, chunk, c as nat);
    assert(pixels.subrange(0, least(c * chunk, len)) =~= pixels);
    assert forall|k: int| 0 <= k < burst.len() implies 1 <= (#[trigger] burst[k]).payload.len()
        <= chunk by {
        assert(k * chunk <= (c - 1) * chunk) by (nonlinear_arith)
            requires
                k <= c - 1,
                chunk >= 1,
        ;
        assert(0 <= k * chunk) by (nonlinear_arith)
            requires
                0 <= k,
                chunk >= 1,
        ;
        assert((k + 1) * chunk == k * chunk + chunk) by (nonlinear_arith);
    }
}

/// Computes the address that carries the command byte `cmd`.
pub fn command_address_of(cmd: u8) -> (address: u32)
    ensures
        address == command_address(cmd),
{
    let wide: u32 = cmd as u32;
    assert(wide << 8 == wide * 256) by (bit_vector)
        requires
            wide < 256,
    ;
    wide << 8
}

/// QSPI implementation of the controller interface.
///
/// Besides the bus, it keeps a journal of the writes that it has asked of
/// the bus. The journal exists in proofs only.
pub struct Lgt4s3Driver<BUS> where BUS: HalfDuplexBus {
    qspi: BUS,
    journal: Ghost<Seq<Entry<Transaction, BUS::Error>>>,
}

impl<BUS> Lgt4s3Driver<BUS> where BUS: HalfDuplexBus {
    pub fn new(qspi: BUS) -> (driver: Self)
        ensures
            driver.writes() == Seq::<Entry<Transaction, BUS::Error>>::empty(),
            driver.bus_value() == qspi,
    {
        Lgt4s3Driver { qspi, journal: Ghost(Seq::empty()) }
    }

    /// The writes asked of the bus so far, oldest first, each with its
    /// outcome.
    pub closed spec fn writes(&self) -> Seq<Entry<Transaction, BUS::Error>> {
        self.journal@
    }

    /// The bus, as a value in proofs.
    pub closed spec fn bus_value(&self) -> BUS {
        self.qspi
    }

    /// The bus.
    pub fn bus(&self) -> (bus: &BUS)
        ensures
            *bus == self.bus_value(),
    {
        &self.qspi
    }

    /// Asks the bus for one write with the opcode and the 24-bit address on
    /// one line and without dummy cycles, and notes it in the journal.
    fn write(&mut self, data_mode: DataMode, opcode: u8, address: u32, payload: &[u8]) -> (r:
        Result<(), BUS::Error>)
        ensures
            final(self).writes() == old(self).writes().push(
                (Entry {
                    asked: Transaction {
                        data_mode,
                        opcode,
                        opcode_lines: DataMode::Single,
                        address,
                        address_bits: ADDRESS_BITS,
                        address_lines: DataMode::Single,
                        dummy: 0,
                        payload: payload@,
                    },
                    outcome: r,
                }),
            ),
    {
        let done = self.qspi.half_duplex_write(
            data_mode,
            opcode,
            DataMode::Single,
            address,
            ADDRESS_BITS,
            DataMode::Single,
            0,
            payload,
        );
        self.journal = Ghost(
            self.journal@.push(
                Entry {
                    asked: Transaction {
                        data_mode,
                        opcode,
                        opcode_lines: DataMode::Single,
                        address,
                        address_bits: ADDRESS_BITS,
                        address_lines: DataMode::Single,
                        dummy: 0,
                        payload: payload@,
                    },
                    outcome: done,
                },
            ),
        );
        done
    }

    /// Sends `pixels` as one burst in chunks of at most `chunk` bytes. The
    /// first write that fails ends the burst. Without pixels nothing is
    /// sent.
    pub fn send_burst(&mut self, pixels: &[u8], chunk: usize) -> (r: Result<(), BUS::Error>)
        requires
            chunk >= 1,
        ensures
            ran(
                old(self).writes(),
                pixel_burst(pixels@, chunk as int),
                final(self).writes(),
                r,
            ),
    {
        let len: usize = pixels.len();
        let ghost before = self.writes();
        let ghost burst = pixel_burst(pixels@, chunk as int);
        let ghost mut k: int = 0;
        let mut start: usize = 0;
        proof {
            lemma_chunk_count(len as int, chunk as int);
            assert(0 * chunk == 0) by (nonlinear_arith);
            lemma_all_actions(before, burst, before);
        }
        while start < len
            invariant
                len == pixels@.len(),
                chunk >= 1,
                before == old(self).writes(),
                burst == pixel_burst(pixels@, chunk as int),
                0 <= k <= chunk_count(len as int, chunk as int),
                start == least(k * chunk, len as int),
                progress(before, burst, self.writes(), k),
            decreases len - start,
        {
            proof {
                lemma_chunk_index(len as int, chunk as int, k);
                assert((k + 1) * chunk == k * chunk + chunk) by (nonlinear_arith);
            }
            let end: usize = if len - start > chunk {
                start + chunk
            } else {
                len
            };
            let address: u32 = if start == 0 {
                command_address_of(commands::RAMWR)
            } else {
                command_address_of(commands::RAMWRC)
            };
            proof {
                if k != 0 {
                    assert(k * chunk >= chunk) by (nonlinear_arith)
                        requires
                            k >= 1,
                            chunk >= 1,
                    ;
                }
            }
            let part = vstd::slice::slice_subrange(pixels, start, end);
            let ghost here = self.writes();
            let done = self.write(DataMode::Quad, QSPI_PIXEL_OPCODE, address, part);
            proof {
                assert(burst[k] == burst_chunk(pixels@, chunk as int, k));
                lemma_next_action(before, burst, here, k, self.writes().last());
                k = k + 1;
            }
            if done.is_err() {
                return done;
            }
            start = end;
        }
        proof {
            lemma_chunk_index(len as int, chunk as int, k);
            lemma_all_actions(before, burst, self.writes());
        }
        Ok(())
    }
}

impl<BUS> ControllerInterface for Lgt4s3Driver<BUS> where BUS: HalfDuplexBus {
    type Error = BUS::Error;

    /// Sends `cmd` as one single-line write without payload.
    fn send_command(&mut self, cmd: u8) -> (r: Result<(), Self::Error>)
        ensures
            final(self).writes() == old(self).writes().push(
                (Entry { asked: command_write(cmd, Seq::empty()), outcome: r }),
            ),
    {
        let address = command_address_of(cmd);
        let empty: [u8; 0] = [];
        assert(empty@ =~= Seq::<u8>::empty());
        self.write(DataMode::Single, QSPI_CONTROL_OPCODE, address, empty.as_slice())
    }

    /// Sends `cmd` and `data` as one single-line write.
    fn send_command_with_data(&mut self, cmd: u8, data: &[u8]) -> (r: Result<(), Self::Error>)
        ensures
            final(self).writes() == old(self).writes().push(
                (Entry { asked: command_write(cmd, data@), outcome: r }),
            ),
    {
        let address = command_address_of(cmd);
        self.write(DataMode::Single, QSPI_CONTROL_OPCODE, address, data)
    }

    /// Sends `pixels` as one burst of quad-line writes of at most
    /// [`DMA_CHUNK_SIZE`] bytes each.
    fn send_pixels(&mut self, pixels: &[u8]) -> (r: Result<(), Self::Error>)
        ensures
            ran(
                old(self).writes(),
                pixel_burst(pixels@, DMA_CHUNK_SIZE as int),
                final(self).writes(),
                r,
            ),
    {
        self.send_burst(pixels, DMA_CHUNK_SIZE)
    }
}

/// One thing that the reset control asks of its surroundings.
pub enum LineAction {
    /// Drive the reset line high (`true`) or low (`false`).
    Level(bool),
    /// Wait for a number of milliseconds.
    Wait(u32),
}

/// The reset sequence: low, a wait, high, a wait.
pub open spec fn reset_plan() -> Seq<LineAction> {
    seq![
        LineAction::Level(false),
        LineAction::Wait(RESET_LOW_MS),
        LineAction::Level(true),
        LineAction::Wait(RESET_HIGH_MS),
    ]
}

/// What the journal of a reset control shows after a reset sequence with
/// the result `r`: the sequence was run up to the first level that the line
/// refused, `r` is what came back from that level, and no wait was refused.
pub open spec fn reset_performed<E>(
    before: Seq<Entry<LineAction, E>>,
    after: Seq<Entry<LineAction, E>>,
    r: Result<(), E>,
) -> bool {
    &&& ran(before, reset_plan(), after, r)
    &&& forall|j: int|
        before.len() <= j < after.len() && (#[trigger] after[j]).asked is Wait
            ==> after[j].outcome is Ok
}

/// Reset control over an output line.
///
/// Besides the line and the delay source, it keeps a journal of what it has
/// asked of them. The journal exists in proofs only.
pub struct ResetDriver<OUT, DELAY> where OUT: OutputLine {
    output: OUT,
    delay: DELAY,
    journal: Ghost<Seq<Entry<LineAction, OUT::Error>>>,
}

impl<OUT, DELAY> ResetDriver<OUT, DELAY> where OUT: OutputLine, DELAY: DelayMs {
    pub fn new(output: OUT, delay: DELAY) -> (driver: Self)
        ensures
            driver.actions() == Seq::<Entry<LineAction, OUT::Error>>::empty(),
    {
        ResetDriver { output, delay, journal: Ghost(Seq::empty()) }
    }

    /// What was asked of the line and of the delay source so far, oldest
    /// first, each with its outcome.
    pub closed spec fn actions(&self) -> Seq<Entry<LineAction, OUT::Error>> {
        self.journal@
    }

    /// Asks the line for a level.
    fn drive(&mut self, high: bool) -> (r: Result<(), OUT::Error>)
        ensures
            final(self).actions() == old(self).actions().push(
                (Entry { asked: LineAction::Level(high), outcome: r }),
            ),
    {
        let done = self.output.set_level(high);
        self.journal = Ghost(
            self.journal@.push(Entry { asked: LineAction::Level(high), outcome: done }),
        );
        done
    }

    /// Asks the delay source to wait for `ms` milliseconds.
    fn wait(&mut self, ms: u32)
        ensures
            final(self).actions() == old(self).actions().push(
                (Entry { asked: LineAction::Wait(ms), outcome: Ok(()) }),
            ),
    {
        self.delay.delay_ms(ms);
        self.journal = Ghost(
            self.journal@.push(Entry { asked: LineAction::Wait(ms), outcome: Ok(()) }),
        );
    }
}

impl<OUT, DELAY> ResetInterface for ResetDriver<OUT, DELAY> where OUT: OutputLine, DELAY: DelayMs {
    type Error = OUT::Error;

    /// Drives the line low, waits, drives it high and waits again.
    fn reset(&mut self) -> (r: Result<(), Self::Error>)
        ensures
            reset_performed(old(self).actions(), final(self).actions(), r),
    {
        let ghost before = self.actions();
        let ghost plan = reset_plan();
        proof {
            lemma_all_actions(before, plan, before);
        }
        let low = self.drive(false);
        proof {
            lemma_next_action(before, plan, before, 0, self.actions().last());
        }
        if low.is_err() {
            return low;
        }
        let ghost lowered = self.actions();
        self.wait(RESET_LOW_MS);
        proof {
            lemma_next_action(before, plan, lowered, 1, self.actions().last());
        }
        let ghost held = self.actions();
        let high = self.drive(true);
        proof {
            lemma_next_action(before, plan, held, 2, self.actions().last());
        }
        if high.is_err() {
            return high;
        }
        let ghost raised = self.actions();
        self.wait(RESET_HIGH_MS);
        proof {
            lemma_next_action(before, plan, raised, 3, self.actions().last());
            lemma_all_actions(before, plan, self.actions());
        }
        Ok(())
    }
}

} // verus!
