//! Flash persistence: a model of the QSPI NOR flash part and the manager
//! that stores the last received message in it across resets.
//!
//! The model keeps the part's memory as plain bytes under NOR semantics — a
//! program operation can only clear bits (1 to 0) and only an erase returns
//! a sector to all ones — and the persistence methods additionally return
//! the exact operation plan (sector erases and page programs) that the bus
//! shell must issue against the real part, each op preceded there by
//! write-enable and followed by busy-polling until `status_ready` holds.

use vstd::prelude::*;

verus! {

/// A page program writes at most this many bytes and may not cross a page
/// boundary.
pub const PAGE_SIZE: usize = 256;

/// Granularity of an erase: the smallest region that can be returned to all
/// ones.
pub const SECTOR_SIZE: usize = 4096;

/// Capacity of the part (a 16-Mbit NOR device).
pub const FLASH_SIZE: usize = 2 * 1024 * 1024;

/// Value of every byte of an erased region.
pub const ERASED: u8 = 0xFF;

/// Fixed address of the persisted message payload.
pub const MSG_ADDR: u32 = 0;

/// Greatest persistable message length, in bytes.
pub const MSG_CAPACITY: usize = 512;

/// Fixed address of the persisted 4-byte little-endian length field.
pub const MSG_LEN_ADDR: u32 = 512;

/// Contents of a fully erased part.
pub open spec fn erased_mem() -> Seq<u8> {
    Seq::new(FLASH_SIZE as nat, |i: int| ERASED)
}

/// First address of the sector containing `addr`.
pub open spec fn sector_base(addr: int) -> int {
    addr / (SECTOR_SIZE as int) * (SECTOR_SIZE as int)
}

/// NOR program semantics: each target bit can only fall — byte `i` of the
/// written range becomes the bitwise AND of what was there and the data.
pub open spec fn programmed(mem: Seq<u8>, at: int, data: Seq<u8>) -> Seq<u8> {
    Seq::new(
        mem.len(),
        |i: int|
            if at <= i < at + data.len() {
                mem[i] & data[i - at]
            } else {
                mem[i]
            },
    )
}

/// Erase semantics: the whole sector containing `addr` returns to all ones.
pub open spec fn sector_erased(mem: Seq<u8>, addr: int) -> Seq<u8> {
    Seq::new(
        mem.len(),
        |i: int|
            if sector_base(addr) <= i < sector_base(addr) + SECTOR_SIZE {
                ERASED
            } else {
                mem[i]
            },
    )
}

/// One bus operation of a persistence plan, in issue order.  The bus shell
/// wraps each in write-enable and a busy-wait, as the part requires.
#[derive(Debug)]
pub enum FlashOp {
    /// Erase the sector containing `addr`.
    EraseSector { addr: u32 },
    /// Program `data` (at most one page, page-aligned range) at `addr`.
    Program { addr: u32, data: Vec<u8> },
}

/// The address an operation targets.
pub open spec fn op_addr(op: FlashOp) -> u32 {
    match op {
        FlashOp::EraseSector { addr } => addr,
        FlashOp::Program { addr, .. } => addr,
    }
}

/// The data a program operation carries (empty for an erase).
pub open spec fn op_data(op: FlashOp) -> Seq<u8> {
    match op {
        FlashOp::EraseSector { .. } => Seq::empty(),
        FlashOp::Program { data, .. } => data@,
    }
}

/// The 4-byte little-endian encoding of a length.
pub open spec fn le4(n: nat) -> Seq<u8> {
    seq![
        (n % 256) as u8,
        ((n / 256) % 256) as u8,
        ((n / 65536) % 256) as u8,
        ((n / 16777216) % 256) as u8,
    ]
}

/// The value a 4-byte little-endian field holds.
pub open spec fn le4_val(s: Seq<u8>) -> nat {
    (s[0] + 256 * s[1] + 65536 * s[2] + 16777216 * s[3]) as nat
}

/// Little-endian encoding of `n`, least significant byte first.
pub fn encode_len(n: u32) -> (b: Vec<u8>)
    ensures
        b@ == le4(n as nat),
{
    let mut b: Vec<u8> = Vec::new();
    b.push((n % 256) as u8);
    b.push(((n / 256) % 256) as u8);
    b.push(((n / 65536) % 256) as u8);
    b.push(((n / 16777216) % 256) as u8);
    proof {
        assert(b@ =~= le4(n as nat));
    }
    b
}

/// Value of a 4-byte little-endian field.
pub fn decode_len(b: &[u8]) -> (n: u32)
    requires
        b@.len() == 4,
    ensures
        n == le4_val(b@),
{
    (b[0] as u32) + 256 * (b[1] as u32) + 65536 * (b[2] as u32) + 16777216 * (b[3] as u32)
}

/// Law: the little-endian length field decodes back to the length it was
/// written from, for every persistable length.
pub proof fn lemma_le4_roundtrip(n: nat)
    requires
        n <= MSG_CAPACITY as nat,
    ensures
        le4_val(le4(n)) == n,
{
    vstd::arithmetic::div_mod::lemma_fundamental_div_mod(n as int, 256);
}

/// The part's contents after a save of `msg`: the message bytes at the
/// message address, its little-endian length at the length address, the
/// rest of the sector erased, everything else untouched.
pub open spec fn saved_contents(mem: Seq<u8>, msg: Seq<u8>) -> Seq<u8> {
    Seq::new(
        mem.len(),
        |i: int|
            if 0 <= i < msg.len() {
                msg[i]
            } else if MSG_LEN_ADDR <= i < MSG_LEN_ADDR + 4 {
                le4(msg.len())[i - MSG_LEN_ADDR]
            } else if i < SECTOR_SIZE {
                ERASED
            } else {
                mem[i]
            },
    )
}

/// The operation plan a save of `msg` issues, op by op: a sector erase at
/// the message address; the payload in one page program (or two when the
/// message is longer than a page — a full page at the message address and
/// the remainder at the next page-aligned address — and none when it is
/// empty); then the program of the little-endian length field.
pub open spec fn save_plan_matches(ops: Seq<FlashOp>, msg: Seq<u8>) -> bool {
    &&& ops.len() == 2 + (if msg.len() == 0 {
        0int
    } else if msg.len() <= PAGE_SIZE {
        1int
    } else {
        2int
    })
    &&& ops[0] is EraseSector
    &&& op_addr(ops[0]) == MSG_ADDR
    &&& (msg.len() > 0 ==> ops[1] is Program && op_addr(ops[1]) == MSG_ADDR && op_data(ops[1])
        == (if msg.len() <= PAGE_SIZE {
        msg
    } else {
        msg.take(PAGE_SIZE as int)
    }))
    &&& (msg.len() > PAGE_SIZE ==> ops[2] is Program && op_addr(ops[2]) == PAGE_SIZE && op_data(
        ops[2],
    ) == msg.skip(PAGE_SIZE as int))
    &&& ops.last() is Program
    &&& op_addr(ops.last()) == MSG_LEN_ADDR
    &&& op_data(ops.last()) == le4(msg.len())
}

/// The length field the part currently stores.
pub open spec fn stored_len(mem: Seq<u8>) -> nat {
    le4_val(mem.subrange(MSG_LEN_ADDR as int, MSG_LEN_ADDR + 4))
}

/// What a load returns for given contents: the stored-length prefix of the
/// payload when the length is within capacity, nothing otherwise.
pub open spec fn load_result(mem: Seq<u8>) -> Option<Seq<u8>> {
    if stored_len(mem) <= MSG_CAPACITY {
        Option::Some(mem.take(stored_len(mem) as int))
    } else {
        Option::None
    }
}

/// Law: round trip — saving a message of a persistable length and loading
/// afterwards (equally after a reset: a load depends only on the stored
/// contents) yields exactly the saved bytes.
pub proof fn lemma_save_load_round_trip(mem: Seq<u8>, msg: Seq<u8>)
    requires
        mem.len() == FLASH_SIZE,
        msg.len() <= MSG_CAPACITY,
    ensures
        load_result(saved_contents(mem, msg)) == Option::Some(msg),
{
    lemma_le4_roundtrip(msg.len());
    assert(saved_contents(mem, msg).subrange(MSG_LEN_ADDR as int, MSG_LEN_ADDR + 4) =~= le4(
        msg.len(),
    ));
    assert(saved_contents(mem, msg).take(msg.len() as int) =~= msg);
}

/// Copy of `src[from..to]` as an owned vector.
fn copy_range(src: &[u8], from: usize, to: usize) -> (out: Vec<u8>)
    requires
        from <= to <= src@.len(),
    ensures
        out@ == src@.subrange(from as int, to as int),
{
    let mut out: Vec<u8> = Vec::new();
    let mut i: usize = from;
    while i < to
        invariant
            from <= i <= to,
            to <= src@.len(),
            out@.len() == i - from,
            forall|j: int| 0 <= j < out@.len() ==> out@[j] == src@[from + j],
        decreases to - i,
    {
        out.push(src[i]);
        i += 1;
    }
    proof {
        assert(out@ =~= src@.subrange(from as int, to as int));
    }
    out
}

/// A vector of `n` zero bytes.
fn zeroed_vec(n: usize) -> (out: Vec<u8>)
    ensures
        out@.len() == n,
{
    let mut out: Vec<u8> = Vec::new();
    while out.len() < n
        invariant
            out@.len() <= n,
        decreases n - out@.len(),
    {
        out.push(0);
    }
    out
}

/// Decision of the busy-wait loops: the part is ready once the
/// write-in-progress bit of status register 1 and the suspend bit of status
/// register 2 are both clear.
pub fn status_ready(status: u8, status2: u8) -> (r: bool)
    ensures
        r == (status & 0x01 == 0 && status2 & 0x80 == 0),
{
    status & 0x01 == 0 && status2 & 0x80 == 0
}

/// Model of the QSPI NOR flash part: its memory contents as the persistence
/// manager believes them.  The bus shell replays the returned operation
/// plans against the real part, so after a reset the real contents match
/// what the model computed.
pub struct QspiFlash {
    mem: Vec<u8>,
}

impl QspiFlash {
    /// The modeled memory contents.
    pub closed spec fn contents(&self) -> Seq<u8> {
        self.mem@
    }

    /// The model always covers the full part.
    pub open spec fn wf(&self) -> bool {
        self.contents().len() == FLASH_SIZE
    }

    /// A fully erased part: the state after power-on initialization of a
    /// fresh or chip-erased device.
    pub fn new() -> (f: QspiFlash)
        ensures
            f.wf(),
            f.contents() == erased_mem(),
    {
        let mut mem: Vec<u8> = Vec::new();
        while mem.len() < FLASH_SIZE
            invariant
                mem@.len() <= FLASH_SIZE,
                forall|i: int| 0 <= i < mem@.len() ==> mem@[i] == ERASED,
            decreases FLASH_SIZE - mem@.len(),
        {
            mem.push(ERASED);
        }
        let f = QspiFlash { mem };
        proof {
            assert(f.contents() =~= erased_mem());
        }
        f
    }

    /// Direct read: fills `buffer` (keeping its length) with the contents at
    /// `addr`.  Reads mutate nothing and need no write-enable or busy-wait.
    pub fn read(&self, addr: u32, buffer: &mut Vec<u8>)
        requires
            self.wf(),
            addr + old(buffer)@.len() <= FLASH_SIZE,
        ensures
            final(buffer)@.len() == old(buffer)@.len(),
            final(buffer)@ == self.contents().subrange(
                addr as int,
                addr + old(buffer)@.len(),
            ),
    {
        let a = addr as usize;
        let len = buffer.len();
        let mut i: usize = 0;
        while i < len
            invariant
                i <= len,
                len == buffer@.len(),
                a == addr as int,
                a + len <= FLASH_SIZE,
                self.wf(),
                forall|j: int| 0 <= j < i ==> buffer@[j] == self.contents()[a + j],
            decreases len - i,
        {
            let b = self.mem[a + i];
            buffer.set(i, b);
            i += 1;
        }
        proof {
            assert(buffer@ =~= self.contents().subrange(addr as int, addr + len));
        }
    }

    /// One page program at `addr`: write-enable, program, busy-wait on the
    /// real part.  NOR semantics — each byte becomes the AND of the old byte
    /// and the data, so only an erased range takes the data verbatim.
    /// Payloads above one page, or crossing a page boundary, must be split
    /// by the caller into page-aligned calls.
    pub fn write(&mut self, addr: u32, buffer: &[u8])
        requires
            old(self).wf(),
            buffer@.len() <= PAGE_SIZE,
            (addr as int) % (PAGE_SIZE as int) + buffer@.len() <= PAGE_SIZE,
            addr + buffer@.len() <= FLASH_SIZE,
        ensures
            final(self).wf(),
            final(self).contents() == programmed(old(self).contents(), addr as int, buffer@),
    {
        let a = addr as usize;
        let len = buffer.len();
        let mut i: usize = 0;
        while i < len
            invariant
                i <= len,
                len == buffer@.len(),
                a == addr as int,
                a + len <= FLASH_SIZE,
                self.mem@.len() == FLASH_SIZE,
                forall|j: int|
                    0 <= j < i ==> self.mem@[a + j] == (old(self).contents()[a + j] & buffer@[j]),
                forall|j: int|
                    (0 <= j < a || a + i <= j < FLASH_SIZE) ==> self.mem@[j] == old(
                        self,
                    ).contents()[j],
            decreases len - i,
        {
            let m = self.mem[a + i];
            let b = buffer[i];
            self.mem.set(a + i, m & b);
            i += 1;
        }
        proof {
            assert(self.contents() =~= programmed(old(self).contents(), addr as int, buffer@));
        }
    }

    /// Erases the sector containing `addr` back to all ones: write-enable,
    /// sector-erase command, busy-wait on the real part.
    pub fn erase_sector(&mut self, addr: u32)
        requires
            old(self).wf(),
            addr < FLASH_SIZE,
        ensures
            final(self).wf(),
            final(self).contents() == sector_erased(old(self).contents(), addr as int),
    {
        proof {
            vstd::arithmetic::div_mod::lemma_fundamental_div_mod(addr as int, SECTOR_SIZE as int);
        }
        let base = (addr as usize) / SECTOR_SIZE * SECTOR_SIZE;
        assert(base == sector_base(addr as int));
        assert(base + SECTOR_SIZE <= FLASH_SIZE) by (nonlinear_arith)
            requires
                base == (addr as int) / (SECTOR_SIZE as int) * (SECTOR_SIZE as int),
                addr < FLASH_SIZE,
        ;
        let mut i: usize = 0;
        while i < SECTOR_SIZE
            invariant
                i <= SECTOR_SIZE,
                base == sector_base(addr as int),
                base + SECTOR_SIZE <= FLASH_SIZE,
                self.mem@.len() == FLASH_SIZE,
                forall|j: int| base <= j < base + i ==> self.mem@[j] == ERASED,
                forall|j: int|
                    (0 <= j < base || base + i <= j < FLASH_SIZE) ==> self.mem@[j] == old(
                        self,
                    ).contents()[j],
            decreases SECTOR_SIZE - i,
        {
            self.mem.set(base + i, ERASED);
            i += 1;
        }
        proof {
            assert(self.contents() =~= sector_erased(old(self).contents(), addr as int));
        }
    }

    /// Persists `msg` at the fixed message address: erases the containing
    /// sector (programs only clear bits, so the region must first return to
    /// all ones), programs the payload in at most two page-sized writes —
    /// one page at the message address and, past one page, the remainder at
    /// the next page-aligned address — and programs the little-endian
    /// length field.  Returns the exact operation plan in issue order for
    /// the bus shell to replay against the real part.
    pub fn save_message(&mut self, msg: &[u8]) -> (ops: Vec<FlashOp>)
        requires
            old(self).wf(),
            msg@.len() <= MSG_CAPACITY,
        ensures
            final(self).wf(),
            final(self).contents() == saved_contents(old(self).contents(), msg@),
            save_plan_matches(ops@, msg@),
    {
        let mut ops: Vec<FlashOp> = Vec::new();
        self.erase_sector(MSG_ADDR);
        ops.push(FlashOp::EraseSector { addr: MSG_ADDR });
        let len = msg.len();
        if len > 0 {
            let first = if len > PAGE_SIZE {
                PAGE_SIZE
            } else {
                len
            };
            let chunk = copy_range(msg, 0, first);
            self.write(MSG_ADDR, chunk.as_slice());
            ops.push(FlashOp::Program { addr: MSG_ADDR, data: chunk });
        }
        if len > PAGE_SIZE {
            let rest = copy_range(msg, PAGE_SIZE, len);
            self.write(PAGE_SIZE as u32, rest.as_slice());
            ops.push(FlashOp::Program { addr: PAGE_SIZE as u32, data: rest });
        }
        let len_bytes = encode_len(len as u32);
        self.write(MSG_LEN_ADDR, len_bytes.as_slice());
        ops.push(FlashOp::Program { addr: MSG_LEN_ADDR, data: len_bytes });
        proof {
            assert(forall|b: u8| #[trigger] (ERASED & b) == b) by (bit_vector);
            assert(self.contents() =~= saved_contents(old(self).contents(), msg@));
            assert(msg@.subrange(0, msg@.len() as int) =~= msg@);
            assert(ops@[0] is EraseSector && op_addr(ops@[0]) == MSG_ADDR);
            assert(ops@.last() == ops@[ops@.len() - 1]);
            assert(op_data(ops@.last()) == le4(msg@.len()));
        }
        ops
    }

    /// Reads the persisted message back: the length field first, then, if
    /// it holds a length within capacity, the payload of that length.  A
    /// length above capacity (in particular the all-ones field of an erased
    /// part) means no valid message is stored.
    pub fn load_message(&self) -> (msg: Option<Vec<u8>>)
        requires
            self.wf(),
        ensures
            load_result(self.contents()) is Some ==> (msg is Some && msg->0@ == load_result(
                self.contents(),
            )->0),
            load_result(self.contents()) is None ==> msg is None,
    {
        let mut len_buf = zeroed_vec(4);
        self.read(MSG_LEN_ADDR, &mut len_buf);
        let n = decode_len(len_buf.as_slice());
        proof {
            assert(self.contents().subrange(MSG_LEN_ADDR as int, MSG_LEN_ADDR + 4) =~= self
                .contents().subrange(512, 516));
        }
        if n <= MSG_CAPACITY as u32 {
            let mut out = zeroed_vec(n as usize);
            self.read(MSG_ADDR, &mut out);
            proof {
                assert(out@ =~= self.contents().take(stored_len(self.contents()) as int));
            }
            Option::Some(out)
        } else {
            Option::None
        }
    }

    /// Erases the whole part back to all ones: write-enable, chip-erase
    /// command, busy-wait on the real part.
    pub fn erase_chip(&mut self)
        requires
            old(self).wf(),
        ensures
            final(self).wf(),
            final(self).contents() == erased_mem(),
    {
        let mut i: usize = 0;
        while i < FLASH_SIZE
            invariant
                i <= FLASH_SIZE,
                self.mem@.len() == FLASH_SIZE,
                forall|j: int| 0 <= j < i ==> self.mem@[j] == ERASED,
            decreases FLASH_SIZE - i,
        {
            self.mem.set(i, ERASED);
            i += 1;
        }
        proof {
            assert(self.contents() =~= erased_mem());
        }
    }
}

} // verus!
