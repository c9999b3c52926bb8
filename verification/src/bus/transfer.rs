//! DMA transfers between main RAM and the devices: MDEC in and out, GPU
//! (block and linked list), CD-ROM, SPU, and the ordering-table clear.
use super::Bus;
use crate::audio::spu::{spu_dma_read, spu_dma_written};
use crate::audio::Spu;
use crate::cdrom::{cdrom_dma_read, Cdrom};
use crate::dma::{dma_channel_completed, served_before, DmaChannel, DmaController};
use crate::gpu::{gp0_read, gp0_written, Gpu};
use crate::interrupt::{raise_if, IRQ_DMA};
use crate::mdec::{Mdec, MDEC_STATUS_FIFO_EMPTY};
use crate::MAIN_RAM_SIZE;
use vstd::prelude::*;

verus! {

broadcast use crate::bits::group_bits;

/// How a transfer ended: the address and block count to store back into
/// the channel, and whether the bus failed.
#[derive(Debug, Clone, Copy)]
pub struct DmaTransferResult {
    pub final_madr: Option<u32>,
    pub final_bcr: Option<u32>,
    pub bus_error: bool,
}

impl Default for DmaTransferResult {
    fn default() -> (r: Self)
        ensures
            r.final_madr is None && r.final_bcr is None && !r.bus_error,
    {
        DmaTransferResult { final_madr: None, final_bcr: None, bus_error: false }
    }
}

/// A 16-bit count field where zero means 0x10000.
pub open spec fn dma_count_part_spec(value: u32) -> u32 {
    if value == 0 { 0x1_0000 } else { value }
}

pub fn dma_count_part(value: u32) -> (r: u32)
    ensures
        r == dma_count_part_spec(value),
{
    if value == 0 {
        0x1_0000
    } else {
        value
    }
}

/// Words moved by a transfer: the word count in burst mode, block size
/// times block count in request mode (saturating), none in linked-list mode.
pub open spec fn dma_word_count_spec(bcr: u32, sync_mode: u32) -> u32 {
    if sync_mode == 0 {
        dma_count_part_spec(bcr % 0x1_0000)
    } else if sync_mode == 1 {
        let p = dma_count_part_spec(bcr % 0x1_0000) * dma_count_part_spec(bcr / 0x1_0000);
        if p > u32::MAX { u32::MAX } else { p as u32 }
    } else {
        0
    }
}

pub fn dma_word_count(bcr: u32, sync_mode: u32) -> (r: u32)
    ensures
        r == dma_word_count_spec(bcr, sync_mode),
{
    proof {
        crate::bits::lemma_mask_mod_u32(bcr);
        crate::bits::lemma_gpu_fields(bcr);
    }
    if sync_mode == 0 {
        dma_count_part(bcr & 0xffff)
    } else if sync_mode == 1 {
        let block_size = dma_count_part(bcr & 0xffff);
        let block_count = dma_count_part((bcr >> 16u32) & 0xffff);
        proof {
            crate::bits::lemma_mul_bounds(block_size as int, block_count as int, 0x1_0000, 0x1_0000);
            assert(block_size * block_count >= 0) by (nonlinear_arith)
                requires
                    block_size >= 0,
                    block_count >= 0,
            ;
        }
        let p: u64 = block_size as u64 * block_count as u64;
        if p > u32::MAX as u64 {
            u32::MAX
        } else {
            p as u32
        }
    } else {
        0
    }
}

/// Request-mode transfers report their final address and the block size
/// left in BCR; other modes leave the channel's registers alone.
pub open spec fn dma_transfer_result_spec(ch: DmaChannel, final_addr: u32) -> DmaTransferResult {
    if ch.spec_sync_mode() == 1 {
        DmaTransferResult { final_madr: Some(final_addr), final_bcr: Some(ch.bcr & 0x0000_ffff), bus_error: false }
    } else {
        DmaTransferResult { final_madr: None, final_bcr: None, bus_error: false }
    }
}

pub fn dma_transfer_result(ch: DmaChannel, final_addr: u32) -> (r: DmaTransferResult)
    ensures
        r == dma_transfer_result_spec(ch, final_addr),
{
    if ch.sync_mode() == 1 {
        DmaTransferResult { final_madr: Some(final_addr), final_bcr: Some(ch.bcr & 0x0000_ffff), bus_error: false }
    } else {
        DmaTransferResult { final_madr: None, final_bcr: None, bus_error: false }
    }
}

/// The little-endian word of main RAM at a DMA address (wrapping at 2 MiB).
pub open spec fn dma_ram_word(ram: Seq<u8>, addr: u32) -> u32 {
    let i = (addr % 0x20_0000) as int;
    (ram[i] as u32) | ((ram[(i + 1) % 0x20_0000] as u32) << 8u32) | ((ram[(i + 2) % 0x20_0000] as u32) << 16u32) | ((
    ram[(i + 3) % 0x20_0000] as u32) << 24u32)
}

/// The next DMA address in RAM, word aligned.
pub open spec fn dma_next_addr(addr: u32, step: u32) -> u32 {
    ((addr + step) % 0x1_0000_0000) as u32 & 0x001f_fffc
}

/// The RAM address of word `k` of a transfer that starts at `madr` and
/// moves by `step` bytes per word.
pub open spec fn dma_addr_at(madr: u32, step: u32, k: int) -> u32
    decreases k,
{
    if k <= 0 {
        madr & 0x001f_fffc
    } else {
        dma_next_addr(dma_addr_at(madr, step, k - 1), step)
    }
}

/// The address step of a block transfer: one word back or one word on.
pub open spec fn dma_step(ch: DmaChannel) -> u32 {
    if ch.spec_step_backwards() { 0xffff_fffcu32 } else { 4u32 }
}

/// The number of words a channel's block transfer moves.
pub open spec fn dma_count(ch: DmaChannel) -> int {
    dma_word_count_spec(ch.bcr, ch.spec_sync_mode()) as int
}

/// Main RAM with a little-endian word stored at a DMA address (wrapping at 2 MiB).
pub open spec fn ram_word_written(ram: Seq<u8>, addr: u32, value: u32) -> Seq<u8> {
    let i = (addr % 0x20_0000) as int;
    ram.update(i, value as u8).update((i + 1) % 0x20_0000, (value >> 8u32) as u8).update(
        (i + 2) % 0x20_0000,
        (value >> 16u32) as u8,
    ).update((i + 3) % 0x20_0000, (value >> 24u32) as u8)
}

/// The result of a transfer that did nothing.
pub open spec fn no_transfer() -> DmaTransferResult {
    DmaTransferResult { final_madr: None, final_bcr: None, bus_error: false }
}

/// DMA0: the words from RAM go to the MDEC's command port; it keeps the last
/// one and leaves the FIFO-empty state.
pub open spec fn mdec_in_transfer(o: Bus, ch: DmaChannel, n: Bus, r: DmaTransferResult) -> bool {
    let count = dma_count(ch);
    &&& n == (Bus { mdec: n.mdec, ..o })
    &&& !ch.spec_from_ram() ==> n == o && r == no_transfer()
    &&& ch.spec_from_ram() ==> {
        &&& r == dma_transfer_result_spec(ch, dma_addr_at(ch.madr, 4, count))
        &&& count == 0 ==> n.mdec == o.mdec
        &&& count > 0 ==> n.mdec == (Mdec {
            command: dma_ram_word(o.ram@, dma_addr_at(ch.madr, 4, count - 1)),
            status: o.mdec.status & !MDEC_STATUS_FIFO_EMPTY,
        })
    }
}

/// RAM after the first `k` words of a DMA1 transfer, each a zero read from
/// the MDEC's data port.
pub open spec fn mdec_out_ram(ram: Seq<u8>, madr: u32, k: int) -> Seq<u8>
    decreases k,
{
    if k <= 0 {
        ram
    } else {
        ram_word_written(mdec_out_ram(ram, madr, k - 1), dma_addr_at(madr, 4, k - 1), 0)
    }
}

/// DMA1: RAM receives the MDEC's output words.
pub open spec fn mdec_out_transfer(o: Bus, ch: DmaChannel, n: Bus, r: DmaTransferResult) -> bool {
    let count = dma_count(ch);
    &&& n == (Bus { ram: n.ram, ..o })
    &&& ch.spec_from_ram() ==> n == o && r == no_transfer()
    &&& !ch.spec_from_ram() ==> {
        &&& r == dma_transfer_result_spec(ch, dma_addr_at(ch.madr, 4, count))
        &&& n.ram@ == mdec_out_ram(o.ram@, ch.madr, count)
    }
}

/// Word `k` of a DMA2 block transfer: a RAM word written to GP0, or a
/// GPUREAD word stored to RAM.
pub open spec fn gpu_dma_step(ch: DmaChannel, gpus: Seq<Gpu>, rams: Seq<Seq<u8>>, words: Seq<u32>, k: int) -> bool {
    let a = dma_addr_at(ch.madr, dma_step(ch), k);
    if ch.spec_from_ram() {
        &&& words[k] == dma_ram_word(rams[k], a)
        &&& gp0_written(gpus[k], words[k], gpus[k + 1])
        &&& rams[k + 1] == rams[k]
    } else {
        &&& gp0_read(gpus[k], gpus[k + 1], words[k])
        &&& rams[k + 1] == ram_word_written(rams[k], a, words[k])
    }
}

/// DMA2 in block or request mode: the words go one by one between RAM and the GPU.
pub open spec fn gpu_transfer(o: Bus, ch: DmaChannel, n: Bus, r: DmaTransferResult) -> bool {
    let count = dma_count(ch);
    &&& n == (Bus { gpu: n.gpu, ram: n.ram, ..o })
    &&& r == dma_transfer_result_spec(ch, dma_addr_at(ch.madr, dma_step(ch), count))
    &&& exists|gpus: Seq<Gpu>, rams: Seq<Seq<u8>>, words: Seq<u32>|
        #![trigger gpus.len(), rams.len(), words.len()]
        {
            &&& gpus.len() == count + 1
            &&& rams.len() == count + 1
            &&& words.len() == count
            &&& gpus[0] == o.gpu
            &&& rams[0] == o.ram@
            &&& forall|k: int| 0 <= k < count ==> #[trigger] gpu_dma_step(ch, gpus, rams, words, k)
            &&& gpus[count] == n.gpu
            &&& rams[count] == n.ram@
        }
}

/// Word `k` of a DMA3 transfer: a word of sector data stored to RAM.
pub open spec fn cdrom_dma_step(ch: DmaChannel, drives: Seq<Cdrom>, rams: Seq<Seq<u8>>, words: Seq<u32>, k: int) -> bool {
    &&& cdrom_dma_read(drives[k], drives[k + 1], words[k])
    &&& drives[k + 1].wf()
    &&& rams[k + 1] == ram_word_written(rams[k], dma_addr_at(ch.madr, 4, k), words[k])
}

/// DMA3: sector data from the drive to RAM.
pub open spec fn cdrom_transfer(o: Bus, ch: DmaChannel, n: Bus, r: DmaTransferResult) -> bool {
    let count = dma_count(ch);
    &&& n == (Bus { cdrom: n.cdrom, ram: n.ram, ..o })
    &&& ch.spec_from_ram() ==> n == o && r == no_transfer()
    &&& !ch.spec_from_ram() ==> {
        &&& r == dma_transfer_result_spec(ch, dma_addr_at(ch.madr, 4, count))
        &&& exists|drives: Seq<Cdrom>, rams: Seq<Seq<u8>>, words: Seq<u32>|
            #![trigger drives.len(), rams.len(), words.len()]
            {
                &&& drives.len() == count + 1
                &&& rams.len() == count + 1
                &&& words.len() == count
                &&& drives[0] == o.cdrom
                &&& rams[0] == o.ram@
                &&& forall|k: int| 0 <= k < count ==> #[trigger] cdrom_dma_step(ch, drives, rams, words, k)
                &&& drives[count] == n.cdrom
                &&& rams[count] == n.ram@
            }
    }
}

/// Word `k` of a DMA4 transfer: a RAM word written to sound RAM, or a
/// sound RAM word stored to RAM.
pub open spec fn spu_dma_step(ch: DmaChannel, spus: Seq<Spu>, rams: Seq<Seq<u8>>, words: Seq<u32>, k: int) -> bool {
    let a = dma_addr_at(ch.madr, 4, k);
    &&& spus[k + 1].wf()
    &&& if ch.spec_from_ram() {
        &&& words[k] == dma_ram_word(rams[k], a)
        &&& spu_dma_written(spus[k], words[k], spus[k + 1])
        &&& rams[k + 1] == rams[k]
    } else {
        &&& spu_dma_read(spus[k], spus[k + 1], words[k])
        &&& rams[k + 1] == ram_word_written(rams[k], a, words[k])
    }
}

/// DMA4: words between RAM and sound RAM.
pub open spec fn spu_transfer(o: Bus, ch: DmaChannel, n: Bus, r: DmaTransferResult) -> bool {
    let count = dma_count(ch);
    &&& n == (Bus { spu: n.spu, ram: n.ram, ..o })
    &&& r == dma_transfer_result_spec(ch, dma_addr_at(ch.madr, 4, count))
    &&& exists|spus: Seq<Spu>, rams: Seq<Seq<u8>>, words: Seq<u32>|
        #![trigger spus.len(), rams.len(), words.len()]
        {
            &&& spus.len() == count + 1
            &&& rams.len() == count + 1
            &&& words.len() == count
            &&& spus[0] == o.spu
            &&& rams[0] == o.ram@
            &&& forall|k: int| 0 <= k < count ==> #[trigger] spu_dma_step(ch, spus, rams, words, k)
            &&& spus[count] == n.spu
            &&& rams[count] == n.ram@
        }
}

/// The words of the DMA2 linked-list node at `addr`: the header's top byte
/// counts them, and they follow the header.
pub open spec fn list_node_words(ram: Seq<u8>, addr: u32) -> Seq<u32> {
    let header = dma_ram_word(ram, addr);
    Seq::new((header >> 24u32) as nat, |i: int| dma_ram_word(ram, ((addr + 4 + i * 4) % 0x1_0000_0000) as u32))
}

/// The words that a linked-list walk sends to GP0 from the node at `addr`
/// on, `visited` nodes into the walk: up to the node with the end marker,
/// or up to the node that exhausts the guard.
pub open spec fn list_words(ram: Seq<u8>, addr: u32, visited: int) -> Seq<u32>
    decreases 0x20000 - visited,
{
    let header = dma_ram_word(ram, addr);
    if header & 0x0080_0000 != 0 || visited >= 0x20000 {
        list_node_words(ram, addr)
    } else {
        list_node_words(ram, addr) + list_words(ram, header & 0x001f_fffc, visited + 1)
    }
}

/// The address a linked-list walk from `addr` reports when it stops.
pub open spec fn list_end(ram: Seq<u8>, addr: u32, visited: int) -> u32
    decreases 0x20000 - visited,
{
    let header = dma_ram_word(ram, addr);
    if header & 0x0080_0000 != 0 {
        header & 0x00ff_fffc
    } else if visited >= 0x20000 {
        header & 0x001f_fffc
    } else {
        list_end(ram, header & 0x001f_fffc, visited + 1)
    }
}

/// Word `k` of a stream reaches GP0.
pub open spec fn gp0_link(gpus: Seq<Gpu>, words: Seq<u32>, k: int) -> bool {
    gp0_written(gpus[k], words[k], gpus[k + 1])
}

/// The GPU after GP0 receives `words` in order.
pub open spec fn gp0_stream(g: Gpu, words: Seq<u32>, g2: Gpu) -> bool {
    exists|gpus: Seq<Gpu>|
        {
            &&& gpus.len() == words.len() + 1
            &&& gpus[0] == g
            &&& gpus.last() == g2
            &&& forall|k: int| 0 <= k < words.len() ==> #[trigger] gp0_link(gpus, words, k)
        }
}

/// DMA2 in linked-list mode from `start`.
pub open spec fn gpu_list_transfer(o: Bus, start: u32, n: Bus, r: DmaTransferResult) -> bool {
    let head = start & 0x001f_fffc;
    &&& n == (Bus { gpu: n.gpu, ..o })
    &&& r == (DmaTransferResult {
        final_madr: Some(list_end(o.ram@, head, 0)),
        final_bcr: None,
        bus_error: false,
    })
    &&& gp0_stream(o.gpu, list_words(o.ram@, head, 0), n.gpu)
}

/// Channel `channel`'s transfer from bus `o`, ending at `n` with result `r`.
pub open spec fn channel_transfer(o: Bus, channel: int, n: Bus, r: DmaTransferResult) -> bool {
    let ch = o.dma.channels[channel];
    if channel == 0 {
        mdec_in_transfer(o, ch, n, r)
    } else if channel == 1 {
        mdec_out_transfer(o, ch, n, r)
    } else if channel == 2 && ch.spec_sync_mode() == 2 && ch.spec_from_ram() {
        gpu_list_transfer(o, ch.madr, n, r)
    } else if channel == 2 {
        gpu_transfer(o, ch, n, r)
    } else if channel == 3 {
        cdrom_transfer(o, ch, n, r)
    } else if channel == 4 {
        spu_transfer(o, ch, n, r)
    } else if channel == 6 {
        &&& n == (Bus { ram: n.ram, ..o })
        &&& otc_cleared(o.ram@, n.ram@, ch.madr, otc_count(ch.bcr), otc_count(ch.bcr))
        &&& r == no_transfer()
    } else {
        n == o && r == no_transfer()
    }
}

/// One run of a channel: its transfer, then its completion with the
/// registers the transfer reported, and the DMA interrupt requested when the
/// master flag rises.
pub open spec fn dma_ran(o: Bus, channel: int, n: Bus) -> bool {
    exists|mid: Bus, res: DmaTransferResult|
        {
            &&& #[trigger] channel_transfer(o, channel, mid, res)
            &&& n == (Bus { dma: n.dma, irq: n.irq, ..mid })
            &&& dma_channel_completed(
                mid.dma,
                channel as usize,
                res.final_madr,
                res.final_bcr,
                res.bus_error,
                n.dma,
                !mid.dma.spec_master_irq() && n.dma.spec_master_irq(),
            )
            &&& n.irq.spec_mask() == mid.irq.spec_mask()
            &&& n.irq.spec_status() == raise_if(
                mid.irq.spec_status(),
                !mid.dma.spec_master_irq() && n.dma.spec_master_irq(),
                IRQ_DMA,
            )
        }
}

/// Channel `c` is the ready channel that the controller serves first.
pub open spec fn next_pending(d: DmaController, c: int) -> bool {
    &&& 0 <= c < 7
    &&& d.eligible(c)
    &&& forall|j: int|
        0 <= j < 7 && #[trigger] d.eligible(j) ==> served_before(d.spec_priority(c), c, d.spec_priority(j), j)
}

/// Run `i` of a series: the first-served ready channel runs.
pub open spec fn pending_run_step(states: Seq<Bus>, i: int) -> bool {
    exists|c: int| next_pending(states[i].dma, c) && #[trigger] dma_ran(states[i], c, states[i + 1])
}

/// The ready channels run one after another, the first-served first, until
/// none is ready or 33 have run.
pub open spec fn pending_dma_ran(o: Bus, n: Bus) -> bool {
    exists|states: Seq<Bus>|
        {
            &&& 1 <= states.len() <= 34
            &&& states[0] == o
            &&& states.last() == n
            &&& forall|i: int| 0 <= i < states.len() - 1 ==> #[trigger] pending_run_step(states, i)
            &&& states.len() < 34 ==> forall|j: int| 0 <= j < 7 ==> !#[trigger] n.dma.eligible(j)
        }
}

/// The word address of entry `i` of an ordering table cleared from `madr`:
/// one word further down per entry, wrapping within main RAM.
#[verifier::opaque]
pub open spec fn otc_entry(madr: u32, i: int) -> int {
    4 * (((madr & 0x001f_fffc) / 4 - i) % 0x8_0000)
}

/// The number of entries an ordering-table clear writes: BCR's low half,
/// at least one.
pub open spec fn otc_count(bcr: u32) -> int {
    if bcr & 0xffff < 1 { 1 } else { (bcr & 0xffff) as int }
}

/// What entry `i` of `count` holds: the address of the entry below it, or
/// the end marker 0xffffff in the last one.
pub open spec fn otc_value(madr: u32, count: int, i: int) -> u32 {
    if i == count - 1 { 0x00ff_ffffu32 } else { otc_entry(madr, i + 1) as u32 }
}

/// RAM once the first `n` of `count` ordering-table entries are written:
/// each holds its value, and every byte outside them is as it was.
pub open spec fn otc_cleared(before: Seq<u8>, after: Seq<u8>, madr: u32, count: int, n: int) -> bool {
    &&& after.len() == before.len()
    &&& forall|k: int| 0 <= k < n ==> #[trigger] dma_ram_word(after, otc_entry(madr, k) as u32) == otc_value(madr, count, k)
    &&& forall|b: int|
        0 <= b < before.len() && (forall|k: int| 0 <= k < n ==> !(#[trigger] otc_entry(madr, k) <= b < otc_entry(madr, k) + 4))
            ==> #[trigger] after[b] == before[b]
}

/// Entries lie word-aligned in main RAM, the first at MADR's word and each
/// one word below the last, wrapping.
proof fn lemma_otc_entry(madr: u32, i: int)
    requires
        0 <= i,
    ensures
        0 <= otc_entry(madr, i) <= 0x1f_fffc,
        otc_entry(madr, i) % 4 == 0,
        otc_entry(madr, 0) == (madr & 0x001f_fffc) as int,
        otc_entry(madr, i + 1) == if otc_entry(madr, i) >= 4 { otc_entry(madr, i) - 4 } else { 0x1f_fffc },
{
    reveal(otc_entry);
    let base = (madr & 0x001f_fffc) as int;
    lemma_word_masks(0, madr);
    let w = base / 4;
    vstd::arithmetic::div_mod::lemma_fundamental_div_mod(base, 4);
    let m: int = 0x8_0000;
    vstd::arithmetic::div_mod::lemma_fundamental_div_mod(w - i, m);
    vstd::arithmetic::div_mod::lemma_fundamental_div_mod(w - (i + 1), m);
    let ri = (w - i) % m;
    let rn = (w - (i + 1)) % m;
    let qi = (w - i) / m;
    let qn = (w - (i + 1)) / m;
    assert(qn == qi || qn == qi - 1) by (nonlinear_arith)
        requires
            w - i == m * qi + ri,
            w - (i + 1) == m * qn + rn,
            0 <= ri < m,
            0 <= rn < m,
            m == 0x8_0000,
    ;
    vstd::arithmetic::div_mod::lemma_small_mod(w as nat, m as nat);
}

/// No two entries of a table of at most 0x10000 share a word.
proof fn lemma_otc_entries_distinct(madr: u32, k: int, i: int)
    requires
        0 <= k < i < 0x1_0000,
    ensures
        otc_entry(madr, k) != otc_entry(madr, i),
{
    reveal(otc_entry);
    let w = (madr & 0x001f_fffc) as int / 4;
    let m: int = 0x8_0000;
    vstd::arithmetic::div_mod::lemma_fundamental_div_mod(w - i, m);
    vstd::arithmetic::div_mod::lemma_fundamental_div_mod(w - k, m);
    let ri = (w - i) % m;
    let rk = (w - k) % m;
    let qi = (w - i) / m;
    let qk = (w - k) / m;
    assert(rk != ri) by (nonlinear_arith)
        requires
            w - i == m * qi + ri,
            w - k == m * qk + rk,
            0 <= ri < m,
            0 <= rk < m,
            0 < i - k < 0x1_0000,
            m == 0x8_0000,
    ;
}

/// Writing one aligned word of RAM leaves every other aligned word as it was.
proof fn lemma_other_word_kept(cur: Seq<u8>, next: Seq<u8>, a: int, v: u32, e: int)
    requires
        cur.len() == 0x20_0000,
        0 <= a <= 0x1f_fffc && a % 4 == 0,
        0 <= e <= 0x1f_fffc && e % 4 == 0,
        e != a,
        next == cur.update(a, v as u8).update(a + 1, (v >> 8u32) as u8).update(a + 2, (v >> 16u32) as u8).update(
            a + 3,
            (v >> 24u32) as u8,
        ),
    ensures
        dma_ram_word(next, e as u32) == dma_ram_word(cur, e as u32),
{
    assert(e + 4 <= a || a + 4 <= e);
    assert((e as u32) % 0x20_0000 == e);
    assert(next[e] == cur[e] && next[e + 1] == cur[e + 1] && next[e + 2] == cur[e + 2] && next[e + 3] == cur[e + 3]);
}

/// Writing entry `i` extends a partly cleared ordering table by one entry.
proof fn lemma_otc_step(before: Seq<u8>, cur: Seq<u8>, next: Seq<u8>, madr: u32, count: int, i: int)
    requires
        before.len() == 0x20_0000,
        0 <= i < count <= 0xffff,
        otc_cleared(before, cur, madr, count, i),
        ({
            let a = otc_entry(madr, i);
            let v = otc_value(madr, count, i);
            next == cur.update(a, v as u8).update((a + 1) % 0x20_0000, (v >> 8u32) as u8).update(
                (a + 2) % 0x20_0000,
                (v >> 16u32) as u8,
            ).update((a + 3) % 0x20_0000, (v >> 24u32) as u8)
        }),
    ensures
        otc_cleared(before, next, madr, count, i + 1),
{
    let a = otc_entry(madr, i);
    let v = otc_value(madr, count, i);
    lemma_otc_entry(madr, i);
    assert((a + 1) % 0x20_0000 == a + 1 && (a + 2) % 0x20_0000 == a + 2 && (a + 3) % 0x20_0000 == a + 3);
    assert(next == cur.update(a, v as u8).update(a + 1, (v >> 8u32) as u8).update(a + 2, (v >> 16u32) as u8).update(
        a + 3,
        (v >> 24u32) as u8,
    ));
    assert(dma_ram_word(next, a as u32) == v) by {
        crate::bus::lemma_word_of_bytes(v);
        assert((a as u32) % 0x20_0000 == a);
    }
    assert forall|k: int| 0 <= k < i + 1 implies #[trigger] dma_ram_word(next, otc_entry(madr, k) as u32) == otc_value(
        madr,
        count,
        k,
    ) by {
        if k < i {
            lemma_otc_entries_distinct(madr, k, i);
            lemma_otc_entry(madr, k);
            lemma_other_word_kept(cur, next, a, v, otc_entry(madr, k));
        }
    }
    assert forall|b: int|
        0 <= b < before.len() && (forall|k: int| 0 <= k < i + 1 ==> !(#[trigger] otc_entry(madr, k) <= b < otc_entry(madr, k) + 4))
            implies #[trigger] next[b] == before[b] by {
        assert(!(otc_entry(madr, i) <= b < otc_entry(madr, i) + 4));
        assert(forall|k: int| 0 <= k < i ==> !(#[trigger] otc_entry(madr, k) <= b < otc_entry(madr, k) + 4));
    }
}

/// A masked DMA address is an aligned RAM address; one word below an
/// aligned RAM address, wrapping within main RAM, is the same under both
/// masks the clear uses.
proof fn lemma_word_masks(a: u32, madr: u32)
    by (bit_vector)
    requires
        a % 4 == 0,
        a <= 0x1f_fffc,
    ensures
        (madr & 0x001f_fffc) % 4 == 0 && (madr & 0x001f_fffc) <= 0x1f_fffc,
        a >= 4 ==> ((a - 4) as u32) & 0x001f_fffc == (a - 4) as u32 && ((a - 4) as u32) & 0x001f_ffff == (a - 4) as u32,
        a < 4 ==> ((a - 4 + 0x1_0000_0000) as u32) & 0x001f_fffc == 0x1f_fffc && ((a - 4 + 0x1_0000_0000) as u32)
            & 0x001f_ffff == 0x1f_fffc,
{
}

impl Bus {
    pub(crate) fn read_ram32(&self, addr: u32) -> (r: u32)
        requires
            self.wf(),
        ensures
            r == dma_ram_word(self.ram@, addr),
    {
        proof {
            crate::bits::lemma_mask_mod_usize(addr as usize);
        }
        let index = (addr as usize) & (MAIN_RAM_SIZE - 1);
        let b0 = self.ram[index] as u32;
        let b1 = self.ram[(index + 1) % MAIN_RAM_SIZE] as u32;
        let b2 = self.ram[(index + 2) % MAIN_RAM_SIZE] as u32;
        let b3 = self.ram[(index + 3) % MAIN_RAM_SIZE] as u32;
        b0 | (b1 << 8u32) | (b2 << 16u32) | (b3 << 24u32)
    }

    pub(crate) fn write_ram32(&mut self, addr: u32, value: u32)
        requires
            old(self).wf(),
        ensures
            final(self).wf(),
            ({
                let i = (addr % 0x20_0000) as int;
                final(self).ram@ == old(self).ram@.update(i, value as u8).update((i + 1) % 0x20_0000, (value >> 8u32) as u8).update(
                    (i + 2) % 0x20_0000,
                    (value >> 16u32) as u8,
                ).update((i + 3) % 0x20_0000, (value >> 24u32) as u8)
            }),
            *final(self) == (Bus { ram: final(self).ram, ..*old(self) }),
            final(self).ram@ == ram_word_written(old(self).ram@, addr, value),
    {
        proof {
            crate::bits::lemma_mask_mod_usize(addr as usize);
        }
        let index = (addr as usize) & (MAIN_RAM_SIZE - 1);
        self.ram.set(index, value as u8);
        self.ram.set((index + 1) % MAIN_RAM_SIZE, (value >> 8u32) as u8);
        self.ram.set((index + 2) % MAIN_RAM_SIZE, (value >> 16u32) as u8);
        self.ram.set((index + 3) % MAIN_RAM_SIZE, (value >> 24u32) as u8);
    }

    /// Runs every channel that is ready, in priority order, up to 33 transfers.
    pub(crate) fn run_pending_dma(&mut self)
        requires
            old(self).wf(),
        ensures
            final(self).wf(),
            final(self).scratchpad@ == old(self).scratchpad@,
            final(self).cache_control == old(self).cache_control,
            final(self).open_bus == old(self).open_bus,
            pending_dma_ran(*old(self), *final(self)),
    {
        let mut guard: usize = 0;
        let ghost mut states: Seq<Bus> = seq![*self];
        loop
            invariant_except_break
                guard <= 32,
            invariant
                self.wf(),
                self.scratchpad@ == old(self).scratchpad@,
                self.cache_control == old(self).cache_control,
                self.open_bus == old(self).open_bus,
                guard <= 33,
                states.len() == guard + 1,
                states[0] == *old(self),
                states[guard as int] == *self,
                forall|i: int| 0 <= i < guard ==> #[trigger] pending_run_step(states, i),
            ensures
                guard == 33 || forall|j: int| 0 <= j < 7 ==> !#[trigger] self.dma.eligible(j),
            decreases 32 - guard,
        {
            match self.dma.next_pending_channel() {
                Some(channel) => {
                    let ghost before = *self;
                    let ghost prev = states;
                    self.run_dma(channel);
                    proof {
                        assert(next_pending(before.dma, channel as int));
                        states = states.push(*self);
                        assert(states[guard as int] == before && states[guard + 1] == *self);
                        assert(pending_run_step(states, guard as int));
                        assert forall|i: int| 0 <= i < guard + 1 implies #[trigger] pending_run_step(states, i) by {
                            if i < guard {
                                assert(pending_run_step(prev, i));
                                assert(states[i] == prev[i] && states[i + 1] == prev[i + 1]);
                            }
                        }
                    }
                    guard += 1;
                    if guard > 32 {
                        break;
                    }
                },
                None => {
                    break;
                },
            }
        }
        proof {
            assert(states.last() == *self);
        }
    }

    /// Runs one channel's transfer and completes it, raising the DMA
    /// interrupt when the master flag rises.
    fn run_dma(&mut self, channel: usize)
        requires
            old(self).wf(),
            channel < 7,
        ensures
            final(self).wf(),
            final(self).scratchpad@ == old(self).scratchpad@,
            final(self).cache_control == old(self).cache_control,
            final(self).open_bus == old(self).open_bus,
            dma_ran(*old(self), channel as int, *final(self)),
    {
        let ch = self.dma.channel(channel);
        let result = if channel == 0 {
            self.run_mdec_in_dma(ch)
        } else if channel == 1 {
            self.run_mdec_out_dma(ch)
        } else if channel == 2 && ch.sync_mode() == 2 && ch.from_ram() {
            self.run_gpu_linked_list_dma(ch.madr)
        } else if channel == 2 {
            self.run_gpu_dma(ch)
        } else if channel == 3 {
            self.run_cdrom_dma(ch)
        } else if channel == 4 {
            self.run_spu_dma(ch)
        } else if channel == 6 {
            self.run_otc_dma(ch)
        } else {
            DmaTransferResult::default()
        };
        let ghost mid = *self;
        proof {
            assert(channel_transfer(*old(self), channel as int, mid, result));
        }
        if self.dma.complete_channel(channel, result.final_madr, result.final_bcr, result.bus_error) {
            self.irq.request(IRQ_DMA);
        }
    }

    fn run_mdec_in_dma(&mut self, ch: DmaChannel) -> (r: DmaTransferResult)
        requires
            old(self).wf(),
        ensures
            final(self).wf(),
            mdec_in_transfer(*old(self), ch, *final(self), r),
    {
        if !ch.from_ram() {
            return DmaTransferResult::default();
        }
        let mut addr = ch.madr & 0x001f_fffc;
        let count = dma_word_count(ch.bcr, ch.sync_mode());
        let mut k: u32 = 0;
        while k < count
            invariant
                self.wf(),
                *self == (Bus { mdec: self.mdec, ..*old(self) }),
                ch.spec_from_ram(),
                count as int == dma_count(ch),
                k <= count,
                addr == dma_addr_at(ch.madr, 4, k as int),
                k == 0 ==> self.mdec == old(self).mdec,
                k > 0 ==> self.mdec == (Mdec {
                    command: dma_ram_word(old(self).ram@, dma_addr_at(ch.madr, 4, k - 1)),
                    status: old(self).mdec.status & !MDEC_STATUS_FIFO_EMPTY,
                }),
            decreases count - k,
        {
            let word = self.read_ram32(addr);
            self.mdec.write_data(word);
            proof {
                crate::bits::lemma_gpu_fields(old(self).mdec.status);
            }
            addr = addr.wrapping_add(4) & 0x001f_fffc;
            k += 1;
        }
        dma_transfer_result(ch, addr)
    }

    fn run_mdec_out_dma(&mut self, ch: DmaChannel) -> (r: DmaTransferResult)
        requires
            old(self).wf(),
        ensures
            final(self).wf(),
            mdec_out_transfer(*old(self), ch, *final(self), r),
    {
        if ch.from_ram() {
            return DmaTransferResult::default();
        }
        let mut addr = ch.madr & 0x001f_fffc;
        let count = dma_word_count(ch.bcr, ch.sync_mode());
        let mut k: u32 = 0;
        while k < count
            invariant
                self.wf(),
                *self == (Bus { ram: self.ram, ..*old(self) }),
                !ch.spec_from_ram(),
                count as int == dma_count(ch),
                k <= count,
                addr == dma_addr_at(ch.madr, 4, k as int),
                self.ram@ == mdec_out_ram(old(self).ram@, ch.madr, k as int),
            decreases count - k,
        {
            let word = self.mdec.read_data();
            self.write_ram32(addr, word);
            addr = addr.wrapping_add(4) & 0x001f_fffc;
            k += 1;
        }
        dma_transfer_result(ch, addr)
    }

    /// DMA2 linked list: each node's header gives its word count (top byte)
    /// and the next node; the words go to GP0 until the end marker, with a
    /// guard against endless lists.
    fn run_gpu_linked_list_dma(&mut self, start: u32) -> (r: DmaTransferResult)
        requires
            old(self).wf(),
        ensures
            final(self).wf(),
            gpu_list_transfer(*old(self), start, *final(self), r),
    {
        let mut addr = start & 0x001f_fffc;
        let mut guard: usize = 0;
        let mut final_madr: u32 = 0;
        let ghost ram = self.ram@;
        let ghost head = addr;
        let ghost mut sent: Seq<u32> = Seq::empty();
        let ghost mut gpus: Seq<Gpu> = seq![self.gpu];
        loop
            invariant_except_break
                guard <= 0x20000,
                sent + list_words(ram, addr, guard as int) == list_words(ram, head, 0),
                list_end(ram, addr, guard as int) == list_end(ram, head, 0),
            invariant
                self.wf(),
                *self == (Bus { gpu: self.gpu, ..*old(self) }),
                ram == old(self).ram@,
                head == start & 0x001f_fffc,
                gpus.len() == sent.len() + 1,
                gpus[0] == old(self).gpu,
                gpus.last() == self.gpu,
                forall|k: int| 0 <= k < sent.len() ==> #[trigger] gp0_link(gpus, sent, k),
            ensures
                sent == list_words(ram, head, 0),
                final_madr == list_end(ram, head, 0),
            decreases 0x20000 - guard,
        {
            let header = self.read_ram32(addr);
            proof {
                crate::bits::lemma_gpu_fields(header);
            }
            let words = header >> 24u32;
            let ghost sent_before = sent;
            let mut i: u32 = 0;
            while i < words
                invariant
                    self.wf(),
                    *self == (Bus { gpu: self.gpu, ..*old(self) }),
                    ram == old(self).ram@,
                    words <= 0xff,
                    i <= words,
                    words == dma_ram_word(ram, addr) >> 24u32,
                    sent == sent_before + list_node_words(ram, addr).take(i as int),
                    gpus.len() == sent.len() + 1,
                    gpus[0] == old(self).gpu,
                    gpus.last() == self.gpu,
                    forall|k: int| 0 <= k < sent.len() ==> #[trigger] gp0_link(gpus, sent, k),
                decreases words - i,
            {
                let word = self.read_ram32(addr.wrapping_add(4 + i * 4));
                let ghost prev_gpus = gpus;
                let ghost prev_sent = sent;
                self.gpu.write_gp0(word);
                proof {
                    gpus = gpus.push(self.gpu);
                    sent = sent.push(word);
                    assert(list_node_words(ram, addr)[i as int] == word);
                    assert(sent =~= sent_before + list_node_words(ram, addr).take(i + 1));
                    assert(gp0_link(gpus, sent, prev_sent.len() as int));
                    assert forall|k: int| 0 <= k < sent.len() implies #[trigger] gp0_link(gpus, sent, k) by {
                        if k < prev_sent.len() {
                            assert(gp0_link(prev_gpus, prev_sent, k));
                            assert(gpus[k] == prev_gpus[k] && gpus[k + 1] == prev_gpus[k + 1] && sent[k] == prev_sent[k]);
                        }
                    }
                }
                i += 1;
            }
            proof {
                assert(list_node_words(ram, addr).take(words as int) =~= list_node_words(ram, addr));
            }
            if (header & 0x0080_0000) != 0 {
                final_madr = header & 0x00ff_fffc;
                break;
            }
            let ghost prev_addr = addr;
            addr = header & 0x001f_fffc;
            guard += 1;
            if guard > 0x20000 {
                final_madr = addr;
                break;
            }
            proof {
                assert(list_words(ram, prev_addr, guard - 1) == list_node_words(ram, prev_addr) + list_words(
                    ram,
                    addr,
                    guard as int,
                ));
                assert(sent + list_words(ram, addr, guard as int) =~= sent_before + list_words(
                    ram,
                    prev_addr,
                    guard - 1,
                ));
            }
        }
        DmaTransferResult { final_madr: Some(final_madr), final_bcr: None, bus_error: false }
    }

    fn run_gpu_dma(&mut self, ch: DmaChannel) -> (r: DmaTransferResult)
        requires
            old(self).wf(),
        ensures
            final(self).wf(),
            gpu_transfer(*old(self), ch, *final(self), r),
    {
        let mut addr = ch.madr & 0x001f_fffc;
        let count = dma_word_count(ch.bcr, ch.sync_mode());
        let step: u32 = if ch.step_backwards() { 0xffff_fffc } else { 4 };
        let mut k: u32 = 0;
        let ghost mut gpus: Seq<Gpu> = seq![self.gpu];
        let ghost mut rams: Seq<Seq<u8>> = seq![self.ram@];
        let ghost mut words: Seq<u32> = Seq::empty();
        while k < count
            invariant
                self.wf(),
                *self == (Bus { gpu: self.gpu, ram: self.ram, ..*old(self) }),
                count as int == dma_count(ch),
                step == dma_step(ch),
                k <= count,
                addr == dma_addr_at(ch.madr, step, k as int),
                gpus.len() == k + 1,
                rams.len() == k + 1,
                words.len() == k,
                gpus[0] == old(self).gpu,
                rams[0] == old(self).ram@,
                gpus[k as int] == self.gpu,
                rams[k as int] == self.ram@,
                forall|i: int| 0 <= i < k ==> #[trigger] gpu_dma_step(ch, gpus, rams, words, i),
            decreases count - k,
        {
            let ghost prev_gpus = gpus;
            let ghost prev_rams = rams;
            let ghost prev_words = words;
            let ghost word_moved: u32;
            if ch.from_ram() {
                let word = self.read_ram32(addr);
                self.gpu.write_gp0(word);
                proof {
                    word_moved = word;
                }
            } else {
                let word = self.gpu.read_gp0();
                self.write_ram32(addr, word);
                proof {
                    word_moved = word;
                }
            }
            proof {
                gpus = gpus.push(self.gpu);
                rams = rams.push(self.ram@);
                words = words.push(word_moved);
                assert(gpu_dma_step(ch, gpus, rams, words, k as int));
                assert forall|i: int| 0 <= i < k + 1 implies #[trigger] gpu_dma_step(ch, gpus, rams, words, i) by {
                    if i < k {
                        assert(gpu_dma_step(ch, prev_gpus, prev_rams, prev_words, i));
                        assert(gpus[i] == prev_gpus[i] && gpus[i + 1] == prev_gpus[i + 1]);
                        assert(rams[i] == prev_rams[i] && rams[i + 1] == prev_rams[i + 1]);
                        assert(words[i] == prev_words[i]);
                    }
                }
            }
            addr = addr.wrapping_add(step) & 0x001f_fffc;
            k += 1;
        }
        proof {
            assert(gpus.len() == dma_count(ch) + 1 && rams.len() == dma_count(ch) + 1 && words.len() == dma_count(ch));
        }
        dma_transfer_result(ch, addr)
    }

    fn run_cdrom_dma(&mut self, ch: DmaChannel) -> (r: DmaTransferResult)
        requires
            old(self).wf(),
        ensures
            final(self).wf(),
            cdrom_transfer(*old(self), ch, *final(self), r),
    {
        if ch.from_ram() {
            return DmaTransferResult::default();
        }
        let mut addr = ch.madr & 0x001f_fffc;
        let count = dma_word_count(ch.bcr, ch.sync_mode());
        let mut k: u32 = 0;
        let ghost mut drives: Seq<Cdrom> = seq![self.cdrom];
        let ghost mut rams: Seq<Seq<u8>> = seq![self.ram@];
        let ghost mut words: Seq<u32> = Seq::empty();
        while k < count
            invariant
                self.wf(),
                *self == (Bus { cdrom: self.cdrom, ram: self.ram, ..*old(self) }),
                count as int == dma_count(ch),
                k <= count,
                addr == dma_addr_at(ch.madr, 4, k as int),
                drives.len() == k + 1,
                rams.len() == k + 1,
                words.len() == k,
                drives[0] == old(self).cdrom,
                rams[0] == old(self).ram@,
                drives[k as int] == self.cdrom,
                rams[k as int] == self.ram@,
                forall|i: int| 0 <= i < k ==> #[trigger] cdrom_dma_step(ch, drives, rams, words, i),
            decreases count - k,
        {
            let ghost prev_drives = drives;
            let ghost prev_rams = rams;
            let ghost prev_words = words;
            let word = self.cdrom.dma_read32();
            self.write_ram32(addr, word);
            proof {
                drives = drives.push(self.cdrom);
                rams = rams.push(self.ram@);
                words = words.push(word);
                assert(cdrom_dma_step(ch, drives, rams, words, k as int));
                assert forall|i: int| 0 <= i < k + 1 implies #[trigger] cdrom_dma_step(ch, drives, rams, words, i) by {
                    if i < k {
                        assert(cdrom_dma_step(ch, prev_drives, prev_rams, prev_words, i));
                        assert(drives[i] == prev_drives[i] && drives[i + 1] == prev_drives[i + 1]);
                        assert(rams[i] == prev_rams[i] && rams[i + 1] == prev_rams[i + 1]);
                        assert(words[i] == prev_words[i]);
                    }
                }
            }
            addr = addr.wrapping_add(4) & 0x001f_fffc;
            k += 1;
        }
        proof {
            assert(drives.len() == dma_count(ch) + 1 && rams.len() == dma_count(ch) + 1 && words.len() == dma_count(ch));
        }
        dma_transfer_result(ch, addr)
    }

    fn run_spu_dma(&mut self, ch: DmaChannel) -> (r: DmaTransferResult)
        requires
            old(self).wf(),
        ensures
            final(self).wf(),
            spu_transfer(*old(self), ch, *final(self), r),
    {
        let mut addr = ch.madr & 0x001f_fffc;
        let count = dma_word_count(ch.bcr, ch.sync_mode());
        let mut k: u32 = 0;
        let ghost mut spus: Seq<Spu> = seq![self.spu];
        let ghost mut rams: Seq<Seq<u8>> = seq![self.ram@];
        let ghost mut words: Seq<u32> = Seq::empty();
        while k < count
            invariant
                self.wf(),
                *self == (Bus { spu: self.spu, ram: self.ram, ..*old(self) }),
                count as int == dma_count(ch),
                k <= count,
                addr == dma_addr_at(ch.madr, 4, k as int),
                spus.len() == k + 1,
                rams.len() == k + 1,
                words.len() == k,
                spus[0] == old(self).spu,
                rams[0] == old(self).ram@,
                spus[k as int] == self.spu,
                rams[k as int] == self.ram@,
                forall|i: int| 0 <= i < k ==> #[trigger] spu_dma_step(ch, spus, rams, words, i),
            decreases count - k,
        {
            let ghost prev_spus = spus;
            let ghost prev_rams = rams;
            let ghost prev_words = words;
            let ghost word_moved: u32;
            if ch.from_ram() {
                let word = self.read_ram32(addr);
                self.spu.dma_write32(word);
                proof {
                    word_moved = word;
                }
            } else {
                let word = self.spu.dma_read32();
                self.write_ram32(addr, word);
                proof {
                    word_moved = word;
                }
            }
            proof {
                spus = spus.push(self.spu);
                rams = rams.push(self.ram@);
                words = words.push(word_moved);
                assert(spu_dma_step(ch, spus, rams, words, k as int));
                assert forall|i: int| 0 <= i < k + 1 implies #[trigger] spu_dma_step(ch, spus, rams, words, i) by {
                    if i < k {
                        assert(spu_dma_step(ch, prev_spus, prev_rams, prev_words, i));
                        assert(spus[i] == prev_spus[i] && spus[i + 1] == prev_spus[i + 1]);
                        assert(rams[i] == prev_rams[i] && rams[i + 1] == prev_rams[i + 1]);
                        assert(words[i] == prev_words[i]);
                    }
                }
            }
            addr = addr.wrapping_add(4) & 0x001f_fffc;
            k += 1;
        }
        proof {
            assert(spus.len() == dma_count(ch) + 1 && rams.len() == dma_count(ch) + 1 && words.len() == dma_count(ch));
        }
        dma_transfer_result(ch, addr)
    }

    /// DMA6: builds an empty ordering table backwards from MADR: each entry
    /// points at the one below it, and the last holds the end marker 0xffffff.
    fn run_otc_dma(&mut self, ch: DmaChannel) -> (r: DmaTransferResult)
        requires
            old(self).wf(),
        ensures
            final(self).wf(),
            *final(self) == (Bus { ram: final(self).ram, ..*old(self) }),
            otc_cleared(old(self).ram@, final(self).ram@, ch.madr, otc_count(ch.bcr), otc_count(ch.bcr)),
            r.final_madr is None && r.final_bcr is None && !r.bus_error,
    {
        let count = if (ch.bcr & 0xffff) < 1 { 1 } else { ch.bcr & 0xffff };
        let mut addr = ch.madr & 0x001f_fffc;
        let mut i: u32 = 0;
        proof {
            lemma_otc_entry(ch.madr, 0);
        }
        while i < count
            invariant
                self.wf(),
                *self == (Bus { ram: self.ram, ..*old(self) }),
                1 <= count <= 0xffff,
                count == otc_count(ch.bcr),
                i <= count,
                addr == otc_entry(ch.madr, i as int),
                otc_cleared(old(self).ram@, self.ram@, ch.madr, count as int, i as int),
            decreases count - i,
        {
            let ghost cur = self.ram@;
            proof {
                lemma_otc_entry(ch.madr, i as int);
                lemma_word_masks(addr, ch.madr);
            }
            let value = if i == count - 1 {
                0x00ff_ffff
            } else {
                addr.wrapping_sub(4) & 0x001f_ffff
            };
            self.write_ram32(addr, value);
            proof {
                lemma_otc_step(old(self).ram@, cur, self.ram@, ch.madr, count as int, i as int);
            }
            addr = addr.wrapping_sub(4) & 0x001f_fffc;
            i += 1;
        }
        DmaTransferResult::default()
    }
}

} // verus!
