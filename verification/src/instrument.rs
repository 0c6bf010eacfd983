//! The instrument: identity filters, the rolling transfer tag, and the
//! protocol logic of each operation — header packing, payload chunking, and
//! selection of the device to open. Each operation's USB transport work
//! (opening the device, bulk transfers, kernel-driver handling) is done by
//! the caller around these functions.

use crate::error::UsbtmcError;
use crate::frames::{
    bulk_out_envelope, chunks_of, dev_dep_msg_in_header, dev_dep_msg_out_header, le32,
    lemma_chunks_step, next_tag, nth_tag, out_frame, USBTMC_MSGID_DEV_DEP_MSG_IN,
    USBTMC_MSGID_DEV_DEP_MSG_OUT,
};
use vstd::prelude::*;
use vstd::slice::slice_subrange;

verus! {

/// Default limit on the payload bytes of one bulk transfer: 1 MiB.
pub const DEFAULT_MAX_TRANSFER_SIZE: u32 = 1024 * 1024;

/// Default timeout of one bulk transfer, in milliseconds: one second.
pub const DEFAULT_TIMEOUT_MS: u64 = 1000;

/// What device selection reads from one enumerated USB device.
#[derive(Clone, Copy, Debug, PartialEq, Eq, Structural)]
pub struct DeviceInfo {
    pub vendor_id: u16,
    pub product_id: u16,
    pub bus_number: u8,
    pub address: u8,
}

/// A USBTMC instrument: identity filters plus the mutable protocol state.
/// No device handle is owned between calls; each operation independently
/// opens and releases the device.
pub struct Instrument {
    pub vid: u16,
    pub pid: u16,
    pub bus: Option<u8>,
    pub address: Option<u8>,
    pub last_btag: u8,
    pub max_transfer_size: u32,
    pub timeout_ms: u64,
}

impl Instrument {
    /// Internal consistency: the transfer size limit is positive, so
    /// chunking always makes progress.
    pub open spec fn wf(self) -> bool {
        self.max_transfer_size >= 1
    }

    /// Whether an enumerated device satisfies the identity filters: vendor
    /// and product id must match and, when a bus/address filter is
    /// configured, bus number and device address as well.
    pub open spec fn device_matches(self, d: DeviceInfo) -> bool {
        &&& d.vendor_id == self.vid

        &&& d.product_id == self.pid
        &&& ((self.bus is Some && self.address is Some) ==> (d.bus_number == self.bus->0
            && d.address == self.address->0))
    }

    /// Create a new Instrument with specified VID and PID.
    pub fn new(vid: u16, pid: u16) -> (r: Instrument)
        ensures
            r.vid == vid,
            r.pid == pid,
            r.bus is None,
            r.address is None,
            r.last_btag == 0,
            r.max_transfer_size == DEFAULT_MAX_TRANSFER_SIZE,
            r.timeout_ms == DEFAULT_TIMEOUT_MS,
            r.wf(),
    {
        Instrument {
            vid,
            pid,
            bus: None,
            address: None,
            last_btag: 0,
            max_transfer_size: DEFAULT_MAX_TRANSFER_SIZE,
            timeout_ms: DEFAULT_TIMEOUT_MS,
        }
    }

    /// Create a new Instrument with specified VID and PID that also filters
    /// on a bus number and device address, for telling apart several devices
    /// that share one vendor/product id.
    pub fn new_filtered(vid: u16, pid: u16, bus: u8, address: u8) -> (r: Instrument)
        ensures
            r.vid == vid,
            r.pid == pid,
            r.bus == Some(bus),
            r.address == Some(address),
            r.last_btag == 0,
            r.max_transfer_size == DEFAULT_MAX_TRANSFER_SIZE,
            r.timeout_ms == DEFAULT_TIMEOUT_MS,
            r.wf(),
    {
        Instrument {
            vid,
            pid,
            bus: Some(bus),
            address: Some(address),
            last_btag: 0,
            max_transfer_size: DEFAULT_MAX_TRANSFER_SIZE,
            timeout_ms: DEFAULT_TIMEOUT_MS,
        }
    }

    /// Return Instrument information.
    pub fn info(&self) -> (r: Result<String, UsbtmcError>)
        ensures
            r is Ok,
            r->Ok_0@ == Seq::<char>::empty(),
    {
        Ok(String::new())
    }

    /// Advance the rolling transfer tag and build the four-byte bulk-out
    /// envelope for message id `msgid`: id, tag, complement of the tag, and
    /// a reserved zero byte.
    pub fn pack_bulk_out_header(&mut self, msgid: u8) -> (r: Vec<u8>)
        ensures
            final(self).last_btag == next_tag(old(self).last_btag),
            *final(self) == (Instrument { last_btag: final(self).last_btag, ..*old(self) }),
            r@ == bulk_out_envelope(msgid, final(self).last_btag),
    {
        let btag: u8 = (self.last_btag % 255) + 1;
        self.last_btag = btag;
        let mut r: Vec<u8> = Vec::new();
        r.push(msgid);
        r.push(btag);
        r.push(!btag);
        r.push(0x00);
        proof {
            assert(r@ =~= bulk_out_envelope(msgid, btag));
        }
        r
    }

    /// The four little-endian bytes of `size`.
    pub fn little_write_u32(&self, size: u32) -> (r: Vec<u8>)
        ensures
            r@ == le32(size),
    {
        let mut r: Vec<u8> = Vec::new();
        r.push((size % 256) as u8);
        r.push(((size / 256) % 256) as u8);
        r.push(((size / 65536) % 256) as u8);
        r.push(((size / 16777216) % 256) as u8);
        proof {
            assert(r@ =~= le32(size));
        }
        r
    }

    /// Build the 12-byte DEV_DEP_MSG_OUT header for a transfer of
    /// `transfer_size` payload bytes, advancing the transfer tag.
    pub fn pack_dev_dep_msg_out_header(&mut self, transfer_size: usize, eom: bool) -> (r: Vec<u8>)
        requires
            transfer_size <= u32::MAX,
        ensures
            final(self).last_btag == next_tag(old(self).last_btag),
            *final(self) == (Instrument { last_btag: final(self).last_btag, ..*old(self) }),
            r@ == dev_dep_msg_out_header(final(self).last_btag, transfer_size as u32, eom),
    {
        let mut hdr = self.pack_bulk_out_header(USBTMC_MSGID_DEV_DEP_MSG_OUT);
        let mut size_bytes = self.little_write_u32(transfer_size as u32);
        hdr.append(&mut size_bytes);
        hdr.push(if eom { 0x01 } else { 0x00 });
        hdr.push(0x00);
        hdr.push(0x00);
        hdr.push(0x00);
        proof {
            assert(hdr@ =~= dev_dep_msg_out_header(self.last_btag, transfer_size as u32, eom));
        }
        hdr
    }

    /// Build the 12-byte DEV_DEP_MSG_IN request header asking the instrument
    /// for up to `transfer_size` response bytes, advancing the transfer tag.
    /// The term-char-enable flag is 0x02 exactly when `term_char` is set
    /// (non-zero), and the next byte carries `term_char` itself.
    pub fn pack_dev_dep_msg_in_header(&mut self, transfer_size: usize, term_char: u8) -> (r: Vec<
        u8,
    >)
        requires
            transfer_size <= u32::MAX,
        ensures
            final(self).last_btag == next_tag(old(self).last_btag),
            *final(self) == (Instrument { last_btag: final(self).last_btag, ..*old(self) }),
            r@ == dev_dep_msg_in_header(final(self).last_btag, transfer_size as u32, term_char),
    {
        let mut hdr = self.pack_bulk_out_header(USBTMC_MSGID_DEV_DEP_MSG_IN);
        let mut size_bytes = self.little_write_u32(transfer_size as u32);
        hdr.append(&mut size_bytes);
        hdr.push(if term_char == 0 { 0x00 } else { 0x02 });
        hdr.push(term_char);
        hdr.push(0x00);
        hdr.push(0x00);
        proof {
            assert(hdr@ =~= dev_dep_msg_in_header(self.last_btag, transfer_size as u32, term_char));
        }
        hdr
    }

    /// Split `data` into chunks of at most `max_transfer_size` bytes, in
    /// order, and build the complete DEV_DEP_MSG_OUT bulk transfer for each:
    /// 12-byte header, chunk bytes, zero padding to a multiple of four. The
    /// end-of-message flag is set exactly on the last frame, and the transfer
    /// tag advances once per frame. An empty payload yields no frames.
    pub fn build_out_frames(&mut self, data: &[u8]) -> (frames: Vec<Vec<u8>>)
        requires
            old(self).wf(),
        ensures
            *final(self) == (Instrument { last_btag: final(self).last_btag, ..*old(self) }),
            frames@.len() == chunks_of(data@, old(self).max_transfer_size as nat).len(),
            final(self).last_btag == nth_tag(old(self).last_btag, frames@.len() as nat),
            forall|i: int|
                0 <= i < frames@.len() ==> #[trigger] frames@[i]@ == out_frame(
                    nth_tag(old(self).last_btag, (i + 1) as nat),
                    chunks_of(data@, old(self).max_transfer_size as nat)[i],
                    i == frames@.len() - 1,
                ),
    {
        let ghost t0 = old(self).last_btag;
        let ghost m = old(self).max_transfer_size as nat;
        let ghost full = chunks_of(data@, m);
        let max_usize: usize = self.max_transfer_size as usize;
        let mut frames: Vec<Vec<u8>> = Vec::new();
        let mut offset: usize = 0;
        proof {
            assert(data@.skip(0) =~= data@);
            assert(full.skip(0) =~= full);
        }
        while offset < data.len()
            invariant
                self.wf(),
                *self == (Instrument { last_btag: self.last_btag, ..*old(self) }),
                max_usize == old(self).max_transfer_size as usize,
                m == old(self).max_transfer_size as nat,
                m >= 1,
                t0 == old(self).last_btag,
                full == chunks_of(data@, m),
                offset <= data@.len(),
                frames@.len() <= full.len(),
                chunks_of(data@.skip(offset as int), m) == full.skip(frames@.len() as int),
                self.last_btag == nth_tag(t0, frames@.len() as nat),
                forall|i: int|
                    0 <= i < frames@.len() ==> #[trigger] frames@[i]@ == out_frame(
                        nth_tag(t0, (i + 1) as nat),
                        full[i],
                        i == full.len() - 1,
                    ),
            decreases data@.len() - offset,
        {
            let remaining = data.len() - offset;
            let size = if remaining <= max_usize {
                remaining
            } else {
                max_usize
            };
            let eom = remaining <= max_usize;
            let ghost k = frames@.len() as int;
            let ghost suffix = data@.skip(offset as int);
            proof {
                lemma_chunks_step(suffix, m);
                assert(suffix.len() == data@.len() - offset);
                assert(size as int == (if suffix.len() <= m {
                    suffix.len() as int
                } else {
                    m as int
                }));
                assert(chunks_of(suffix, m) == seq![suffix.take(size as int)] + chunks_of(
                    suffix.skip(size as int),
                    m,
                ));
                assert(full.skip(k).len() == full.len() - k);
                assert(full.len() > k);
                assert(suffix.take(size as int) =~= data@.subrange(
                    offset as int,
                    offset as int + size as int,
                ));
                assert(full.skip(k)[0] == full[k]);
                assert(full[k] == suffix.take(size as int));
                assert(suffix.skip(size as int) =~= data@.skip(offset as int + size as int));
                assert(full.skip(k).skip(1) =~= full.skip(k + 1));
                assert(chunks_of(data@.skip(offset as int + size as int), m) == full.skip(k + 1));
                if eom {
                    assert(suffix.skip(size as int).len() == 0);
                    assert(chunks_of(suffix.skip(size as int), m) =~= Seq::<Seq<u8>>::empty());
                    assert(full.len() == k + 1);
                } else {
                    assert(chunks_of(suffix.skip(size as int), m).len() >= 1);
                    assert(full.len() > k + 1);
                }
                assert(eom <==> k == full.len() - 1);
                assert(nth_tag(t0, (k + 1) as nat) == next_tag(nth_tag(t0, k as nat)));
            }
            let mut req = self.pack_dev_dep_msg_out_header(size, eom);
            let chunk = slice_subrange(data, offset, offset + size);
            req.extend_from_slice(chunk);
            proof {
                assert(req@ =~= dev_dep_msg_out_header(
                    nth_tag(t0, (k + 1) as nat),
                    size as u32,
                    eom,
                ) + full[k]);
            }
            let pad = (4 - (size % 4)) % 4;
            let ghost base = req@;
            let mut p: usize = 0;
            while p < pad
                invariant
                    p <= pad,
                    req@ == base + Seq::new(p as nat, |x: int| 0u8),
                decreases pad - p,
            {
                req.push(0x00);
                proof {
                    assert(req@ =~= base + Seq::new((p + 1) as nat, |x: int| 0u8));
                }
                p = p + 1;
            }
            proof {
                assert(pad as int == crate::frames::pad_len(size as int));
                assert(full[k].len() == size as int);
                assert(req@ =~= out_frame(nth_tag(t0, (k + 1) as nat), full[k], eom));
            }
            frames.push(req);
            offset = offset + size;
        }
        proof {
            assert(data@.skip(offset as int).len() == 0);
            assert(chunks_of(data@.skip(offset as int), m) =~= Seq::<Seq<u8>>::empty());
            assert(full.skip(frames@.len() as int).len() == 0);
            assert(frames@.len() == full.len());
        }
        frames
    }

    /// Find the first enumerated device at index `start` or later that
    /// satisfies the identity filters. Fails with `DeviceNotFound` exactly
    /// when no device from `start` on matches; a caller whose open attempt
    /// on the returned candidate fails rescans from the next index, so that
    /// scanning continues rather than aborting.
    pub fn next_match(&self, devices: &Vec<DeviceInfo>, start: usize) -> (r: Result<
        usize,
        UsbtmcError,
    >)
        ensures
            r is Err <==> (forall|i: int|
                start <= i < devices@.len() ==> !(#[trigger] self.device_matches(devices@[i]))),
            r is Err ==> r->Err_0 == UsbtmcError::DeviceNotFound,
            r is Ok ==> start <= r->Ok_0 < devices@.len() && self.device_matches(
                devices@[r->Ok_0 as int],
            ) && (forall|i: int|
                start <= i < r->Ok_0 ==> !(#[trigger] self.device_matches(devices@[i]))),
    {
        let mut i: usize = start;
        while i < devices.len()
            invariant
                start <= i,
                i <= devices@.len() || start > devices@.len(),
                forall|j: int|
                    start <= j < i && j < devices@.len() ==> !(#[trigger] self.device_matches(
                        devices@[j],
                    )),
            decreases devices@.len() - i,
        {
            let d = &devices[i];
            let filter_ok = match (self.bus, self.address) {
                (Some(b), Some(a)) => d.bus_number == b && d.address == a,
                _ => true,
            };
            if d.vendor_id == self.vid && d.product_id == self.pid && filter_ok {
                proof {
                    assert(self.device_matches(devices@[i as int]));
                }
                return Ok(i);
            }
            i = i + 1;
        }
        Err(UsbtmcError::DeviceNotFound)
    }
}

} // verus!

