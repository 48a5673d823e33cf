//! The tag-detection record parsed from one inventory-poll payload.
//! Identity is the EPC alone: two records that agree on the EPC are the
//! same tag, whatever their signal strength or CRC bytes say.

use crate::text::{dec_rep, hex_upper_rep, push_dec, push_hex_upper};
use vstd::prelude::*;
use vstd::std_specs::cmp::PartialEqSpecImpl;
use vstd::string::StringExecFns;

verus! {

/// One detected tag: signal strength, protocol-control word, EPC (the tag
/// UID) and CRC as upper-case hex text, plus the raw payload bytes kept
/// for diagnostics.
#[derive(Clone, Debug)]
pub struct Rfid {
    pub rssi: u8,
    pub pc: String,
    pub epc: String,
    pub crc: String,
    pub raw: Vec<u8>,
}

/// The record rendered as text, as a maintainer would log it.
pub open spec fn rfid_text_rep(r: Rfid) -> Seq<char> {
    ("RSSI: ")@ + dec_rep(r.rssi as nat) + (", PC: ")@ + r.pc@ + (", EPC(UID): \"")@ + r.epc@ + (
    "\", CRC: ")@ + r.crc@ + (", RAW: ")@ + hex_upper_rep(r.raw_bytes())
}

impl Rfid {
    /// The raw payload bytes the record was parsed from.
    pub open spec fn raw_bytes(&self) -> Seq<u8> {
        self.raw@
    }

    /// A record is well formed when its fields are read off the fixed
    /// payload offsets: RSSI is byte 0, PC renders bytes 1..3, EPC renders
    /// bytes 3..15, CRC renders bytes 15..17.
    pub open spec fn wf(&self) -> bool {
        &&& self.raw_bytes().len() >= 17
        &&& self.rssi == self.raw_bytes()[0]
        &&& self.pc@ == hex_upper_rep(self.raw_bytes().subrange(1, 3))
        &&& self.epc@ == hex_upper_rep(self.raw_bytes().subrange(3, 15))
        &&& self.crc@ == hex_upper_rep(self.raw_bytes().subrange(15, 17))
    }

    /// Parses one tag payload of at least 17 bytes.
    pub fn from_raw(raw: Vec<u8>) -> (r: Rfid)
        requires
            raw@.len() >= 17,
        ensures
            r.wf(),
            r.raw_bytes() == raw@,
            r.rssi == raw@[0],
            r.pc@ == hex_upper_rep(raw@.subrange(1, 3)),
            r.epc@ == hex_upper_rep(raw@.subrange(3, 15)),
            r.crc@ == hex_upper_rep(raw@.subrange(15, 17)),
    {
        let rssi = raw[0];
        let pc = hex_of_range(&raw, 1, 3);
        let epc = hex_of_range(&raw, 3, 15);
        let crc = hex_of_range(&raw, 15, 17);
        Rfid { rssi, pc, epc, crc, raw }
    }

    /// The tag UID: the EPC text.
    pub fn uid(&self) -> (r: String)
        ensures
            r@ == self.epc@,
    {
        self.epc.clone()
    }

    /// The record rendered as text, as a maintainer would log it.
    pub fn describe(&self) -> (r: String)
        ensures
            r@ == rfid_text_rep(*self),
    {
        let mut s = String::from_str("RSSI: ");
        push_dec(&mut s, self.rssi as u64);
        s.append(", PC: ");
        s.append(self.pc.as_str());
        s.append(", EPC(UID): \"");
        s.append(self.epc.as_str());
        s.append("\", CRC: ");
        s.append(self.crc.as_str());
        s.append(", RAW: ");
        push_hex_upper(&mut s, self.raw.as_slice());
        proof {
            assert(s@ =~= rfid_text_rep(*self));
        }
        s
    }
}

impl PartialEq for Rfid {
    /// Two records are the same tag exactly when their EPC texts agree.
    fn eq(&self, other: &Rfid) -> (r: bool) {
        self.epc == other.epc
    }
}

impl Eq for Rfid {
}

impl PartialEqSpecImpl for Rfid {
    open spec fn obeys_eq_spec() -> bool {
        true
    }

    open spec fn eq_spec(&self, other: &Rfid) -> bool {
        self.epc@ == other.epc@
    }
}

impl core::hash::Hash for Rfid {
    /// Relies on std's Hash for String: the record hashes by its EPC text
    /// alone, so records that compare equal hash identically.
    #[verifier::external_body]
    fn hash<H: core::hash::Hasher>(&self, state: &mut H) {
        self.epc.hash(state)
    }
}

/// Dedup identity law: two well-formed records whose raw payloads agree on
/// the EPC bytes (offsets 3..15) compare equal, whatever their RSSI, PC and
/// CRC bytes hold.
pub proof fn lemma_identity_is_epc(a: Rfid, b: Rfid)
    requires
        a.wf(),
        b.wf(),
        a.raw_bytes().subrange(3, 15) == b.raw_bytes().subrange(3, 15),
    ensures
        vstd::std_specs::cmp::PartialEqSpec::eq_spec(&a, &b),
{
}

/// The identity law's converse: two well-formed records that compare equal
/// agree on their EPC bytes. Together with `lemma_identity_is_epc`, record
/// equality coincides with EPC-byte equality.
pub proof fn lemma_equal_records_share_epc(a: Rfid, b: Rfid)
    requires
        a.wf(),
        b.wf(),
        vstd::std_specs::cmp::PartialEqSpec::eq_spec(&a, &b),
    ensures
        a.raw_bytes().subrange(3, 15) == b.raw_bytes().subrange(3, 15),
{
    crate::text::lemma_hex_upper_injective(
        a.raw_bytes().subrange(3, 15),
        b.raw_bytes().subrange(3, 15),
    );
}

/// A byte slice as upper-case hex pairs, as an owned string.
pub fn bytes_to_hex_upper(bytes: &[u8]) -> (r: String)
    ensures
        r@ == hex_upper_rep(bytes@),
{
    let mut s = String::new();
    push_hex_upper(&mut s, bytes);
    proof {
        assert(s@ =~= hex_upper_rep(bytes@));
    }
    s
}

/// The upper-case hex rendering of a range of a byte vector.
fn hex_of_range(v: &Vec<u8>, from: usize, to: usize) -> (r: String)
    requires
        from <= to,
        to <= v@.len(),
    ensures
        r@ == hex_upper_rep(v@.subrange(from as int, to as int)),
{
    let part = vstd::slice::slice_subrange(v.as_slice(), from, to);
    bytes_to_hex_upper(part)
}

} // verus!
