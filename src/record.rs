//! The record kinds kept by the service and their byte encoding.

use crate::codec::{
    field_bytes, field_fits, lemma_parse_field_bytes, lemma_parse_field_prefix, lemma_parse_u64_bytes,
    lemma_parse_u64_prefix, parse_field, parse_u64, push_field, push_u64, read_field, read_u64,
};
use vstd::bytes::spec_u64_to_le_bytes;
use vstd::prelude::*;

verus! {

/// The largest encoded record a map slot can hold, in bytes.
pub const MAX_RECORD_SIZE: usize = 1024;

/// A record kind that a repository can keep: it has an identifier, is built
/// from a payload plus an identifier, and encodes to bytes that decode back.
pub trait StoredRecord: Sized + View {
    type Payload;

    /// The identifier held by a record.
    spec fn spec_id(v: Self::V) -> u64;

    /// Whether every text field of a record fits the encoding's length prefix.
    spec fn spec_valid(v: Self::V) -> bool;

    /// The encoding of a record.
    spec fn spec_encode(v: Self::V) -> Seq<u8>;

    /// The record that `b` encodes, if any.
    spec fn spec_decode(b: Seq<u8>) -> Option<Self::V>;

    /// The record built from `p` with identifier `id`.
    spec fn spec_from_payload(id: u64, p: Self::Payload) -> Self::V;

    /// Decoding an encoding gives back the record.
    proof fn lemma_round_trip(v: Self::V)
        requires
            Self::spec_valid(v),
        ensures
            Self::spec_decode(Self::spec_encode(v)) == Some(v),
    ;

    /// Whatever decodes is the encoding of what it decodes to.
    proof fn lemma_decode_encodes(b: Seq<u8>)
        ensures
            Self::spec_decode(b) matches Some(v) ==> Self::spec_valid(v) && Self::spec_encode(v) == b,
    ;

    /// A record built from a payload has the identifier it was given.
    proof fn lemma_from_payload_id(id: u64, p: Self::Payload)
        ensures
            Self::spec_id(Self::spec_from_payload(id, p)) == id,
    ;

    fn id(&self) -> (r: u64)
        ensures
            r == Self::spec_id(self@),
    ;

    fn to_bytes(&self) -> (r: Vec<u8>)
        ensures
            Self::spec_valid(self@),
            r@ == Self::spec_encode(self@),
    ;

    fn from_bytes(b: &[u8]) -> (r: Option<Self>)
        ensures
            match r {
                Some(x) => Self::spec_decode(b@) == Some(x@),
                None => Self::spec_decode(b@) is None,
            },
    ;

    fn from_payload(id: u64, p: Self::Payload) -> (r: Self)
        ensures
            r@ == Self::spec_from_payload(id, p),
            Self::spec_id(r@) == id,
    ;

    /// The kind's name, as used in messages.
    spec fn spec_kind() -> Seq<char>;

    fn kind() -> (r: &'static str)
        ensures
            r@ == Self::spec_kind(),
    ;
}

/// A vendor: who offers excess produce, and where.
#[derive(Clone, Debug, PartialEq, Eq, Default)]
pub struct Vendor {
    pub id: u64,
    pub name: String,
    pub phone: String,
    pub current_location: String,
}

pub struct VendorView {
    pub id: u64,
    pub name: Seq<char>,
    pub phone: Seq<char>,
    pub current_location: Seq<char>,
}

impl View for Vendor {
    type V = VendorView;

    open spec fn view(&self) -> VendorView {
        VendorView {
            id: self.id,
            name: self.name@,
            phone: self.phone@,
            current_location: self.current_location@,
        }
    }
}

/// The fields of a vendor that a caller supplies.
#[derive(Clone, Debug, PartialEq, Eq, Default)]
pub struct VendorPayload {
    pub name: String,
    pub phone: String,
    pub current_location: String,
}

pub open spec fn vendor_valid(v: VendorView) -> bool {
    field_fits(v.name) && field_fits(v.phone) && field_fits(v.current_location)
}

/// A vendor encodes as its identifier followed by its three text fields.
pub open spec fn vendor_bytes(v: VendorView) -> Seq<u8> {
    spec_u64_to_le_bytes(v.id) + field_bytes(v.name) + field_bytes(v.phone) + field_bytes(
        v.current_location,
    )
}

pub open spec fn parse_vendor(b: Seq<u8>) -> Option<VendorView> {
    match parse_u64(b) {
        None => None,
        Some(id) => {
            let b1 = b.subrange(8, b.len() as int);
            match parse_field(b1) {
                None => None,
                Some((name, n1)) => {
                    let b2 = b1.subrange(n1, b1.len() as int);
                    match parse_field(b2) {
                        None => None,
                        Some((phone, n2)) => {
                            let b3 = b2.subrange(n2, b2.len() as int);
                            match parse_field(b3) {
                                Some((loc, n3)) if n3 == b3.len() => Some(
                                    VendorView { id, name, phone, current_location: loc },
                                ),
                                _ => None,
                            }
                        },
                    }
                },
            }
        },
    }
}

impl StoredRecord for Vendor {
    type Payload = VendorPayload;

    open spec fn spec_id(v: VendorView) -> u64 {
        v.id
    }

    open spec fn spec_valid(v: VendorView) -> bool {
        vendor_valid(v)
    }

    open spec fn spec_encode(v: VendorView) -> Seq<u8> {
        vendor_bytes(v)
    }

    open spec fn spec_decode(b: Seq<u8>) -> Option<VendorView> {
        parse_vendor(b)
    }

    open spec fn spec_from_payload(id: u64, p: VendorPayload) -> VendorView {
        VendorView {
            id,
            name: p.name@,
            phone: p.phone@,
            current_location: p.current_location@,
        }
    }

    proof fn lemma_round_trip(v: VendorView) {
        let t3 = field_bytes(v.current_location);
        let t2 = field_bytes(v.phone) + t3;
        let t1 = field_bytes(v.name) + t2;
        assert(vendor_bytes(v) =~= spec_u64_to_le_bytes(v.id) + t1);
        lemma_parse_u64_bytes(v.id, t1);
        let b = vendor_bytes(v);
        assert(b.subrange(8, b.len() as int) =~= t1);
        lemma_parse_field_bytes(v.name, t2);
        assert(t1.subrange(field_bytes(v.name).len() as int, t1.len() as int) =~= t2);
        lemma_parse_field_bytes(v.phone, t3);
        assert(t2.subrange(field_bytes(v.phone).len() as int, t2.len() as int) =~= t3);
        lemma_parse_field_bytes(v.current_location, Seq::empty());
        assert(t3 + Seq::<u8>::empty() =~= t3);
    }

    proof fn lemma_decode_encodes(b: Seq<u8>) {
        if let Some(v) = parse_vendor(b) {
            lemma_parse_u64_prefix(b);
            let b1 = b.subrange(8, b.len() as int);
            let (name, n1) = parse_field(b1)->0;
            lemma_parse_field_prefix(b1, name, n1);
            let b2 = b1.subrange(n1, b1.len() as int);
            let (phone, n2) = parse_field(b2)->0;
            lemma_parse_field_prefix(b2, phone, n2);
            let b3 = b2.subrange(n2, b2.len() as int);
            let (loc, n3) = parse_field(b3)->0;
            lemma_parse_field_prefix(b3, loc, n3);
            assert(b3 =~= field_bytes(loc));
            assert(b2 =~= field_bytes(phone) + b3);
            assert(b1 =~= field_bytes(name) + b2);
            assert(b =~= spec_u64_to_le_bytes(v.id) + b1);
            assert(b =~= vendor_bytes(v));
        }
    }

    proof fn lemma_from_payload_id(id: u64, p: Self::Payload) {
    }

    fn id(&self) -> (r: u64) {
        self.id
    }

    fn to_bytes(&self) -> (r: Vec<u8>) {
        let mut out: Vec<u8> = Vec::new();
        push_u64(&mut out, self.id);
        push_field(&mut out, self.name.as_str());
        push_field(&mut out, self.phone.as_str());
        push_field(&mut out, self.current_location.as_str());
        assert(out@ =~= vendor_bytes(self@));
        out
    }

    fn from_bytes(b: &[u8]) -> (r: Option<Vendor>) {
        let len = b.len();
        assert(b@.subrange(0, len as int) =~= b@);
        let id = match read_u64(b, 0) {
            Some(x) => x,
            None => return None,
        };
        let ghost b1 = b@.subrange(8, len as int);
        let (name, pos1) = match read_field(b, 8) {
            Some(f) => f,
            None => return None,
        };
        let ghost b2 = b1.subrange(pos1 - 8, b1.len() as int);
        assert(b2 =~= b@.subrange(pos1 as int, len as int));
        let (phone, pos2) = match read_field(b, pos1) {
            Some(f) => f,
            None => return None,
        };
        let ghost b3 = b2.subrange(pos2 - pos1, b2.len() as int);
        assert(b3 =~= b@.subrange(pos2 as int, len as int));
        let (current_location, pos3) = match read_field(b, pos2) {
            Some(f) => f,
            None => return None,
        };
        if pos3 != len {
            return None;
        }
        Some(Vendor { id, name, phone, current_location })
    }

    fn from_payload(id: u64, p: VendorPayload) -> (r: Vendor) {
        Vendor { id, name: p.name, phone: p.phone, current_location: p.current_location }
    }

    open spec fn spec_kind() -> Seq<char> {
        "Vendor"@
    }

    fn kind() -> (r: &'static str) {
        "Vendor"
    }
}

/// A record of excess produce that a vendor has on hand.
#[derive(Clone, Debug, PartialEq, Eq, Default)]
pub struct Excess {
    pub id: u64,
    pub vendor_id: u64,
    pub name: String,
    /// Amount in kilograms, as entered.
    pub amount: String,
    pub date: String,
}

pub struct ExcessView {
    pub id: u64,
    pub vendor_id: u64,
    pub name: Seq<char>,
    pub amount: Seq<char>,
    pub date: Seq<char>,
}

impl View for Excess {
    type V = ExcessView;

    open spec fn view(&self) -> ExcessView {
        ExcessView {
            id: self.id,
            vendor_id: self.vendor_id,
            name: self.name@,
            amount: self.amount@,
            date: self.date@,
        }
    }
}

/// The fields of an excess record that a caller supplies.
#[derive(Clone, Debug, PartialEq, Eq, Default)]
pub struct ExcessPayload {
    pub vendor_id: u64,
    pub name: String,
    pub amount: String,
    pub date: String,
}

pub open spec fn excess_valid(v: ExcessView) -> bool {
    field_fits(v.name) && field_fits(v.amount) && field_fits(v.date)
}

/// An excess record encodes as its identifier, its vendor's identifier and its
/// three text fields.
pub open spec fn excess_bytes(v: ExcessView) -> Seq<u8> {
    spec_u64_to_le_bytes(v.id) + spec_u64_to_le_bytes(v.vendor_id) + field_bytes(v.name)
        + field_bytes(v.amount) + field_bytes(v.date)
}

pub open spec fn parse_excess(b: Seq<u8>) -> Option<ExcessView> {
    match parse_u64(b) {
        None => None,
        Some(id) => {
            let b0 = b.subrange(8, b.len() as int);
            match parse_u64(b0) {
                None => None,
                Some(vendor_id) => {
                    let b1 = b0.subrange(8, b0.len() as int);
                    match parse_field(b1) {
                        None => None,
                        Some((name, n1)) => {
                            let b2 = b1.subrange(n1, b1.len() as int);
                            match parse_field(b2) {
                                None => None,
                                Some((amount, n2)) => {
                                    let b3 = b2.subrange(n2, b2.len() as int);
                                    match parse_field(b3) {
                                        Some((date, n3)) if n3 == b3.len() => Some(
                                            ExcessView { id, vendor_id, name, amount, date },
                                        ),
                                        _ => None,
                                    }
                                },
                            }
                        },
                    }
                },
            }
        },
    }
}

impl StoredRecord for Excess {
    type Payload = ExcessPayload;

    open spec fn spec_id(v: ExcessView) -> u64 {
        v.id
    }

    open spec fn spec_valid(v: ExcessView) -> bool {
        excess_valid(v)
    }

    open spec fn spec_encode(v: ExcessView) -> Seq<u8> {
        excess_bytes(v)
    }

    open spec fn spec_decode(b: Seq<u8>) -> Option<ExcessView> {
        parse_excess(b)
    }

    open spec fn spec_from_payload(id: u64, p: ExcessPayload) -> ExcessView {
        ExcessView {
            id,
            vendor_id: p.vendor_id,
            name: p.name@,
            amount: p.amount@,
            date: p.date@,
        }
    }

    proof fn lemma_round_trip(v: ExcessView) {
        let t3 = field_bytes(v.date);
        let t2 = field_bytes(v.amount) + t3;
        let t1 = field_bytes(v.name) + t2;
        let t0 = spec_u64_to_le_bytes(v.vendor_id) + t1;
        assert(excess_bytes(v) =~= spec_u64_to_le_bytes(v.id) + t0);
        lemma_parse_u64_bytes(v.id, t0);
        let b = excess_bytes(v);
        assert(b.subrange(8, b.len() as int) =~= t0);
        lemma_parse_u64_bytes(v.vendor_id, t1);
        assert(t0.subrange(8, t0.len() as int) =~= t1);
        lemma_parse_field_bytes(v.name, t2);
        assert(t1.subrange(field_bytes(v.name).len() as int, t1.len() as int) =~= t2);
        lemma_parse_field_bytes(v.amount, t3);
        assert(t2.subrange(field_bytes(v.amount).len() as int, t2.len() as int) =~= t3);
        lemma_parse_field_bytes(v.date, Seq::empty());
        assert(t3 + Seq::<u8>::empty() =~= t3);
    }

    proof fn lemma_decode_encodes(b: Seq<u8>) {
        if let Some(v) = parse_excess(b) {
            lemma_parse_u64_prefix(b);
            let b0 = b.subrange(8, b.len() as int);
            lemma_parse_u64_prefix(b0);
            let b1 = b0.subrange(8, b0.len() as int);
            let (name, n1) = parse_field(b1)->0;
            lemma_parse_field_prefix(b1, name, n1);
            let b2 = b1.subrange(n1, b1.len() as int);
            let (amount, n2) = parse_field(b2)->0;
            lemma_parse_field_prefix(b2, amount, n2);
            let b3 = b2.subrange(n2, b2.len() as int);
            let (date, n3) = parse_field(b3)->0;
            lemma_parse_field_prefix(b3, date, n3);
            assert(b3 =~= field_bytes(date));
            assert(b2 =~= field_bytes(amount) + b3);
            assert(b1 =~= field_bytes(name) + b2);
            assert(b0 =~= spec_u64_to_le_bytes(v.vendor_id) + b1);
            assert(b =~= spec_u64_to_le_bytes(v.id) + b0);
            assert(b =~= excess_bytes(v));
        }
    }

    proof fn lemma_from_payload_id(id: u64, p: Self::Payload) {
    }

    fn id(&self) -> (r: u64) {
        self.id
    }

    fn to_bytes(&self) -> (r: Vec<u8>) {
        let mut out: Vec<u8> = Vec::new();
        push_u64(&mut out, self.id);
        push_u64(&mut out, self.vendor_id);
        push_field(&mut out, self.name.as_str());
        push_field(&mut out, self.amount.as_str());
        push_field(&mut out, self.date.as_str());
        assert(out@ =~= excess_bytes(self@));
        out
    }

    fn from_bytes(b: &[u8]) -> (r: Option<Excess>) {
        let len = b.len();
        assert(b@.subrange(0, len as int) =~= b@);
        let id = match read_u64(b, 0) {
            Some(x) => x,
            None => return None,
        };
        let ghost b0 = b@.subrange(8, len as int);
        let vendor_id = match read_u64(b, 8) {
            Some(x) => x,
            None => return None,
        };
        let ghost b1 = b0.subrange(8, b0.len() as int);
        assert(b1 =~= b@.subrange(16, len as int));
        let (name, pos1) = match read_field(b, 16) {
            Some(f) => f,
            None => return None,
        };
        let ghost b2 = b1.subrange(pos1 - 16, b1.len() as int);
        assert(b2 =~= b@.subrange(pos1 as int, len as int));
        let (amount, pos2) = match read_field(b, pos1) {
            Some(f) => f,
            None => return None,
        };
        let ghost b3 = b2.subrange(pos2 - pos1, b2.len() as int);
        assert(b3 =~= b@.subrange(pos2 as int, len as int));
        let (date, pos3) = match read_field(b, pos2) {
            Some(f) => f,
            None => return None,
        };
        if pos3 != len {
            return None;
        }
        Some(Excess { id, vendor_id, name, amount, date })
    }

    fn from_payload(id: u64, p: ExcessPayload) -> (r: Excess) {
        Excess { id, vendor_id: p.vendor_id, name: p.name, amount: p.amount, date: p.date }
    }

    open spec fn spec_kind() -> Seq<char> {
        "Excess"@
    }

    fn kind() -> (r: &'static str) {
        "Excess"
    }
}

} // verus!
