//! The error taxonomy shared by every fallible operation of the crate.

use vstd::prelude::*;

verus! {

/// Why an operation failed.
///
/// `Io` covers file open/read/write failures and missing artifacts, `Codec`
/// malformed or truncated interchange text, `Encoding` invalid text in a
/// foreign-supplied buffer, `Engine` a failure reported by the proving
/// engine, and `Other` everything uncategorized.
#[derive(Clone, Copy, PartialEq, Eq, Structural, Debug)]
pub enum ErrorKind {
    Io,
    Codec,
    Encoding,
    Engine,
    Other,
}

/// A failure: its taxonomy case plus diagnostic text (as raw bytes).
#[derive(Clone, Debug)]
pub struct Error {
    pub kind: ErrorKind,
    pub msg: Vec<u8>,
}

impl Error {
    pub fn new(kind: ErrorKind, msg: Vec<u8>) -> (r: Error)
        ensures
            r.kind == kind,
            r.msg@ == msg@,
    {
        Error { kind, msg }
    }
}

/// The display tag of each taxonomy case, as bytes.
pub open spec fn spec_kind_tag(kind: ErrorKind) -> Seq<u8> {
    match kind {
        ErrorKind::Io => seq![73u8, 111u8],  // "Io"
        ErrorKind::Codec => seq![67u8, 111u8, 100u8, 101u8, 99u8],  // "Codec"
        ErrorKind::Encoding => seq![
            69u8,
            110u8,
            99u8,
            111u8,
            100u8,
            105u8,
            110u8,
            103u8,
        ],  // "Encoding"
        ErrorKind::Engine => seq![69u8, 110u8, 103u8, 105u8, 110u8, 101u8],  // "Engine"
        ErrorKind::Other => seq![79u8, 116u8, 104u8, 101u8, 114u8],  // "Other"
    }
}

/// The diagnostic text of an error: its kind tag, `": "`, then the message.
/// This is the form in which every failure crosses the foreign boundary; the
/// tag lets a caller distinguish the taxonomy case programmatically.
pub open spec fn spec_describe(e: Error) -> Seq<u8> {
    spec_kind_tag(e.kind) + seq![58u8, 32u8] + e.msg@
}

impl Error {
    /// Renders the error as `<kind>: <message>` bytes.
    pub fn describe(&self) -> (r: Vec<u8>)
        ensures
            r@ == spec_describe(*self),
    {
        let mut out: Vec<u8> = Vec::new();
        match self.kind {
            ErrorKind::Io => {
                out.push(73);
                out.push(111);
            },
            ErrorKind::Codec => {
                out.push(67);
                out.push(111);
                out.push(100);
                out.push(101);
                out.push(99);
            },
            ErrorKind::Encoding => {
                out.push(69);
                out.push(110);
                out.push(99);
                out.push(111);
                out.push(100);
                out.push(105);
                out.push(110);
                out.push(103);
            },
            ErrorKind::Engine => {
                out.push(69);
                out.push(110);
                out.push(103);
                out.push(105);
                out.push(110);
                out.push(101);
            },
            ErrorKind::Other => {
                out.push(79);
                out.push(116);
                out.push(104);
                out.push(101);
                out.push(114);
            },
        }
        proof {
            assert(out@ =~= spec_kind_tag(self.kind));
        }
        out.push(58);
        out.push(32);
        let mut i: usize = 0;
        while i < self.msg.len()
            invariant
                i <= self.msg.len(),
                out@ == spec_kind_tag(self.kind) + seq![58u8, 32u8] + self.msg@.subrange(
                    0,
                    i as int,
                ),
            decreases self.msg.len() - i,
        {
            out.push(self.msg[i]);
            i = i + 1;
            proof {
                assert(out@ =~= spec_kind_tag(self.kind) + seq![58u8, 32u8] + self.msg@.subrange(
                    0,
                    i as int,
                ));
            }
        }
        proof {
            assert(self.msg@.subrange(0, self.msg@.len() as int) =~= self.msg@);
        }
        out
    }
}

/// An `Encoding` failure that reports `ill-formed text in a foreign buffer`.
pub fn err_encoding() -> (r: Error)
    ensures
        r.kind == ErrorKind::Encoding,
{
    Error { kind: ErrorKind::Encoding, msg: vec![105, 108, 108, 45, 102, 111, 114, 109, 101, 100, 32, 116, 101, 120, 116, 32, 105, 110, 32, 97, 32, 102, 111, 114, 101, 105, 103, 110, 32, 98, 117, 102, 102, 101, 114] }
}

/// A `Codec` failure that reports `malformed interchange text`.
pub fn err_codec() -> (r: Error)
    ensures
        r.kind == ErrorKind::Codec,
{
    Error { kind: ErrorKind::Codec, msg: vec![109, 97, 108, 102, 111, 114, 109, 101, 100, 32, 105, 110, 116, 101, 114, 99, 104, 97, 110, 103, 101, 32, 116, 101, 120, 116] }
}

/// A `Codec` failure that reports `text cannot stand in interchange form`.
pub fn err_unencodable() -> (r: Error)
    ensures
        r.kind == ErrorKind::Codec,
{
    Error { kind: ErrorKind::Codec, msg: vec![116, 101, 120, 116, 32, 99, 97, 110, 110, 111, 116, 32, 115, 116, 97, 110, 100, 32, 105, 110, 32, 105, 110, 116, 101, 114, 99, 104, 97, 110, 103, 101, 32, 102, 111, 114, 109] }
}

/// An `Io` failure that reports `cannot extract a usable file name`.
pub fn err_bad_name() -> (r: Error)
    ensures
        r.kind == ErrorKind::Io,
{
    Error { kind: ErrorKind::Io, msg: vec![99, 97, 110, 110, 111, 116, 32, 101, 120, 116, 114, 97, 99, 116, 32, 97, 32, 117, 115, 97, 98, 108, 101, 32, 102, 105, 108, 101, 32, 110, 97, 109, 101] }
}

/// An `Io` failure that reports `directory exists and clearing was not requested`.
pub fn err_dir_exists() -> (r: Error)
    ensures
        r.kind == ErrorKind::Io,
{
    Error { kind: ErrorKind::Io, msg: vec![100, 105, 114, 101, 99, 116, 111, 114, 121, 32, 101, 120, 105, 115, 116, 115, 32, 97, 110, 100, 32, 99, 108, 101, 97, 114, 105, 110, 103, 32, 119, 97, 115, 32, 110, 111, 116, 32, 114, 101, 113, 117, 101, 115, 116, 101, 100] }
}

/// An `Engine` failure that reports `digest width is not 32 bytes`.
pub fn err_bad_digest() -> (r: Error)
    ensures
        r.kind == ErrorKind::Engine,
{
    Error { kind: ErrorKind::Engine, msg: vec![100, 105, 103, 101, 115, 116, 32, 119, 105, 100, 116, 104, 32, 105, 115, 32, 110, 111, 116, 32, 51, 50, 32, 98, 121, 116, 101, 115] }
}

/// An `Other` failure that reports `sample size exceeds the address space`.
pub fn err_oversize() -> (r: Error)
    ensures
        r.kind == ErrorKind::Other,
{
    Error { kind: ErrorKind::Other, msg: vec![115, 97, 109, 112, 108, 101, 32, 115, 105, 122, 101, 32, 101, 120, 99, 101, 101, 100, 115, 32, 116, 104, 101, 32, 97, 100, 100, 114, 101, 115, 115, 32, 115, 112, 97, 99, 101] }
}

/// An `Other` failure that reports `unexpected event for this state`.
pub fn err_unexpected() -> (r: Error)
    ensures
        r.kind == ErrorKind::Other,
{
    Error { kind: ErrorKind::Other, msg: vec![117, 110, 101, 120, 112, 101, 99, 116, 101, 100, 32, 101, 118, 101, 110, 116, 32, 102, 111, 114, 32, 116, 104, 105, 115, 32, 115, 116, 97, 116, 101] }
}

/// An `Other` failure that reports `request fields are malformed`.
pub fn err_bad_request() -> (r: Error)
    ensures
        r.kind == ErrorKind::Other,
{
    Error { kind: ErrorKind::Other, msg: vec![114, 101, 113, 117, 101, 115, 116, 32, 102, 105, 101, 108, 100, 115, 32, 97, 114, 101, 32, 109, 97, 108, 102, 111, 114, 109, 101, 100] }
}

/// Every fallible operation of the crate returns this.
pub type WrapResult<T> = Result<T, Error>;


/// The diagnostic text determines the failure: its kind can be read off the
/// leading tag, and its message off the remainder, so a caller can
/// distinguish the taxonomy cases programmatically.
pub proof fn lemma_describe_distinguishes(e1: Error, e2: Error)
    requires
        spec_describe(e1) == spec_describe(e2),
    ensures
        e1.kind == e2.kind,
        e1.msg@ == e2.msg@,
{
    let s1 = spec_describe(e1);
    let s2 = spec_describe(e2);
    let t1 = spec_kind_tag(e1.kind);
    let t2 = spec_kind_tag(e2.kind);
    assert(s1[0] == t1[0]) by {
        assert((t1 + seq![58u8, 32u8])[0] == t1[0]);
    }
    assert(s2[0] == t2[0]) by {
        assert((t2 + seq![58u8, 32u8])[0] == t2[0]);
    }
    if e1.kind != e2.kind {
        if t1[0] == t2[0] {
            // only the two engine-related tags share a first byte; they
            // differ at the third
            assert(t1.len() >= 6 && t2.len() >= 6);
            assert(s1[2] == t1[2]) by {
                assert((t1 + seq![58u8, 32u8])[2] == t1[2]);
            }
            assert(s2[2] == t2[2]) by {
                assert((t2 + seq![58u8, 32u8])[2] == t2[2]);
            }
            assert(false);
        } else {
            assert(false);
        }
    }
    assert(t1 == t2);
    assert(s1.len() == t1.len() + 2 + e1.msg@.len());
    assert(s2.len() == t2.len() + 2 + e2.msg@.len());
    assert(e1.msg@.len() == e2.msg@.len());
    assert(e1.msg@ =~= e2.msg@) by {
        assert forall|k: int| 0 <= k < e1.msg@.len() implies e1.msg@[k] == e2.msg@[k] by {
            let off = t1.len() + 2;
            assert(s1[off + k] == e1.msg@[k]) by {
                assert((t1 + seq![58u8, 32u8] + e1.msg@)[off + k] == e1.msg@[k]);
            }
            assert(s2[off + k] == e2.msg@[k]) by {
                assert((t2 + seq![58u8, 32u8] + e2.msg@)[off + k] == e2.msg@[k]);
            }
        }
    }
}

} // verus!
