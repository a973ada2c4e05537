//! Reader for the circom R1CS binary container format.
//!
//! The container is little-endian throughout: a 4-byte magic token, a u32
//! format version (must be 1), a u32 section count, and then per section a
//! u32 type, a u64 byte length and that many payload bytes. Only the header
//! section (type 1) and the constraint section (type 2) are consulted; the
//! sections may appear in any order, and the declared lengths are trusted
//! for skipping from one section to the next.
//!
//! The whole format is pinned down by [`spec_parse`], and [`R1CSFile::new`]
//! is proved to return exactly what that specification says, for every byte
//! string.

use vstd::bytes::{
    spec_u32_from_le_bytes, spec_u32_to_le_bytes, spec_u64_from_le_bytes, u32_from_le_bytes,
    u64_from_le_bytes,
};
use vstd::prelude::*;
use vstd::slice::{slice_subrange, slice_to_vec, spec_slice_len};

use crate::field::FIELD_MODULUS;
use crate::{Constraints, ConstraintsV};

verus! {

broadcast use vstd::slice::group_slice_axioms;

/// The magic token `r1cs` (the four ASCII bytes, read as a little-endian u32).
pub const MAGIC: u32 = 0x7363_3172;

/// The only supported container format version.
pub const SUPPORTED_VERSION: u32 = 1;

/// Section type of the header section.
pub const HEADER_SECTION: u32 = 1;

/// Section type of the constraint section.
pub const CONSTRAINT_SECTION: u32 = 2;

/// The prime-modulus fingerprint the header must carry: the little-endian
/// bytes of the one supported modulus.
pub open spec fn prime_bytes() -> Seq<u8> {
    spec_u32_to_le_bytes(FIELD_MODULUS)
}

/// Typed parse failure, mirroring the taxonomy of the format: truncated
/// input, malformed container, or an unsupported field configuration.
#[derive(Clone, Copy, Debug, PartialEq, Eq, Structural)]
pub enum R1csError {
    /// A read or a section skip ran past the end of the input.
    UnexpectedEof,
    /// The first four bytes are not the magic token.
    InvalidMagic,
    /// The format version is not 1.
    UnsupportedVersion,
    /// The header's field byte-width is not 4.
    UnsupportedFieldSize,
    /// The header section's declared length is not 32 + field width.
    InvalidHeaderSize,
    /// The prime-modulus fingerprint is not the supported modulus.
    UnsupportedModulus,
    /// No section of type 1 was declared.
    MissingHeaderSection,
    /// No section of type 2 was declared.
    MissingConstraintSection,
}

/// The parsed header section.
#[derive(Debug)]
pub struct Header {
    pub field_size: u32,
    pub prime_size: Vec<u8>,
    pub n_wires: u32,
    pub n_pub_out: u32,
    pub n_pub_in: u32,
    pub n_prv_in: u32,
    pub n_labels: u64,
    pub n_constraints: u32,
}

/// Mathematical model of a [`Header`].
pub struct HeaderV {
    pub field_size: u32,
    pub prime_size: Seq<u8>,
    pub n_wires: u32,
    pub n_pub_out: u32,
    pub n_pub_in: u32,
    pub n_prv_in: u32,
    pub n_labels: u64,
    pub n_constraints: u32,
}

impl View for Header {
    type V = HeaderV;

    open spec fn view(&self) -> HeaderV {
        HeaderV {
            field_size: self.field_size,
            prime_size: self.prime_size@,
            n_wires: self.n_wires,
            n_pub_out: self.n_pub_out,
            n_pub_in: self.n_pub_in,
            n_prv_in: self.n_prv_in,
            n_labels: self.n_labels,
            n_constraints: self.n_constraints,
        }
    }
}

/// The parsed file: version, header and the constraints in file order.
/// Immutable once constructed.
#[derive(Debug)]
pub struct R1CSFile {
    pub version: u32,
    pub header: Header,
    pub constraints: Vec<Constraints>,
}

/// Mathematical model of an [`R1CSFile`].
pub struct FileV {
    pub version: u32,
    pub header: HeaderV,
    pub constraints: Seq<ConstraintsV>,
}

impl View for R1CSFile {
    type V = FileV;

    open spec fn view(&self) -> FileV {
        FileV {
            version: self.version,
            header: self.header@,
            constraints: self.constraints.deep_view(),
        }
    }
}

/// The circuit model derived from a file: the flat wire space split into
/// `num_inputs` public variables (the constant wire plus the declared public
/// wires) and `num_aux` private ones.
#[derive(Clone, Debug)]
pub struct R1CS {
    pub num_inputs: usize,
    pub num_aux: usize,
    pub num_variables: usize,
    pub constraints: Vec<Constraints>,
}

/// Mathematical model of an [`R1CS`].
pub struct R1csV {
    pub num_inputs: usize,
    pub num_aux: usize,
    pub num_variables: usize,
    pub constraints: Seq<ConstraintsV>,
}

impl View for R1CS {
    type V = R1csV;

    open spec fn view(&self) -> R1csV {
        R1csV {
            num_inputs: self.num_inputs,
            num_aux: self.num_aux,
            num_variables: self.num_variables,
            constraints: self.constraints.deep_view(),
        }
    }
}

/// The u32 at byte offset `pos` of `d`, little-endian.
pub open spec fn spec_u32_at(d: Seq<u8>, pos: int) -> u32
    recommends
        0 <= pos,
        pos + 4 <= d.len(),
{
    spec_u32_from_le_bytes(d.subrange(pos, pos + 4))
}

/// The u64 at byte offset `pos` of `d`, little-endian.
pub open spec fn spec_u64_at(d: Seq<u8>, pos: int) -> u64
    recommends
        0 <= pos,
        pos + 8 <= d.len(),
{
    spec_u64_from_le_bytes(d.subrange(pos, pos + 8))
}

/// What reading `n` further (index, raw value) term pairs at `pos` yields,
/// after the pairs in `acc`: the terms in file order with each raw value
/// reduced to its canonical field residue, and the position past them.
pub open spec fn spec_read_terms(
    d: Seq<u8>,
    pos: int,
    n: nat,
    acc: Seq<(usize, u32)>,
) -> Result<(Seq<(usize, u32)>, int), R1csError>
    decreases n,
{
    if n == 0 {
        Ok((acc, pos))
    } else if pos + 8 <= d.len() {
        let idx = spec_u32_at(d, pos) as usize;
        let val = crate::field::spec_from_u32(spec_u32_at(d, pos + 4));
        spec_read_terms(d, pos + 8, (n - 1) as nat, acc.push((idx, val)))
    } else {
        Err(R1csError::UnexpectedEof)
    }
}

/// What reading one sparse linear combination at `pos` yields: a u32 term
/// count followed by that many term pairs.
pub open spec fn spec_read_lc(d: Seq<u8>, pos: int) -> Result<(Seq<(usize, u32)>, int), R1csError> {
    if pos + 4 <= d.len() {
        spec_read_terms(d, pos + 4, spec_u32_at(d, pos) as nat, Seq::empty())
    } else {
        Err(R1csError::UnexpectedEof)
    }
}

/// What reading `n` further constraints at `pos` yields, after those in
/// `acc`: each constraint is three consecutive linear combinations in the
/// fixed order A, B, C.
pub open spec fn spec_read_constraints(
    d: Seq<u8>,
    pos: int,
    n: nat,
    acc: Seq<ConstraintsV>,
) -> Result<(Seq<ConstraintsV>, int), R1csError>
    decreases n,
{
    if n == 0 {
        Ok((acc, pos))
    } else {
        match spec_read_lc(d, pos) {
            Err(e) => Err(e),
            Ok((a, p1)) => match spec_read_lc(d, p1) {
                Err(e) => Err(e),
                Ok((b, p2)) => match spec_read_lc(d, p2) {
                    Err(e) => Err(e),
                    Ok((c, p3)) => spec_read_constraints(d, p3, (n - 1) as nat, acc.push((a, b, c))),
                },
            },
        }
    }
}

/// What parsing the header section at `pos` with declared length `size`
/// yields: the field width must be 4, the declared length 32 + width, and
/// the modulus fingerprint the one supported value; then the six counts
/// follow in fixed order.
pub open spec fn spec_parse_header(d: Seq<u8>, pos: int, size: u64) -> Result<HeaderV, R1csError> {
    if !(pos + 4 <= d.len()) {
        Err(R1csError::UnexpectedEof)
    } else if spec_u32_at(d, pos) != 4 {
        Err(R1csError::UnsupportedFieldSize)
    } else if size != 36 {
        Err(R1csError::InvalidHeaderSize)
    } else if !(pos + 8 <= d.len()) {
        Err(R1csError::UnexpectedEof)
    } else if spec_u32_at(d, pos + 4) != FIELD_MODULUS {
        Err(R1csError::UnsupportedModulus)
    } else if !(pos + 36 <= d.len()) {
        Err(R1csError::UnexpectedEof)
    } else {
        Ok(HeaderV {
            field_size: 4,
            prime_size: d.subrange(pos + 4, pos + 8),
            n_wires: spec_u32_at(d, pos + 8),
            n_pub_out: spec_u32_at(d, pos + 12),
            n_pub_in: spec_u32_at(d, pos + 16),
            n_prv_in: spec_u32_at(d, pos + 20),
            n_labels: spec_u64_at(d, pos + 24),
            n_constraints: spec_u32_at(d, pos + 32),
        })
    }
}

/// What scanning `n` further section headers at `pos` yields: the data
/// offset and declared length last recorded for the header section and for
/// the constraint section. A later section of the same type overwrites an
/// earlier one; other section types are skipped over. Each declared length
/// is trusted for the skip to the next section header.
pub open spec fn spec_scan_sections(
    d: Seq<u8>,
    pos: int,
    n: nat,
    hdr: Option<(int, u64)>,
    cons: Option<(int, u64)>,
) -> Result<(Option<(int, u64)>, Option<(int, u64)>), R1csError>
    decreases n,
{
    if n == 0 {
        Ok((hdr, cons))
    } else if pos + 12 <= d.len() {
        let ty = spec_u32_at(d, pos);
        let size = spec_u64_at(d, pos + 4);
        let off = pos + 12;
        let hdr2 = if ty == HEADER_SECTION {
            Some((off, size))
        } else {
            hdr
        };
        let cons2 = if ty == CONSTRAINT_SECTION {
            Some((off, size))
        } else {
            cons
        };
        if off + size <= u64::MAX {
            spec_scan_sections(d, off + size, (n - 1) as nat, hdr2, cons2)
        } else {
            Err(R1csError::UnexpectedEof)
        }
    } else {
        Err(R1csError::UnexpectedEof)
    }
}

/// What parsing a whole container yields: magic, version and section count,
/// then the section scan, then the header section, then the constraint
/// section. The header is validated before any constraint bytes are read.
pub open spec fn spec_parse(d: Seq<u8>) -> Result<FileV, R1csError> {
    if !(4 <= d.len()) {
        Err(R1csError::UnexpectedEof)
    } else if spec_u32_at(d, 0) != MAGIC {
        Err(R1csError::InvalidMagic)
    } else if !(8 <= d.len()) {
        Err(R1csError::UnexpectedEof)
    } else if spec_u32_at(d, 4) != SUPPORTED_VERSION {
        Err(R1csError::UnsupportedVersion)
    } else if !(12 <= d.len()) {
        Err(R1csError::UnexpectedEof)
    } else {
        match spec_scan_sections(d, 12, spec_u32_at(d, 8) as nat, None, None) {
            Err(e) => Err(e),
            Ok((hdr_sec, cons_sec)) => match hdr_sec {
                None => Err(R1csError::MissingHeaderSection),
                Some(hs) => match spec_parse_header(d, hs.0, hs.1) {
                    Err(e) => Err(e),
                    Ok(h) => match cons_sec {
                        None => Err(R1csError::MissingConstraintSection),
                        Some(cs) => match spec_read_constraints(
                            d,
                            cs.0,
                            h.n_constraints as nat,
                            Seq::empty(),
                        ) {
                            Err(e) => Err(e),
                            Ok((constraints, _)) => Ok(FileV {
                                version: SUPPORTED_VERSION,
                                header: h,
                                constraints,
                            }),
                        },
                    },
                },
            },
        }
    }
}

/// True exactly when `n` more bytes are available at position `pos`.
fn has_bytes(d: &[u8], pos: u64, n: u64) -> (b: bool)
    ensures
        b == (pos + n <= d@.len()),
        d@.len() <= usize::MAX,
{
    n <= d.len() as u64 && pos <= d.len() as u64 - n
}

/// Read the little-endian u32 at `pos`.
fn u32_at(d: &[u8], pos: u64) -> (x: u32)
    requires
        pos + 4 <= d@.len(),
    ensures
        x == spec_u32_at(d@, pos as int),
{
    proof {
        assert(spec_slice_len(d) == d@.len());
    }
    let s = slice_subrange(d, pos as usize, pos as usize + 4);
    u32_from_le_bytes(s)
}

/// Read the little-endian u64 at `pos`.
fn u64_at(d: &[u8], pos: u64) -> (x: u64)
    requires
        pos + 8 <= d@.len(),
    ensures
        x == spec_u64_at(d@, pos as int),
{
    proof {
        assert(spec_slice_len(d) == d@.len());
    }
    let s = slice_subrange(d, pos as usize, pos as usize + 8);
    u64_from_le_bytes(s)
}

/// `deep_view` distributes over pushing a term pair.
proof fn lemma_terms_push(v: Vec<(usize, u32)>, w: Vec<(usize, u32)>, t: (usize, u32))
    requires
        w@ == v@.push(t),
    ensures
        w.deep_view() == v.deep_view().push(t),
{
    assert(w.deep_view() =~= v.deep_view().push(t));
}

/// `deep_view` distributes over pushing a constraint triple.
proof fn lemma_constraints_push(v: Vec<Constraints>, w: Vec<Constraints>, t: Constraints)
    requires
        w@ == v@.push(t),
    ensures
        w.deep_view() == v.deep_view().push(t.deep_view()),
{
    assert(w.deep_view() =~= v.deep_view().push(t.deep_view()));
}

/// Read `n` (index, raw value) pairs at `pos`, reducing each value to its
/// canonical field residue.
fn read_terms(d: &[u8], pos: u64, n: u32) -> (r: Result<(crate::ConstraintVec, u64), R1csError>)
    ensures
        match r {
            Ok(t) => spec_read_terms(d@, pos as int, n as nat, Seq::empty()) == Ok::<
                (Seq<(usize, u32)>, int),
                R1csError,
            >((t.0.deep_view(), t.1 as int)),
            Err(e) => spec_read_terms(d@, pos as int, n as nat, Seq::empty()) == Err::<
                (Seq<(usize, u32)>, int),
                R1csError,
            >(e),
        },
{
    let mut vec: crate::ConstraintVec = Vec::new();
    proof {
        assert(vec.deep_view() =~= Seq::<(usize, u32)>::empty());
    }
    let mut p: u64 = pos;
    let mut i: u32 = 0;
    while i < n
        invariant
            i <= n,
            spec_read_terms(d@, pos as int, n as nat, Seq::empty()) == spec_read_terms(
                d@,
                p as int,
                (n - i) as nat,
                vec.deep_view(),
            ),
        decreases n - i,
    {
        if !has_bytes(d, p, 8) {
            return Err(R1csError::UnexpectedEof);
        }
        let idx = u32_at(d, p);
        let raw = u32_at(d, p + 4);
        let val = crate::field::from_u32(raw);
        let ghost prev = vec;
        vec.push((idx as usize, val));
        proof {
            lemma_terms_push(prev, vec, (idx as usize, val));
        }
        p = p + 8;
        i = i + 1;
    }
    Ok((vec, p))
}

/// Read one sparse linear combination at `pos`: a u32 term count, then that
/// many term pairs.
fn read_lc(d: &[u8], pos: u64) -> (r: Result<(crate::ConstraintVec, u64), R1csError>)
    ensures
        match r {
            Ok(t) => spec_read_lc(d@, pos as int) == Ok::<(Seq<(usize, u32)>, int), R1csError>(
                (t.0.deep_view(), t.1 as int),
            ),
            Err(e) => spec_read_lc(d@, pos as int) == Err::<(Seq<(usize, u32)>, int), R1csError>(e),
        },
{
    if !has_bytes(d, pos, 4) {
        return Err(R1csError::UnexpectedEof);
    }
    let n = u32_at(d, pos);
    read_terms(d, pos + 4, n)
}

/// Read `n` constraints at `pos`, each as three consecutive linear
/// combinations in the order A, B, C.
fn read_constraints(d: &[u8], pos: u64, n: u32) -> (r: Result<
    (Vec<Constraints>, u64),
    R1csError,
>)
    ensures
        match r {
            Ok(t) => spec_read_constraints(d@, pos as int, n as nat, Seq::empty()) == Ok::<
                (Seq<ConstraintsV>, int),
                R1csError,
            >((t.0.deep_view(), t.1 as int)),
            Err(e) => spec_read_constraints(d@, pos as int, n as nat, Seq::empty()) == Err::<
                (Seq<ConstraintsV>, int),
                R1csError,
            >(e),
        },
{
    let mut vec: Vec<Constraints> = Vec::new();
    proof {
        assert(vec.deep_view() =~= Seq::<ConstraintsV>::empty());
    }
    let mut p: u64 = pos;
    let mut i: u32 = 0;
    while i < n
        invariant
            i <= n,
            spec_read_constraints(d@, pos as int, n as nat, Seq::empty()) == spec_read_constraints(
                d@,
                p as int,
                (n - i) as nat,
                vec.deep_view(),
            ),
        decreases n - i,
    {
        let a = match read_lc(d, p) {
            Ok(t) => t,
            Err(e) => return Err(e),
        };
        let b = match read_lc(d, a.1) {
            Ok(t) => t,
            Err(e) => return Err(e),
        };
        let c = match read_lc(d, b.1) {
            Ok(t) => t,
            Err(e) => return Err(e),
        };
        p = c.1;
        let triple: Constraints = (a.0, b.0, c.0);
        let ghost gtriple = triple;
        let ghost prev = vec;
        vec.push(triple);
        proof {
            lemma_constraints_push(prev, vec, gtriple);
        }
        i = i + 1;
    }
    Ok((vec, p))
}

impl Header {
    /// Parse the header section at `pos` with declared length `size`.
    fn new(d: &[u8], pos: u64, size: u64) -> (r: Result<Header, R1csError>)
        ensures
            match r {
                Ok(h) => spec_parse_header(d@, pos as int, size) == Ok::<HeaderV, R1csError>(h@),
                Err(e) => spec_parse_header(d@, pos as int, size) == Err::<HeaderV, R1csError>(e),
            },
    {
        if !has_bytes(d, pos, 4) {
            return Err(R1csError::UnexpectedEof);
        }
        let field_size = u32_at(d, pos);
        if field_size != 4 {
            return Err(R1csError::UnsupportedFieldSize);
        }
        if size != 36 {
            return Err(R1csError::InvalidHeaderSize);
        }
        if !has_bytes(d, pos, 8) {
            return Err(R1csError::UnexpectedEof);
        }
        if u32_at(d, pos + 4) != FIELD_MODULUS {
            return Err(R1csError::UnsupportedModulus);
        }
        let prime_size = slice_to_vec(slice_subrange(d, pos as usize + 4, pos as usize + 8));
        if !has_bytes(d, pos, 36) {
            return Err(R1csError::UnexpectedEof);
        }
        let h = Header {
            field_size,
            prime_size,
            n_wires: u32_at(d, pos + 8),
            n_pub_out: u32_at(d, pos + 12),
            n_pub_in: u32_at(d, pos + 16),
            n_prv_in: u32_at(d, pos + 20),
            n_labels: u64_at(d, pos + 24),
            n_constraints: u32_at(d, pos + 32),
        };
        Ok(h)
    }
}

/// Scan `n` section headers at `pos`, recording the data offset and the
/// declared length of the header and constraint sections.
fn scan_sections(d: &[u8], pos: u64, n: u32) -> (r: Result<
    (Option<(u64, u64)>, Option<(u64, u64)>),
    R1csError,
>)
    ensures
        match r {
            Ok(t) => spec_scan_sections(d@, pos as int, n as nat, None, None) == Ok::<
                (Option<(int, u64)>, Option<(int, u64)>),
                R1csError,
            >((sec_entry_view(t.0), sec_entry_view(t.1))),
            Err(e) => spec_scan_sections(d@, pos as int, n as nat, None, None) == Err::<
                (Option<(int, u64)>, Option<(int, u64)>),
                R1csError,
            >(e),
        },
{
    let mut hdr: Option<(u64, u64)> = None;
    let mut cons: Option<(u64, u64)> = None;
    let mut p: u64 = pos;
    let mut i: u32 = 0;
    while i < n
        invariant
            i <= n,
            spec_scan_sections(d@, pos as int, n as nat, None, None) == spec_scan_sections(
                d@,
                p as int,
                (n - i) as nat,
                sec_entry_view(hdr),
                sec_entry_view(cons),
            ),
        decreases n - i,
    {
        if !has_bytes(d, p, 12) {
            return Err(R1csError::UnexpectedEof);
        }
        let ty = u32_at(d, p);
        let size = u64_at(d, p + 4);
        let off = p + 12;
        if ty == HEADER_SECTION {
            hdr = Some((off, size));
        }
        if ty == CONSTRAINT_SECTION {
            cons = Some((off, size));
        }
        if size > u64::MAX - off {
            return Err(R1csError::UnexpectedEof);
        }
        p = off + size;
        i = i + 1;
    }
    Ok((hdr, cons))
}

/// The spec-level counterpart of a recorded section entry.
pub open spec fn sec_entry_view(o: Option<(u64, u64)>) -> Option<(int, u64)> {
    match o {
        None => None,
        Some(t) => Some((t.0 as int, t.1)),
    }
}

impl R1CSFile {
    /// Parse an R1CS container from its raw bytes.
    ///
    /// Returns exactly what [`spec_parse`] says: the parsed file on the one
    /// hand, or, for any malformed, unsupported or truncated input, the
    /// typed error that the specification assigns to it.
    pub fn new(data: &[u8]) -> (r: Result<R1CSFile, R1csError>)
        ensures
            match r {
                Ok(f) => spec_parse(data@) == Ok::<FileV, R1csError>(f@),
                Err(e) => spec_parse(data@) == Err::<FileV, R1csError>(e),
            },
    {
        if !has_bytes(data, 0, 4) {
            return Err(R1csError::UnexpectedEof);
        }
        if u32_at(data, 0) != MAGIC {
            return Err(R1csError::InvalidMagic);
        }
        if !has_bytes(data, 0, 8) {
            return Err(R1csError::UnexpectedEof);
        }
        let version = u32_at(data, 4);
        if version != SUPPORTED_VERSION {
            return Err(R1csError::UnsupportedVersion);
        }
        if !has_bytes(data, 0, 12) {
            return Err(R1csError::UnexpectedEof);
        }
        let num_sections = u32_at(data, 8);
        let secs = match scan_sections(data, 12, num_sections) {
            Ok(t) => t,
            Err(e) => return Err(e),
        };
        let hs = match secs.0 {
            Some(t) => t,
            None => return Err(R1csError::MissingHeaderSection),
        };
        let header = match Header::new(data, hs.0, hs.1) {
            Ok(h) => h,
            Err(e) => return Err(e),
        };
        let cs = match secs.1 {
            Some(t) => t,
            None => return Err(R1csError::MissingConstraintSection),
        };
        let constraints = match read_constraints(data, cs.0, header.n_constraints) {
            Ok(t) => t.0,
            Err(e) => return Err(e),
        };
        Ok(R1CSFile { version, header, constraints })
    }
}

/// The circuit model [`spec_derive`]d from a parsed file: the constant wire
/// and the declared public wires become the public variables, every further
/// wire a private one, and the constraints are carried over unchanged.
pub open spec fn spec_derive(f: FileV) -> R1csV {
    R1csV {
        num_inputs: (1 + f.header.n_pub_in + f.header.n_pub_out) as usize,
        num_aux: (f.header.n_wires - (1 + f.header.n_pub_in + f.header.n_pub_out)) as usize,
        num_variables: f.header.n_wires as usize,
        constraints: f.constraints,
    }
}

/// A header is well formed when its wire count covers the constant wire and
/// the declared public wires.
pub open spec fn header_wf(h: HeaderV) -> bool {
    1 + h.n_pub_in + h.n_pub_out <= h.n_wires
}

impl R1CS {
    /// Derive the circuit model from a parsed file.
    pub fn from(file: R1CSFile) -> (r: R1CS)
        requires
            header_wf(file.header@),
        ensures
            r@ == spec_derive(file@),
            r.num_inputs == 1 + file.header.n_pub_in + file.header.n_pub_out,
            r.num_variables == file.header.n_wires,
            r.num_inputs + r.num_aux == r.num_variables,
            r.constraints@ == file.constraints@,
    {
        let num_inputs = (1 + file.header.n_pub_in + file.header.n_pub_out) as usize;
        let num_variables = file.header.n_wires as usize;
        let num_aux = num_variables - num_inputs;
        R1CS { num_inputs, num_aux, num_variables, constraints: file.constraints }
    }
}

} // verus!
