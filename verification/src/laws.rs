//! The crate-level laws: what holds of parsing and of the derived circuit
//! model beyond the individual function contracts, each proved once and
//! for all inputs it speaks of.

use vstd::bytes::{
    lemma_auto_spec_u32_to_from_le_bytes, lemma_auto_spec_u64_to_from_le_bytes,
    spec_u32_to_le_bytes, spec_u64_to_le_bytes,
};
use vstd::prelude::*;

use crate::backend::{spec_constraint_holds, spec_eval_lc, spec_term_value};
use crate::circuit::{spec_classify, Variable};
use crate::circuit::{circuit_wf, spec_aux_values, spec_public_values, CircuitV};
use crate::field::{is_canonical, spec_from_u32, spec_mul, FIELD_MODULUS};
use crate::r1cs_reader::{
    header_wf, spec_derive, spec_parse, spec_parse_header, spec_read_constraints, spec_read_lc,
    spec_read_terms, spec_scan_sections, spec_u32_at, spec_u64_at, FileV, HeaderV,
    CONSTRAINT_SECTION, HEADER_SECTION, MAGIC, SUPPORTED_VERSION,
};
use crate::r1cs_reader::R1csError;
use crate::ConstraintsV;

verus! {

/// Dimension round-trip: when the wire count is the constant wire plus the
/// declared public wires plus `aux_count` private ones, the derived circuit
/// model splits the wire space exactly: `num_inputs` is one more than the
/// declared public wires, and public and private variables together cover
/// every wire.
pub proof fn lemma_derived_dimensions(f: FileV, aux_count: nat)
    requires
        f.header.n_wires == 1 + f.header.n_pub_in + f.header.n_pub_out + aux_count,
    ensures
        header_wf(f.header),
        spec_derive(f).num_inputs == 1 + f.header.n_pub_in + f.header.n_pub_out,
        spec_derive(f).num_aux == aux_count,
        spec_derive(f).num_inputs + spec_derive(f).num_aux == spec_derive(f).num_variables,
{
}

/// Rejection: a stream whose first four bytes are not the magic token
/// parses to the invalid-magic error and to nothing else.
pub proof fn lemma_parse_rejects_bad_magic(d: Seq<u8>)
    requires
        d.len() >= 4,
        d.subrange(0, 4) != spec_u32_to_le_bytes(MAGIC),
    ensures
        spec_parse(d) == Err::<FileV, R1csError>(R1csError::InvalidMagic),
{
    lemma_auto_spec_u32_to_from_le_bytes();
    assert(d.subrange(0, 4).len() == 4);
}

/// Rejection: a stream with the magic token but a version other than 1
/// parses to the unsupported-version error.
pub proof fn lemma_parse_rejects_bad_version(d: Seq<u8>)
    requires
        d.len() >= 8,
        spec_u32_at(d, 0) == MAGIC,
        spec_u32_at(d, 4) != 1,
    ensures
        spec_parse(d) == Err::<FileV, R1csError>(R1csError::UnsupportedVersion),
{
}

/// Rejection: a header section whose field byte-width is not 4 parses to
/// the unsupported-field-size error.
pub proof fn lemma_header_rejects_field_size(d: Seq<u8>, pos: int, size: u64)
    requires
        0 <= pos,
        pos + 4 <= d.len(),
        spec_u32_at(d, pos) != 4,
    ensures
        spec_parse_header(d, pos, size) == Err::<HeaderV, R1csError>(
            R1csError::UnsupportedFieldSize,
        ),
{
}

/// Rejection: a header section whose modulus fingerprint differs from the
/// little-endian bytes of the supported modulus parses to the
/// unsupported-modulus error.
pub proof fn lemma_header_rejects_modulus(d: Seq<u8>, pos: int)
    requires
        0 <= pos,
        pos + 8 <= d.len(),
        spec_u32_at(d, pos) == 4,
        d.subrange(pos + 4, pos + 8) != spec_u32_to_le_bytes(FIELD_MODULUS),
    ensures
        spec_parse_header(d, pos, 36) == Err::<HeaderV, R1csError>(R1csError::UnsupportedModulus),
{
    lemma_auto_spec_u32_to_from_le_bytes();
    assert(d.subrange(pos + 4, pos + 8).len() == 4);
}

/// Rejection reaches the whole parse: when the container prefix is sound
/// and the section scan records a header section whose parse fails, the
/// whole parse fails with that same error.
pub proof fn lemma_parse_propagates_header_error(
    d: Seq<u8>,
    hs: (int, u64),
    cons: Option<(int, u64)>,
    e: R1csError,
)
    requires
        d.len() >= 12,
        spec_u32_at(d, 0) == MAGIC,
        spec_u32_at(d, 4) == 1,
        spec_scan_sections(d, 12, spec_u32_at(d, 8) as nat, None, None) == Ok::<
            (Option<(int, u64)>, Option<(int, u64)>),
            R1csError,
        >((Some(hs), cons)),
        spec_parse_header(d, hs.0, hs.1) == Err::<HeaderV, R1csError>(e),
    ensures
        spec_parse(d) == Err::<FileV, R1csError>(e),
{
}

/// Reading terms yields exactly as many as asked for, after those already
/// accumulated.
pub proof fn lemma_read_terms_count(d: Seq<u8>, pos: int, n: nat, acc: Seq<(usize, u32)>)
    requires
        spec_read_terms(d, pos, n, acc) is Ok,
    ensures
        spec_read_terms(d, pos, n, acc)->Ok_0.0.len() == acc.len() + n,
    decreases n,
{
    if n != 0 {
        let idx = spec_u32_at(d, pos) as usize;
        let val = spec_from_u32(spec_u32_at(d, pos + 4));
        lemma_read_terms_count(d, pos + 8, (n - 1) as nat, acc.push((idx, val)));
    }
}

/// Reading constraints yields exactly as many as asked for, after those
/// already accumulated.
pub proof fn lemma_read_constraints_count(d: Seq<u8>, pos: int, n: nat, acc: Seq<ConstraintsV>)
    requires
        spec_read_constraints(d, pos, n, acc) is Ok,
    ensures
        spec_read_constraints(d, pos, n, acc)->Ok_0.0.len() == acc.len() + n,
    decreases n,
{
    if n != 0 {
        let a = spec_read_lc(d, pos)->Ok_0;
        let b = spec_read_lc(d, a.1)->Ok_0;
        let c = spec_read_lc(d, b.1)->Ok_0;
        lemma_read_constraints_count(d, c.1, (n - 1) as nat, acc.push((a.0, b.0, c.0)));
    }
}

/// The offsets the section scan records lie within the data.
proof fn lemma_scan_offsets_in_range(
    d: Seq<u8>,
    pos: int,
    n: nat,
    hdr: Option<(int, u64)>,
    cons: Option<(int, u64)>,
)
    requires
        0 <= pos,
        spec_scan_sections(d, pos, n, hdr, cons) is Ok,
        hdr matches Some(t) ==> 0 <= t.0 <= d.len(),
        cons matches Some(t) ==> 0 <= t.0 <= d.len(),
    ensures
        ({
            let r = spec_scan_sections(d, pos, n, hdr, cons)->Ok_0;
            &&& (r.0 matches Some(t) ==> 0 <= t.0 <= d.len())
            &&& (r.1 matches Some(t) ==> 0 <= t.0 <= d.len())
        }),
    decreases n,
{
    if n != 0 {
        let ty = spec_u32_at(d, pos);
        let size = spec_u64_at(d, pos + 4);
        let off = pos + 12;
        let hdr2 = if ty == HEADER_SECTION {
            Some((off, size))
        } else {
            hdr
        };
        let cons2 = if ty == CONSTRAINT_SECTION {
            Some((off, size))
        } else {
            cons
        };
        lemma_scan_offsets_in_range(d, off + size, (n - 1) as nat, hdr2, cons2);
    }
}

/// A parsed model is valid on its face: the version is 1, the field width
/// is 4, the modulus fingerprint is the one supported value, and the
/// constraints are exactly as many as the header declares.
pub proof fn lemma_parsed_model_valid(d: Seq<u8>, f: FileV)
    requires
        spec_parse(d) == Ok::<FileV, R1csError>(f),
    ensures
        f.version == 1,
        f.header.field_size == 4,
        f.header.prime_size == crate::r1cs_reader::prime_bytes(),
        f.constraints.len() == f.header.n_constraints,
{
    lemma_auto_spec_u32_to_from_le_bytes();
    let scan = spec_scan_sections(d, 12, spec_u32_at(d, 8) as nat, None, None);
    assert(scan is Ok);
    lemma_scan_offsets_in_range(d, 12, spec_u32_at(d, 8) as nat, None, None);
    let secs = scan->Ok_0;
    assert(secs.0 is Some);
    let hs = secs.0->Some_0;
    let hres = spec_parse_header(d, hs.0, hs.1);
    assert(hres is Ok);
    let h = hres->Ok_0;
    assert(secs.1 is Some);
    let cs = secs.1->Some_0;
    assert(hs.0 + 36 <= d.len());
    assert(h.prime_size =~= spec_u32_to_le_bytes(FIELD_MODULUS)) by {
        assert(h.prime_size == d.subrange(hs.0 + 4, hs.0 + 8));
        assert(h.prime_size.len() == 4);
        assert(spec_u32_at(d, hs.0 + 4) == FIELD_MODULUS);
    }
    lemma_read_constraints_count(d, cs.0, h.n_constraints as nat, Seq::empty());
}

/// Whether every coefficient of a sparse row is a canonical field residue.
pub open spec fn lc_canonical(lc: Seq<(usize, u32)>) -> bool {
    forall|j: int| 0 <= j < lc.len() ==> is_canonical((#[trigger] lc[j]).1)
}

/// Whether every coefficient of every row of every constraint is a
/// canonical field residue.
pub open spec fn constraints_canonical(cs: Seq<ConstraintsV>) -> bool {
    forall|i: int|
        0 <= i < cs.len() ==> lc_canonical((#[trigger] cs[i]).0) && lc_canonical(cs[i].1)
            && lc_canonical(cs[i].2)
}

/// Term reading emits canonical residues only.
proof fn lemma_read_terms_canonical(d: Seq<u8>, pos: int, n: nat, acc: Seq<(usize, u32)>)
    requires
        spec_read_terms(d, pos, n, acc) is Ok,
        lc_canonical(acc),
    ensures
        lc_canonical(spec_read_terms(d, pos, n, acc)->Ok_0.0),
    decreases n,
{
    if n != 0 {
        let idx = spec_u32_at(d, pos) as usize;
        let val = spec_from_u32(spec_u32_at(d, pos + 4));
        assert(lc_canonical(acc.push((idx, val))));
        lemma_read_terms_canonical(d, pos + 8, (n - 1) as nat, acc.push((idx, val)));
    }
}

/// Constraint reading emits canonical residues only.
proof fn lemma_read_constraints_canonical(d: Seq<u8>, pos: int, n: nat, acc: Seq<ConstraintsV>)
    requires
        spec_read_constraints(d, pos, n, acc) is Ok,
        constraints_canonical(acc),
    ensures
        constraints_canonical(spec_read_constraints(d, pos, n, acc)->Ok_0.0),
    decreases n,
{
    if n != 0 {
        let a = spec_read_lc(d, pos)->Ok_0;
        let b = spec_read_lc(d, a.1)->Ok_0;
        let c = spec_read_lc(d, b.1)->Ok_0;
        assert(lc_canonical(Seq::<(usize, u32)>::empty()));
        lemma_read_terms_canonical(d, pos + 4, spec_u32_at(d, pos) as nat, Seq::empty());
        lemma_read_terms_canonical(d, a.1 + 4, spec_u32_at(d, a.1) as nat, Seq::empty());
        lemma_read_terms_canonical(d, b.1 + 4, spec_u32_at(d, b.1) as nat, Seq::empty());
        assert(constraints_canonical(acc.push((a.0, b.0, c.0))));
        lemma_read_constraints_canonical(d, c.1, (n - 1) as nat, acc.push((a.0, b.0, c.0)));
    }
}

/// Every coefficient of a parsed model is the canonical residue of the raw
/// 32-bit value it was read from: the parser hands out field elements, not
/// raw file words.
pub proof fn lemma_parsed_model_canonical(d: Seq<u8>, f: FileV)
    requires
        spec_parse(d) == Ok::<FileV, R1csError>(f),
    ensures
        constraints_canonical(f.constraints),
{
    let scan = spec_scan_sections(d, 12, spec_u32_at(d, 8) as nat, None, None);
    assert(scan is Ok);
    let secs = scan->Ok_0;
    let hs = secs.0->Some_0;
    let h = spec_parse_header(d, hs.0, hs.1)->Ok_0;
    let cs = secs.1->Some_0;
    assert(constraints_canonical(Seq::<ConstraintsV>::empty()));
    lemma_read_constraints_canonical(d, cs.0, h.n_constraints as nat, Seq::empty());
}

/// One encoded section: its type, its declared byte length, its payload.
pub open spec fn spec_section(ty: u32, payload: Seq<u8>) -> Seq<u8> {
    spec_u32_to_le_bytes(ty) + spec_u64_to_le_bytes(payload.len() as u64) + payload
}

/// A whole container holding exactly two sections, in the given order.
pub open spec fn spec_two_section_file(ty1: u32, p1: Seq<u8>, ty2: u32, p2: Seq<u8>) -> Seq<u8> {
    spec_u32_to_le_bytes(MAGIC) + spec_u32_to_le_bytes(SUPPORTED_VERSION) + spec_u32_to_le_bytes(
        2u32,
    ) + spec_section(ty1, p1) + spec_section(ty2, p2)
}

/// Locality of term reading: a term-pair run that succeeds inside a
/// standalone byte string succeeds identically, shifted, wherever that
/// string occurs in a larger one.
pub proof fn lemma_read_terms_local(
    cp: Seq<u8>,
    d: Seq<u8>,
    base: int,
    pos: int,
    n: nat,
    acc: Seq<(usize, u32)>,
)
    requires
        0 <= base,
        base + cp.len() <= d.len(),
        d.subrange(base, base + cp.len()) == cp,
        0 <= pos <= cp.len(),
        spec_read_terms(cp, pos, n, acc) is Ok,
    ensures
        ({
            let t = spec_read_terms(cp, pos, n, acc)->Ok_0;
            pos <= t.1 <= cp.len() && spec_read_terms(d, base + pos, n, acc) == Ok::<
                (Seq<(usize, u32)>, int),
                R1csError,
            >((t.0, base + t.1))
        }),
    decreases n,
{
    if n == 0 {
    } else {
        assert(pos + 8 <= cp.len());
        assert(d.subrange(base + pos, base + pos + 4) =~= cp.subrange(pos, pos + 4)) by {
            assert(forall|j: int|
                0 <= j < cp.len() ==> #[trigger] d[base + j] == cp[j]) by {
                assert(forall|j: int|
                    0 <= j < cp.len() ==> cp[j] == #[trigger] d.subrange(base, base + cp.len())[j]);
            }
        }
        assert(d.subrange(base + pos + 4, base + pos + 8) =~= cp.subrange(pos + 4, pos + 8)) by {
            assert(forall|j: int|
                0 <= j < cp.len() ==> cp[j] == #[trigger] d.subrange(base, base + cp.len())[j]);
        }
        let idx = spec_u32_at(cp, pos) as usize;
        let val = crate::field::spec_from_u32(spec_u32_at(cp, pos + 4));
        lemma_read_terms_local(cp, d, base, pos + 8, (n - 1) as nat, acc.push((idx, val)));
    }
}

/// Locality of linear-combination reading, as for term reading.
pub proof fn lemma_read_lc_local(cp: Seq<u8>, d: Seq<u8>, base: int, pos: int)
    requires
        0 <= base,
        base + cp.len() <= d.len(),
        d.subrange(base, base + cp.len()) == cp,
        0 <= pos <= cp.len(),
        spec_read_lc(cp, pos) is Ok,
    ensures
        ({
            let t = spec_read_lc(cp, pos)->Ok_0;
            pos <= t.1 <= cp.len() && spec_read_lc(d, base + pos) == Ok::<
                (Seq<(usize, u32)>, int),
                R1csError,
            >((t.0, base + t.1))
        }),
{
    assert(pos + 4 <= cp.len());
    assert(d.subrange(base + pos, base + pos + 4) =~= cp.subrange(pos, pos + 4)) by {
        assert(forall|j: int|
            0 <= j < cp.len() ==> cp[j] == #[trigger] d.subrange(base, base + cp.len())[j]);
    }
    let n = spec_u32_at(cp, pos) as nat;
    lemma_read_terms_local(cp, d, base, pos + 4, n, Seq::empty());
}

/// Locality of constraint reading, as for term reading.
pub proof fn lemma_read_constraints_local(
    cp: Seq<u8>,
    d: Seq<u8>,
    base: int,
    pos: int,
    n: nat,
    acc: Seq<ConstraintsV>,
)
    requires
        0 <= base,
        base + cp.len() <= d.len(),
        d.subrange(base, base + cp.len()) == cp,
        0 <= pos <= cp.len(),
        spec_read_constraints(cp, pos, n, acc) is Ok,
    ensures
        ({
            let t = spec_read_constraints(cp, pos, n, acc)->Ok_0;
            pos <= t.1 <= cp.len() && spec_read_constraints(d, base + pos, n, acc) == Ok::<
                (Seq<ConstraintsV>, int),
                R1csError,
            >((t.0, base + t.1))
        }),
    decreases n,
{
    if n == 0 {
    } else {
        let a = spec_read_lc(cp, pos)->Ok_0;
        lemma_read_lc_local(cp, d, base, pos);
        let b = spec_read_lc(cp, a.1)->Ok_0;
        lemma_read_lc_local(cp, d, base, a.1);
        let c = spec_read_lc(cp, b.1)->Ok_0;
        lemma_read_lc_local(cp, d, base, b.1);
        lemma_read_constraints_local(cp, d, base, c.1, (n - 1) as nat, acc.push((a.0, b.0, c.0)));
    }
}

/// Locality of header parsing: a 36-byte header section parses the same
/// standalone and wherever it occurs in a larger byte string, whatever the
/// outcome.
pub proof fn lemma_parse_header_local(hp: Seq<u8>, d: Seq<u8>, base: int, size: u64)
    requires
        hp.len() == 36,
        0 <= base,
        base + 36 <= d.len(),
        d.subrange(base, base + 36) == hp,
    ensures
        spec_parse_header(d, base, size) == spec_parse_header(hp, 0, size),
{
    assert(forall|j: int| 0 <= j < 36 ==> hp[j] == #[trigger] d.subrange(base, base + 36)[j]);
    assert(d.subrange(base, base + 4) =~= hp.subrange(0, 4));
    assert(d.subrange(base + 4, base + 8) =~= hp.subrange(4, 8));
    assert(d.subrange(base + 8, base + 12) =~= hp.subrange(8, 12));
    assert(d.subrange(base + 12, base + 16) =~= hp.subrange(12, 16));
    assert(d.subrange(base + 16, base + 20) =~= hp.subrange(16, 20));
    assert(d.subrange(base + 20, base + 24) =~= hp.subrange(20, 24));
    assert(d.subrange(base + 24, base + 32) =~= hp.subrange(24, 32));
    assert(d.subrange(base + 32, base + 36) =~= hp.subrange(32, 36));
}

/// Section independence: a container that carries its header and its
/// constraint sections in the reversed file order parses to the identical
/// outcome, model and error alike. The constraint payload must hold the
/// whole constraint run whenever the header parses, since the reader
/// otherwise runs past the section boundary, which the format does not
/// defend against.
pub proof fn lemma_section_order_independent(hp: Seq<u8>, cp: Seq<u8>)
    requires
        hp.len() == 36,
        cp.len() + 200 <= u64::MAX,
        (match spec_parse_header(hp, 0, 36) {
            Ok(h) => spec_read_constraints(cp, 0, h.n_constraints as nat, Seq::empty()) is Ok,
            Err(_) => true,
        }),
    ensures
        spec_parse(spec_two_section_file(HEADER_SECTION, hp, CONSTRAINT_SECTION, cp))
            == spec_parse(spec_two_section_file(CONSTRAINT_SECTION, cp, HEADER_SECTION, hp)),
{
    lemma_auto_spec_u32_to_from_le_bytes();
    lemma_auto_spec_u64_to_from_le_bytes();
    let d1 = spec_two_section_file(HEADER_SECTION, hp, CONSTRAINT_SECTION, cp);
    let d2 = spec_two_section_file(CONSTRAINT_SECTION, cp, HEADER_SECTION, hp);
    let cl = cp.len() as int;
    assert(d1.len() == 72 + cl);
    assert(d2.len() == 72 + cl);
    lemma_two_section_prefix(HEADER_SECTION, hp, CONSTRAINT_SECTION, cp);
    lemma_two_section_prefix(CONSTRAINT_SECTION, cp, HEADER_SECTION, hp);
    // the section scan of d1 records the header payload at 24 and the
    // constraint payload at 72
    assert(spec_scan_sections(d1, 12, 2, None, None) == spec_scan_sections(
        d1,
        60,
        1,
        Some((24int, 36u64)),
        None,
    ));
    assert(spec_scan_sections(d1, 60, 1, Some((24int, 36u64)), None) == spec_scan_sections(
        d1,
        72 + cl,
        0,
        Some((24int, 36u64)),
        Some((72int, cp.len() as u64)),
    ));
    assert(spec_scan_sections(d1, 12, 2, None, None) == Ok::<
        (Option<(int, u64)>, Option<(int, u64)>),
        R1csError,
    >((Some((24int, 36u64)), Some((72int, cp.len() as u64)))));
    // the section scan of d2 records them in the opposite layout
    assert(spec_scan_sections(d2, 12, 2, None, None) == spec_scan_sections(
        d2,
        24 + cl,
        1,
        None,
        Some((24int, cp.len() as u64)),
    ));
    assert(spec_scan_sections(d2, 24 + cl, 1, None, Some((24int, cp.len() as u64)))
        == spec_scan_sections(
        d2,
        72 + cl,
        0,
        Some((36 + cl, 36u64)),
        Some((24int, cp.len() as u64)),
    ));
    assert(spec_scan_sections(d2, 12, 2, None, None) == Ok::<
        (Option<(int, u64)>, Option<(int, u64)>),
        R1csError,
    >((Some((36 + cl, 36u64)), Some((24int, cp.len() as u64)))));
    // both header windows hold exactly `hp`
    lemma_parse_header_local(hp, d1, 24, 36);
    lemma_parse_header_local(hp, d2, 36 + cl, 36);
    match spec_parse_header(hp, 0, 36) {
        Err(_) => {},
        Ok(h) => {
            let n = h.n_constraints as nat;
            lemma_read_constraints_local(cp, d1, 72, 0, n, Seq::empty());
            lemma_read_constraints_local(cp, d2, 24, 0, n, Seq::empty());
        },
    }
}

/// The fixed prefix facts of a two-section container: the magic, version
/// and section count fields, the two section headers, and where the two
/// payloads lie.
proof fn lemma_two_section_prefix(ty1: u32, p1: Seq<u8>, ty2: u32, p2: Seq<u8>)
    requires
        p1.len() + p2.len() + 100 <= u64::MAX,
    ensures
        ({
            let d = spec_two_section_file(ty1, p1, ty2, p2);
            let l1 = p1.len() as int;
            &&& d.len() == 36 + l1 + p2.len()
            &&& spec_u32_at(d, 0) == MAGIC
            &&& spec_u32_at(d, 4) == SUPPORTED_VERSION
            &&& spec_u32_at(d, 8) == 2
            &&& spec_u32_at(d, 12) == ty1
            &&& spec_u64_at(d, 16) == p1.len() as u64
            &&& d.subrange(24, 24 + l1) == p1
            &&& spec_u32_at(d, 24 + l1) == ty2
            &&& spec_u64_at(d, 28 + l1) == p2.len() as u64
            &&& d.subrange(36 + l1, 36 + l1 + p2.len() as int) == p2
        }),
{
    lemma_auto_spec_u32_to_from_le_bytes();
    lemma_auto_spec_u64_to_from_le_bytes();
    let d = spec_two_section_file(ty1, p1, ty2, p2);
    let l1 = p1.len() as int;
    assert(d.len() == 36 + l1 + p2.len());
    assert(d.subrange(0, 4) =~= spec_u32_to_le_bytes(MAGIC));
    assert(d.subrange(4, 8) =~= spec_u32_to_le_bytes(SUPPORTED_VERSION));
    assert(d.subrange(8, 12) =~= spec_u32_to_le_bytes(2u32));
    assert(d.subrange(12, 16) =~= spec_u32_to_le_bytes(ty1));
    assert(d.subrange(16, 24) =~= spec_u64_to_le_bytes(p1.len() as u64));
    assert(d.subrange(24, 24 + l1) =~= p1);
    assert(d.subrange(24 + l1, 28 + l1) =~= spec_u32_to_le_bytes(ty2));
    assert(d.subrange(28 + l1, 36 + l1) =~= spec_u64_to_le_bytes(p2.len() as u64));
    assert(d.subrange(36 + l1, 36 + l1 + p2.len() as int) =~= p2);
}

/// A sparse row holding the one term `1 * v` evaluates to the committed
/// value behind `v`, read as a field element.
pub proof fn lemma_unit_lc_value(v: Variable, inst: Seq<u32>, wit: Seq<u32>)
    ensures
        spec_eval_lc(seq![(v, 1u32)], inst, wit) == spec_from_u32(
            crate::backend::spec_var_value(v, inst, wit),
        ),
{
    let lc = seq![(v, 1u32)];
    assert(lc.drop_last() =~= Seq::<(Variable, u32)>::empty());
    assert(lc.last() == (v, 1u32));
    let x = crate::backend::spec_var_value(v, inst, wit);
    assert(spec_from_u32(1u32) == 1u32);
    assert(spec_term_value((v, 1u32), inst, wit) == spec_mul(1u32, spec_from_u32(x)));
    assert(spec_mul(1u32, spec_from_u32(x)) == spec_from_u32(x)) by {
        assert(1 * (spec_from_u32(x) as int) == spec_from_u32(x) as int);
    }
    assert(spec_eval_lc(Seq::<(Variable, u32)>::empty(), inst, wit) == 0u32);
    assert(spec_eval_lc(lc, inst, wit) == crate::field::spec_add(0u32, spec_from_u32(x)));
    assert(crate::field::spec_add(0u32, spec_from_u32(x)) == spec_from_u32(x)) by {
        vstd::arithmetic::div_mod::lemma_small_mod(
            spec_from_u32(x) as nat,
            FIELD_MODULUS as nat,
        );
    }
}

/// Constraint enforcement, on the canonical product constraint: the rows
/// `A = [(1, 1)]`, `B = [(2, 1)]`, `C = [(3, 1)]` translated for three
/// public variables hold of the committed assignment exactly when
/// `w1 * w2 = w3` in the field; the reference backend's
/// `enforce_constraint` accepts or rejects by this very condition.
pub proof fn lemma_product_constraint_decided(w1: u32, w2: u32, w3: u32, w4: u32)
    requires
        is_canonical(w1),
        is_canonical(w2),
        is_canonical(w3),
    ensures
        ({
            let a = seq![(spec_classify(1, 3), 1u32)];
            let b = seq![(spec_classify(2, 3), 1u32)];
            let c = seq![(spec_classify(3, 3), 1u32)];
            let inst = seq![1u32, w1, w2];
            let wit = seq![w3, w4];
            spec_constraint_holds(a, b, c, inst, wit) <==> spec_mul(w1, w2) == w3
        }),
{
    let inst = seq![1u32, w1, w2];
    let wit = seq![w3, w4];
    lemma_unit_lc_value(Variable::Instance(1), inst, wit);
    lemma_unit_lc_value(Variable::Instance(2), inst, wit);
    lemma_unit_lc_value(Variable::Witness(0), inst, wit);
    assert(spec_from_u32(w1) == w1);
    assert(spec_from_u32(w2) == w2);
    assert(spec_from_u32(w3) == w3);
}

/// Witness round-trip: when a witness is present, the public-input portion
/// of the witness is exactly the run of values that synthesis allocates as
/// public variables.
pub proof fn lemma_public_inputs_are_public_values(c: CircuitV)
    requires
        circuit_wf(c),
        c.witness is Some,
    ensures
        c.witness->Some_0.subrange(1, c.r1cs.num_inputs as int) == spec_public_values(c),
{
    assert(c.witness->Some_0.subrange(1, c.r1cs.num_inputs as int) =~= spec_public_values(c));
}

/// Constraint enforcement, end to end: the one-constraint circuit
/// `wire1 * wire2 = wire3` over the witness `[1, w1, w2, w3, w4]` is
/// accepted by synthesis exactly when `w1 * w2 = w3` in the field; with
/// [`crate::backend::synthesize`]'s contract, the satisfied circuit
/// synthesizes without error and the violated one is rejected by the
/// backend.
pub proof fn lemma_product_circuit_accepted(cv: CircuitV, w1: u32, w2: u32, w3: u32, w4: u32)
    requires
        is_canonical(w1),
        is_canonical(w2),
        is_canonical(w3),
        cv.r1cs.num_inputs == 3,
        cv.r1cs.num_aux == 2,
        cv.r1cs.num_variables == 5,
        cv.witness == Some(seq![1u32, w1, w2, w3, w4]),
        cv.r1cs.constraints == seq![
            (seq![(1usize, 1u32)], seq![(2usize, 1u32)], seq![(3usize, 1u32)]),
        ],
    ensures
        crate::backend::spec_circuit_accepted(cv) <==> spec_mul(w1, w2) == w3,
{
    let inst = seq![1u32] + spec_public_values(cv);
    let wit = spec_aux_values(cv);
    assert(inst =~= seq![1u32, w1, w2]);
    assert(wit =~= seq![w3, w4]);
    let tcs = crate::circuit::spec_translate_constraints(cv.r1cs.constraints, cv.r1cs.num_inputs);
    assert(tcs.len() == 1);
    let ra = crate::circuit::spec_translate_lc(seq![(1usize, 1u32)], 3);
    let rb = crate::circuit::spec_translate_lc(seq![(2usize, 1u32)], 3);
    let rc = crate::circuit::spec_translate_lc(seq![(3usize, 1u32)], 3);
    assert(ra =~= seq![(Variable::Instance(1), 1u32)]);
    assert(rb =~= seq![(Variable::Instance(2), 1u32)]);
    assert(rc =~= seq![(Variable::Witness(0), 1u32)]);
    assert(tcs[0] == (ra, rb, rc));
    lemma_product_constraint_decided(w1, w2, w3, w4);
    assert(crate::backend::spec_lc_ok(ra, inst.len(), wit.len()));
    assert(crate::backend::spec_lc_ok(rb, inst.len(), wit.len()));
    assert(crate::backend::spec_lc_ok(rc, inst.len(), wit.len()));
    if spec_mul(w1, w2) == w3 {
        assert(spec_constraint_holds(ra, rb, rc, inst, wit));
        assert(crate::backend::spec_circuit_accepted(cv)) by {
            assert(forall|i: int|
                0 <= i < tcs.len() ==> {
                    let t = #[trigger] tcs[i];
                    &&& crate::backend::spec_lc_ok(t.0, inst.len(), wit.len())
                    &&& crate::backend::spec_lc_ok(t.1, inst.len(), wit.len())
                    &&& crate::backend::spec_lc_ok(t.2, inst.len(), wit.len())
                    &&& spec_constraint_holds(t.0, t.1, t.2, inst, wit)
                });
        }
    } else {
        assert(!spec_constraint_holds(ra, rb, rc, inst, wit));
        assert(!crate::backend::spec_circuit_accepted(cv)) by {
            assert(tcs[0] == (ra, rb, rc));
        }
    }
}

/// A circuit with no constraints is accepted outright: nothing is
/// enforced, so synthesis against the reference backend — the empty
/// circuit's among it — always succeeds.
pub proof fn lemma_no_constraints_accepted(c: CircuitV)
    requires
        c.r1cs.constraints.len() == 0,
    ensures
        crate::backend::spec_circuit_accepted(c),
{
    assert(crate::circuit::spec_translate_constraints(
        c.r1cs.constraints,
        c.r1cs.num_inputs,
    ).len() == 0);
}

/// Allocation ordering: with three public variables (the constant and two
/// declared ones) and two private ones, synthesis without a witness hands
/// the backend exactly two public and two private allocations, and the
/// translation rule sends wire 2 to the second public variable and wire 3
/// to the first private one.
pub proof fn lemma_allocation_ordering(c: CircuitV)
    requires
        circuit_wf(c),
        c.r1cs.num_inputs == 3,
        c.r1cs.num_aux == 2,
        c.witness is None,
    ensures
        spec_public_values(c).len() == 2,
        spec_aux_values(c).len() == 2,
        spec_classify(2, 3) == Variable::Instance(2),
        spec_classify(3, 3) == Variable::Witness(0),
{
}

} // verus!
