use ark_circom::r1cs_reader::{R1csError, R1CSFile, R1CS};

fn push_u32(out: &mut Vec<u8>, v: u32) {
    out.extend_from_slice(&v.to_le_bytes());
}

fn push_u64(out: &mut Vec<u8>, v: u64) {
    out.extend_from_slice(&v.to_le_bytes());
}

fn header_payload(
    n_wires: u32,
    n_pub_out: u32,
    n_pub_in: u32,
    n_prv_in: u32,
    n_labels: u64,
    n_constraints: u32,
) -> Vec<u8> {
    let mut p = Vec::new();
    push_u32(&mut p, 4);
    p.extend_from_slice(&[0xff, 0xff, 0xff, 0x7f]);
    push_u32(&mut p, n_wires);
    push_u32(&mut p, n_pub_out);
    push_u32(&mut p, n_pub_in);
    push_u32(&mut p, n_prv_in);
    push_u64(&mut p, n_labels);
    push_u32(&mut p, n_constraints);
    p
}

fn lc_payload(terms: &[(u32, u32)]) -> Vec<u8> {
    let mut p = Vec::new();
    push_u32(&mut p, terms.len() as u32);
    for (idx, val) in terms {
        push_u32(&mut p, *idx);
        push_u32(&mut p, *val);
    }
    p
}

fn file_bytes(sections: &[(u32, Vec<u8>)]) -> Vec<u8> {
    let mut d = Vec::new();
    d.extend_from_slice(&[0x72, 0x31, 0x63, 0x73]);
    push_u32(&mut d, 1);
    push_u32(&mut d, sections.len() as u32);
    for (ty, payload) in sections {
        push_u32(&mut d, *ty);
        push_u64(&mut d, payload.len() as u64);
        d.extend_from_slice(payload);
    }
    d
}

/// One constraint `wire1 * wire2 = wire3` over five wires (two public, two
/// private), the circuit used throughout the tests.
fn product_file_bytes() -> Vec<u8> {
    let mut cp = Vec::new();
    cp.extend_from_slice(&lc_payload(&[(1, 1)]));
    cp.extend_from_slice(&lc_payload(&[(2, 1)]));
    cp.extend_from_slice(&lc_payload(&[(3, 1)]));
    file_bytes(&[(1, header_payload(5, 0, 2, 2, 5, 1)), (2, cp)])
}

#[test]
fn parses_valid_file() {
    let f = R1CSFile::new(&product_file_bytes()).unwrap();
    assert_eq!(f.version, 1);
    assert_eq!(f.header.field_size, 4);
    assert_eq!(f.header.prime_size, vec![0xff, 0xff, 0xff, 0x7f]);
    assert_eq!(f.header.n_wires, 5);
    assert_eq!(f.header.n_pub_out, 0);
    assert_eq!(f.header.n_pub_in, 2);
    assert_eq!(f.header.n_prv_in, 2);
    assert_eq!(f.header.n_labels, 5);
    assert_eq!(f.header.n_constraints, 1);
    assert_eq!(f.constraints.len(), 1);
    assert_eq!(f.constraints[0].0, vec![(1usize, 1u32)]);
    assert_eq!(f.constraints[0].1, vec![(2usize, 1u32)]);
    assert_eq!(f.constraints[0].2, vec![(3usize, 1u32)]);
}

#[test]
fn coefficients_are_reduced_to_canonical_residues() {
    // 0xffffffff = 2 * (2^31 - 1) + 1, so it denotes the field element 1,
    // and 0x7fffffff denotes zero
    let mut cp = Vec::new();
    cp.extend_from_slice(&lc_payload(&[(1, 0xffff_ffff), (2, 0x7fff_ffff)]));
    cp.extend_from_slice(&lc_payload(&[(0, 7)]));
    cp.extend_from_slice(&lc_payload(&[(0, 0x8000_0000)]));
    let d = file_bytes(&[(1, header_payload(3, 0, 2, 0, 3, 1)), (2, cp)]);
    let f = R1CSFile::new(&d).unwrap();
    assert_eq!(f.constraints[0].0, vec![(1usize, 1u32), (2usize, 0u32)]);
    assert_eq!(f.constraints[0].1, vec![(0usize, 7u32)]);
    assert_eq!(f.constraints[0].2, vec![(0usize, 1u32)]);
}

#[test]
fn duplicate_indices_are_preserved_as_read() {
    let mut cp = Vec::new();
    cp.extend_from_slice(&lc_payload(&[(1, 2), (1, 3)]));
    cp.extend_from_slice(&lc_payload(&[(0, 1)]));
    cp.extend_from_slice(&lc_payload(&[(2, 5)]));
    let d = file_bytes(&[(1, header_payload(3, 0, 2, 0, 3, 1)), (2, cp)]);
    let f = R1CSFile::new(&d).unwrap();
    assert_eq!(f.constraints[0].0, vec![(1usize, 2u32), (1usize, 3u32)]);
}

#[test]
fn rejects_bad_magic() {
    let mut d = product_file_bytes();
    d[0] = 0x73;
    assert_eq!(R1CSFile::new(&d).unwrap_err(), R1csError::InvalidMagic);
}

#[test]
fn rejects_bad_version() {
    let mut d = product_file_bytes();
    d[4] = 2;
    assert_eq!(R1CSFile::new(&d).unwrap_err(), R1csError::UnsupportedVersion);
}

#[test]
fn rejects_bad_field_size() {
    let mut hp = header_payload(5, 0, 2, 2, 5, 1);
    hp[0] = 8;
    let d = file_bytes(&[(1, hp), (2, Vec::new())]);
    assert_eq!(R1CSFile::new(&d).unwrap_err(), R1csError::UnsupportedFieldSize);
}

#[test]
fn rejects_bad_header_size() {
    let mut hp = header_payload(5, 0, 2, 2, 5, 1);
    hp.push(0);
    let d = file_bytes(&[(1, hp), (2, Vec::new())]);
    assert_eq!(R1CSFile::new(&d).unwrap_err(), R1csError::InvalidHeaderSize);
}

#[test]
fn rejects_bad_modulus() {
    let mut hp = header_payload(5, 0, 2, 2, 5, 1);
    hp[4] = 0x01;
    let d = file_bytes(&[(1, hp), (2, Vec::new())]);
    assert_eq!(R1CSFile::new(&d).unwrap_err(), R1csError::UnsupportedModulus);
}

#[test]
fn rejects_missing_header_section() {
    let d = file_bytes(&[(2, Vec::new())]);
    assert_eq!(R1CSFile::new(&d).unwrap_err(), R1csError::MissingHeaderSection);
}

#[test]
fn rejects_missing_constraint_section() {
    let d = file_bytes(&[(1, header_payload(5, 0, 2, 2, 5, 0))]);
    assert_eq!(R1CSFile::new(&d).unwrap_err(), R1csError::MissingConstraintSection);
}

#[test]
fn rejects_truncated_input() {
    let d = product_file_bytes();
    assert_eq!(R1CSFile::new(&d[..7]).unwrap_err(), R1csError::UnexpectedEof);
    assert_eq!(R1CSFile::new(&d[..d.len() - 1]).unwrap_err(), R1csError::UnexpectedEof);
}

#[test]
fn section_order_does_not_matter() {
    let mut cp = Vec::new();
    cp.extend_from_slice(&lc_payload(&[(1, 1)]));
    cp.extend_from_slice(&lc_payload(&[(2, 1)]));
    cp.extend_from_slice(&lc_payload(&[(3, 1)]));
    let hp = header_payload(5, 0, 2, 2, 5, 1);
    let f1 = R1CSFile::new(&file_bytes(&[(1, hp.clone()), (2, cp.clone())])).unwrap();
    let f2 = R1CSFile::new(&file_bytes(&[(2, cp), (1, hp)])).unwrap();
    assert_eq!(f1.version, f2.version);
    assert_eq!(f1.header.n_wires, f2.header.n_wires);
    assert_eq!(f1.header.n_constraints, f2.header.n_constraints);
    assert_eq!(f1.constraints, f2.constraints);
}

#[test]
fn unknown_sections_are_skipped() {
    let mut cp = Vec::new();
    cp.extend_from_slice(&lc_payload(&[(1, 1)]));
    cp.extend_from_slice(&lc_payload(&[(2, 1)]));
    cp.extend_from_slice(&lc_payload(&[(3, 1)]));
    let d = file_bytes(&[
        (3, vec![9, 9, 9]),
        (1, header_payload(5, 0, 2, 2, 5, 1)),
        (4, vec![1]),
        (2, cp),
    ]);
    let f = R1CSFile::new(&d).unwrap();
    assert_eq!(f.header.n_wires, 5);
    assert_eq!(f.constraints.len(), 1);
}

#[test]
fn empty_circuit_parses() {
    let d = file_bytes(&[(1, header_payload(1, 0, 0, 0, 1, 0)), (2, Vec::new())]);
    let f = R1CSFile::new(&d).unwrap();
    assert_eq!(f.header.n_wires, 1);
    assert_eq!(f.constraints.len(), 0);
}

#[test]
fn fields_are_read_little_endian() {
    let d: Vec<u8> = vec![
        0x72, 0x31, 0x63, 0x73, // magic
        0x01, 0x00, 0x00, 0x00, // version 1
        0x02, 0x00, 0x00, 0x00, // two sections
        0x01, 0x00, 0x00, 0x00, // header section
        0x24, 0x00, 0x00, 0x00, 0x00, 0x00, 0x00, 0x00, // 36 bytes
        0x04, 0x00, 0x00, 0x00, // field size 4
        0xff, 0xff, 0xff, 0x7f, // modulus fingerprint
        0x04, 0x03, 0x02, 0x01, // wire count 0x01020304
        0x00, 0x00, 0x00, 0x00, // no public outputs
        0x02, 0x00, 0x00, 0x00, // two public inputs
        0x01, 0x02, 0x03, 0x00, // private inputs 0x00030201
        0x00, 0x00, 0x00, 0x00, 0x00, 0x01, 0x00, 0x00, // labels 2^40
        0x00, 0x00, 0x00, 0x00, // no constraints
        0x02, 0x00, 0x00, 0x00, // constraint section
        0x00, 0x00, 0x00, 0x00, 0x00, 0x00, 0x00, 0x00, // empty
    ];
    let f = R1CSFile::new(&d).unwrap();
    assert_eq!(f.header.n_wires, 0x0102_0304);
    assert_eq!(f.header.n_pub_in, 2);
    assert_eq!(f.header.n_prv_in, 0x0003_0201);
    assert_eq!(f.header.n_labels, 1u64 << 40);
    assert_eq!(f.header.n_constraints, 0);
}

#[test]
fn derived_model_splits_the_wire_space() {
    let f = R1CSFile::new(&product_file_bytes()).unwrap();
    let r = R1CS::from(f);
    assert_eq!(r.num_inputs, 3);
    assert_eq!(r.num_aux, 2);
    assert_eq!(r.num_variables, 5);
    assert_eq!(r.num_inputs + r.num_aux, r.num_variables);
    assert_eq!(r.constraints.len(), 1);
}
