use tlapix::event_processor::compute_sha256;
use tlapix::integrity::{compare_checksums, validate_program_integrity, ProgramImage};

fn program(name: &str, image: &[u8]) -> ProgramImage {
    ProgramImage {
        name: name.to_string(),
        image: image.to_vec(),
        checksum: compute_sha256(image),
    }
}

#[test]
fn intact_programs_are_accepted() {
    assert!(validate_program_integrity(&vec![]).is_ok());
    assert!(validate_program_integrity(&vec![program("a", b"one"), program("b", b"two")]).is_ok());
}

#[test]
fn changed_program_is_named() {
    let mut programs = vec![program("a", b"one"), program("b", b"two"), program("c", b"three")];
    programs[1].image.push(0);
    programs[2].checksum[31] ^= 1;
    let error = validate_program_integrity(&programs).unwrap_err();
    assert_eq!(error.message(), "checksum mismatch of eBPF program b");
}

#[test]
fn checksums_are_compared_in_order() {
    let mut programs = vec![program("a", b"one"), program("b", b"two")];
    programs[0].checksum = [1; 32];
    programs[1].checksum = [2; 32];
    assert!(compare_checksums(&programs, &vec![[1; 32], [2; 32]]).is_ok());
    let error = compare_checksums(&programs, &vec![[1; 32], [3; 32]]).unwrap_err();
    assert_eq!(error.message(), "checksum mismatch of eBPF program b");
    let error = compare_checksums(&programs, &vec![[2; 32], [1; 32]]).unwrap_err();
    assert_eq!(error.message(), "checksum mismatch of eBPF program a");
}
