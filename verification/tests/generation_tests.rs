use lanzatool::bootspec::Bootspec;
use lanzatool::generation::BootspecError;
use lanzatool::generation::Generation;
use lanzatool::profile::Profile;

fn value_of(bytes: &[u8]) -> serde_json::Value {
    serde_json::from_slice(bytes).unwrap()
}

const BOOTSPEC_A: &[u8] = br#"{
    "kernel": "/kernels/a/bzImage",
    "initrd": "/kernels/a/initrd",
    "kernelParams": ["root=/dev/sda1"],
    "init": "/init",
    "extensionField": {"keep": "me"}
}"#;

const BOOTSPEC_B: &[u8] = br#"{
    "kernel": "/kernels/recovery/bzImage",
    "initrd": "/kernels/recovery/initrd",
    "kernelParams": ["single"],
    "init": "/recovery-init"
}"#;

#[test]
fn bootspec_path_joins_the_fixed_segment() {
    let profile = Profile::from_path("/nix/var/nix/profiles/system-1-link").unwrap();
    assert_eq!(
        Generation::bootspec_path(&profile),
        "/nix/var/nix/profiles/system-1-link/bootspec/boot.v1.json"
    );
    let slashed = Profile::from_path("/p/system-2-link/").unwrap();
    assert_eq!(
        Generation::bootspec_path(&slashed),
        "/p/system-2-link/bootspec/boot.v1.json"
    );
}

#[test]
fn missing_bootspec_file_is_an_io_error() {
    let profile = Profile::from_path("/p/system-3-link").unwrap();
    let read = Err("No such file or directory (os error 2)".to_string());
    let err = Generation::from_profile_read(&profile, read).unwrap_err();
    match err {
        BootspecError::Io { path, message } => {
            assert_eq!(path, "/p/system-3-link/bootspec/boot.v1.json");
            assert!(message.contains("No such file"));
        }
        BootspecError::Format { .. } => panic!("expected the I/O kind"),
    }
}

#[test]
fn malformed_bootspec_is_a_format_error() {
    let profile = Profile::from_path("/p/system-3-link").unwrap();
    let read = Ok(b"{ this is not json".to_vec());
    let err = Generation::from_profile_read(&profile, read).unwrap_err();
    match err {
        BootspecError::Format { path, message } => {
            assert_eq!(path, "/p/system-3-link/bootspec/boot.v1.json");
            assert!(!message.is_empty());
        }
        BootspecError::Io { .. } => panic!("expected the format kind"),
    }
}

#[test]
fn resolving_a_profile_yields_its_base_generation() {
    let profile = Profile::from_path("/p/system-7-link").unwrap();
    let generation = Generation::from_profile_read(&profile, Ok(BOOTSPEC_A.to_vec())).unwrap();
    assert_eq!(generation.render(), "7");
    assert_eq!(generation.is_specialized(), None);
    assert_eq!(generation.bootspec.value, value_of(BOOTSPEC_A));
}

#[test]
fn bootspec_from_bytes_round_trips_extension_fields() {
    let bootspec = Bootspec::from_bytes(BOOTSPEC_A).unwrap();
    assert_eq!(bootspec.value, value_of(BOOTSPEC_A));
    assert_eq!(
        bootspec.value.get("extensionField"),
        Some(&value_of(br#"{"keep": "me"}"#))
    );
    assert!(Bootspec::from_bytes(b"]{").is_err());
}

#[test]
fn specialising_keeps_the_version_and_swaps_the_bootspec() {
    let profile = Profile::from_path("/p/system-42-link").unwrap();
    let base = Generation::from_profile_read(&profile, Ok(BOOTSPEC_A.to_vec())).unwrap();
    let replacement = Bootspec::from_bytes(BOOTSPEC_B).unwrap();
    assert_ne!(replacement.value, base.bootspec.value);

    let variant = base.specialise("recovery", &replacement);

    assert_eq!(variant.render(), "42");
    assert_eq!(variant.is_specialized(), Some("recovery".to_string()));
    assert_eq!(variant.bootspec.value, value_of(BOOTSPEC_B));
    // The receiver is untouched: same bootspec, still unspecialised.
    assert_eq!(base.bootspec.value, value_of(BOOTSPEC_A));
    assert_eq!(base.is_specialized(), None);
    assert_eq!(base.render(), "42");
}

#[test]
fn rendering_is_the_decimal_version_alone() {
    let profile = Profile::from_path("/p/system-7-link").unwrap();
    let base = Generation::from_profile_read(&profile, Ok(BOOTSPEC_A.to_vec())).unwrap();
    assert_eq!(base.render(), "7");
    let replacement = Bootspec::from_bytes(BOOTSPEC_B).unwrap();
    let variant = base.specialise("recovery", &replacement);
    assert_eq!(variant.render(), "7");
}
