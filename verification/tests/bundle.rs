use cosmicc::bundle::call::CallPlan;
use cosmicc::bundle::{Artifact, DataArtifact, FunctionArtifact, RelocationArtifact, TARGET};

fn function(name: &str, code: &[u8]) -> FunctionArtifact {
    FunctionArtifact { name: name.into(), code: code.to_vec(), relocations: Vec::new() }
}

fn object(name: &str, bytes: &[u8], align: u32) -> DataArtifact {
    DataArtifact {
        name: name.into(),
        bytes: bytes.to_vec(),
        align,
        read_only: false,
        relocations: Vec::new(),
    }
}

fn bundle(functions: Vec<FunctionArtifact>, data: Vec<DataArtifact>) -> Artifact {
    Artifact { target: TARGET, functions, data }
}

/// `int add(int left, int right)`, as an instruction and a return.
fn add() -> Artifact {
    bundle(vec![function("add", &[0x21, 0x10, 0xe0, 0xc0])], Vec::new())
}

fn refusal(artifact: &Artifact) -> String {
    artifact.to_bytes().unwrap_err().to_string()
}

#[test]
fn cosmic_sia_bundle_round_trips_data_objects() {
    let artifact = Artifact {
        target: TARGET,
        functions: Vec::new(),
        data: vec![DataArtifact {
            name: "global".into(),
            bytes: vec![1, 2, 3, 4],
            align: 4,
            read_only: false,
            relocations: vec![RelocationArtifact {
                offset: 0,
                target: "other".into(),
                addend: 8,
            }],
        }],
    };
    let encoded = artifact.to_bytes().unwrap();
    assert_eq!(Artifact::from_bytes(&encoded).unwrap(), artifact);
}

#[test]
fn cosmic_sia_bundle_round_trips_before_lighting_load() {
    let artifact = add();
    let encoded = artifact.to_bytes().unwrap();
    assert_eq!(Artifact::from_bytes(&encoded).unwrap(), artifact);
}

#[test]
fn bundle_decoder_rejects_truncated_or_ambiguous_code() {
    let artifact = add();
    let encoded = artifact.to_bytes().unwrap();
    assert!(Artifact::from_bytes(&encoded[..encoded.len() - 1])
        .unwrap_err()
        .to_string()
        .contains("truncated COSMIC-SIA"));

    let mut trailing = encoded;
    trailing.push(0);
    assert!(Artifact::from_bytes(&trailing)
        .unwrap_err()
        .to_string()
        .contains("trailing bytes"));
}

#[test]
fn prepares_systemv_register_state_for_external_lighting_execution() {
    let artifact = add();
    let plan = artifact
        .prepare_integer_call("add", 0x0001_0000, &[0xffff_ffff, 1])
        .unwrap();
    assert_eq!(plan.entry_address, 0x0001_0000);
    assert_eq!(
        plan.return_address,
        plan.entry_address + u32::try_from(plan.code.len()).unwrap()
    );
    assert_eq!(plan.registers[0], 0);
    assert_eq!(plan.registers[1], 0xffff_ffff);
    assert_eq!(plan.registers[2], 1);
    assert_eq!(plan.registers[14], plan.return_address);
    assert!(plan.diagnostic().contains("entry=0x00010000"));
    assert!(plan.diagnostic().contains("r1=0xffffffff"));
}

#[test]
fn rejects_an_unaligned_or_unknown_lighting_entry_plan() {
    let artifact = add();
    assert!(artifact
        .prepare_integer_call("add", 1, &[])
        .unwrap_err()
        .to_string()
        .contains("2-byte aligned"));
    assert!(artifact
        .prepare_integer_call("missing", 0, &[])
        .unwrap_err()
        .to_string()
        .contains("no function"));
}

#[test]
fn bundle_bytes_are_laid_out_field_by_field() {
    let artifact = bundle(
        vec![FunctionArtifact {
            name: "f".into(),
            code: vec![0xe0, 0xc0],
            relocations: vec![RelocationArtifact { offset: 0x0102, target: "g".into(), addend: -2 }],
        }],
        vec![DataArtifact {
            name: "d".into(),
            bytes: vec![7, 8],
            align: 2,
            read_only: true,
            relocations: Vec::new(),
        }],
    );
    let mut expected: Vec<u8> = b"COSMIC-SIA\0".to_vec();
    expected.extend_from_slice(&[3, 0, 1, 0]);
    expected.extend_from_slice(&[1, 0, b'f', 2, 0, 0, 0, 0xe0, 0xc0, 1, 0]);
    expected.extend_from_slice(&[0x02, 0x01, 0, 0]);
    expected.extend_from_slice(&[0xfe, 0xff, 0xff, 0xff, 0xff, 0xff, 0xff, 0xff]);
    expected.extend_from_slice(&[1, 0, b'g']);
    expected.extend_from_slice(&[1, 0]);
    expected.extend_from_slice(&[1, 0, b'd', 2, 0, 0, 0, 1, 2, 0, 0, 0, 7, 8, 0, 0]);
    assert_eq!(artifact.to_bytes().unwrap(), expected);
    assert_eq!(Artifact::from_bytes(&expected).unwrap(), artifact);
}

#[test]
fn every_shorter_bundle_is_truncated_and_every_longer_one_trails() {
    let artifact = bundle(
        vec![function("f", &[1, 2])],
        vec![DataArtifact {
            name: "d".into(),
            bytes: vec![0; 8],
            align: 8,
            read_only: false,
            relocations: vec![RelocationArtifact { offset: 4, target: "f".into(), addend: i64::MIN }],
        }],
    );
    let encoded = artifact.to_bytes().unwrap();
    for length in 0..encoded.len() {
        let message = Artifact::from_bytes(&encoded[..length]).unwrap_err().to_string();
        assert!(message.starts_with("truncated COSMIC-SIA "), "{length}: {message}");
    }
    for extra in 1..4 {
        let mut longer = encoded.clone();
        longer.extend(vec![0xff; extra]);
        assert_eq!(
            Artifact::from_bytes(&longer).unwrap_err().to_string(),
            "COSMIC-SIA bundle has trailing bytes"
        );
    }
}

#[test]
fn a_flag_is_nought_or_one() {
    for read_only in [false, true] {
        let mut artifact = bundle(Vec::new(), vec![object("d", &[], 1)]);
        artifact.data[0].read_only = read_only;
        let encoded = artifact.to_bytes().unwrap();
        let flag = encoded.len() - 7;
        assert_eq!(encoded[flag], u8::from(read_only));
        let decoded = Artifact::from_bytes(&encoded).unwrap();
        assert_eq!(decoded, artifact);
        assert_eq!(decoded.to_bytes().unwrap(), encoded);
        for other in [2, 0x80, 0xff] {
            let mut bad = encoded.clone();
            bad[flag] = other;
            assert_eq!(
                Artifact::from_bytes(&bad).unwrap_err().to_string(),
                "COSMIC-SIA data read-only flag is invalid"
            );
        }
    }
}

#[test]
fn what_is_read_is_written_with_the_same_bytes() {
    let mut artifact = bundle(vec![function("f", &[1, 2])], vec![object("d", &[1, 2, 3], 4)]);
    artifact.data[0].read_only = true;
    let encoded = artifact.to_bytes().unwrap();
    for position in 0..encoded.len() {
        for byte in 0..=255 {
            let mut other = encoded.clone();
            other[position] = byte;
            if let Ok(decoded) = Artifact::from_bytes(&other) {
                assert_eq!(decoded.to_bytes().unwrap(), other);
            }
        }
    }
}

#[test]
fn names_may_hold_any_unicode_text() {
    let artifact = bundle(vec![function("größe_λ", &[0, 0])], Vec::new());
    let encoded = artifact.to_bytes().unwrap();
    assert_eq!(Artifact::from_bytes(&encoded).unwrap(), artifact);
}

#[test]
fn decoder_rejects_names_that_are_no_text() {
    let encoded = bundle(vec![function("f", &[1, 2])], Vec::new()).to_bytes().unwrap();
    let mut bad = encoded.clone();
    bad[17] = 0xff;
    assert_eq!(
        Artifact::from_bytes(&bad).unwrap_err().to_string(),
        "COSMIC-SIA function name is not UTF-8"
    );
    let encoded = bundle(Vec::new(), vec![object("d", &[], 1)]).to_bytes().unwrap();
    let mut bad = encoded.clone();
    bad[19] = 0xc0;
    assert_eq!(
        Artifact::from_bytes(&bad).unwrap_err().to_string(),
        "COSMIC-SIA data name is not UTF-8"
    );
    let mut artifact = add();
    artifact.functions[0].relocations.push(RelocationArtifact {
        offset: 0,
        target: "t".into(),
        addend: 0,
    });
    let mut bad = artifact.to_bytes().unwrap();
    let target = bad.len() - 3;
    assert_eq!(bad[target], b't');
    bad[target] = 0x80;
    assert_eq!(
        Artifact::from_bytes(&bad).unwrap_err().to_string(),
        "COSMIC-SIA relocation target is not UTF-8"
    );
    let mut artifact = bundle(Vec::new(), vec![object("d", &[0; 4], 1)]);
    artifact.data[0].relocations.push(RelocationArtifact {
        offset: 0,
        target: "t".into(),
        addend: 0,
    });
    let mut bad = artifact.to_bytes().unwrap();
    let target = bad.len() - 1;
    bad[target] = 0x80;
    assert_eq!(
        Artifact::from_bytes(&bad).unwrap_err().to_string(),
        "COSMIC-SIA data relocation target is not UTF-8"
    );
}

#[test]
fn decoder_names_the_field_that_is_missing() {
    let message = |bytes: &[u8]| Artifact::from_bytes(bytes).unwrap_err().to_string();
    assert_eq!(message(b""), "truncated COSMIC-SIA bundle magic");
    assert_eq!(message(b"COSMIC-SIA!"), "invalid COSMIC-SIA bundle magic");
    assert_eq!(message(b"COSMIC-SIA\0"), "truncated COSMIC-SIA version");
    assert_eq!(message(b"COSMIC-SIA\0\x07\0"), "unsupported COSMIC-SIA bundle version 7");
    assert_eq!(message(b"COSMIC-SIA\0\x03\0"), "truncated COSMIC-SIA function count");
    assert_eq!(
        message(b"COSMIC-SIA\0\x03\0\x01\0"),
        "truncated COSMIC-SIA function name length"
    );
    assert_eq!(message(b"COSMIC-SIA\0\x03\0\0\0"), "truncated COSMIC-SIA data count");
    assert_eq!(
        message(b"COSMIC-SIA\0\x03\0\0\0\0\0"),
        "COSMIC-SIA bundle contains neither functions nor data"
    );
}

#[test]
fn validation_reports_the_first_problem() {
    assert_eq!(
        refusal(&bundle(Vec::new(), Vec::new())),
        "COSMIC-SIA bundle contains neither functions nor data"
    );
    let mut other = add();
    other.target = "x86_64";
    assert_eq!(refusal(&other), "COSMIC-SIA bundle target must be `sia32-unknown-none`");
    assert_eq!(
        refusal(&bundle(vec![function("", &[1, 2])], Vec::new())),
        "COSMIC-SIA function name must not be empty"
    );
    assert_eq!(
        refusal(&bundle(vec![function("f", &[1, 2]), function("f", &[1, 2])], Vec::new())),
        "COSMIC-SIA bundle contains duplicate symbol `f`"
    );
    assert_eq!(
        refusal(&bundle(vec![function("f", &[1])], Vec::new())),
        "COSMIC-SIA function `f` does not contain whole SIA instruction words"
    );
    assert_eq!(
        refusal(&bundle(vec![function("f", &[])], Vec::new())),
        "COSMIC-SIA function `f` does not contain whole SIA instruction words"
    );
    assert_eq!(
        refusal(&bundle(Vec::new(), vec![object("", &[], 1)])),
        "COSMIC-SIA data object name must not be empty"
    );
    assert_eq!(
        refusal(&bundle(vec![function("s", &[1, 2])], vec![object("s", &[], 1)])),
        "COSMIC-SIA bundle contains duplicate symbol `s`"
    );
    assert_eq!(
        refusal(&bundle(Vec::new(), vec![object("a", &[], 1), object("a", &[], 1)])),
        "COSMIC-SIA bundle contains duplicate symbol `a`"
    );
    for align in [0, 3, 12, 0xffff_ffff] {
        assert_eq!(
            refusal(&bundle(Vec::new(), vec![object("a", &[], align)])),
            format!("COSMIC-SIA data object `a` has invalid alignment {align}")
        );
    }
    for align in [1, 2, 4, 0x8000_0000] {
        assert!(bundle(Vec::new(), vec![object("a", &[], align)]).validate().is_ok());
    }
    let mut outside = bundle(Vec::new(), vec![object("a", &[0; 7], 1)]);
    outside.data[0].relocations.push(RelocationArtifact {
        offset: 4,
        target: "t".into(),
        addend: 0,
    });
    assert_eq!(
        refusal(&outside),
        "COSMIC-SIA data relocation in `a` lies outside the object"
    );
    outside.data[0].relocations[0].offset = 3;
    assert!(outside.validate().is_ok());
}

#[test]
fn what_does_not_fit_the_format_is_refused() {
    let long = "n".repeat(0x1_0000);
    assert_eq!(
        refusal(&bundle(vec![function(&long, &[1, 2])], Vec::new())),
        "function name is too long for a SIA bundle"
    );
    assert_eq!(
        refusal(&bundle(Vec::new(), vec![object(&long, &[], 1)])),
        "data object name is too long"
    );
    let mut artifact = add();
    artifact.functions[0].relocations.push(RelocationArtifact {
        offset: 0,
        target: long.clone(),
        addend: 0,
    });
    assert_eq!(refusal(&artifact), "relocation target name is too long");
    let many = |count: usize| {
        (0..count)
            .map(|_| RelocationArtifact { offset: 0, target: "t".into(), addend: 0 })
            .collect::<Vec<_>>()
    };
    let mut artifact = add();
    artifact.functions[0].relocations = many(0x1_0000);
    assert_eq!(refusal(&artifact), "too many relocations for a SIA function");
    artifact.functions[0].relocations = many(0xffff);
    assert!(artifact.to_bytes().is_ok());
    let mut artifact = bundle(Vec::new(), vec![object("d", &[0; 4], 1)]);
    artifact.data[0].relocations = many(0x1_0000);
    assert_eq!(refusal(&artifact), "too many relocations for a SIA data object");
}

#[test]
fn calls_pass_up_to_six_arguments_in_registers() {
    let artifact = add();
    let plan = artifact.prepare_integer_call("add", 8, &[1, 2, 3, 4, 5, 6]).unwrap();
    assert_eq!(plan.registers, [0, 1, 2, 3, 4, 5, 6, 0, 0, 0, 0, 0, 0, 0, 12, 0]);
    assert_eq!(plan.function, "add");
    assert_eq!(plan.code, vec![0x21, 0x10, 0xe0, 0xc0]);
    assert_eq!(
        artifact
            .prepare_integer_call("add", 8, &[0; 7])
            .unwrap_err()
            .to_string(),
        "SIA32 supports at most 6 scalar register arguments"
    );
}

#[test]
fn calls_need_linked_code_inside_the_address_space() {
    let mut artifact = add();
    assert_eq!(
        artifact
            .prepare_integer_call("add", 0xffff_fffc, &[])
            .unwrap_err()
            .to_string(),
        "SIA function address range overflows"
    );
    assert_eq!(
        artifact.prepare_integer_call("add", 0xffff_fffa, &[]).unwrap().return_address,
        0xffff_fffe
    );
    artifact.functions[0].relocations.push(RelocationArtifact {
        offset: 0,
        target: "t".into(),
        addend: 0,
    });
    assert_eq!(
        artifact.prepare_integer_call("add", 0, &[]).unwrap_err().to_string(),
        "SIA function `add` requires linking before direct Lighting execution"
    );
}

#[test]
fn functions_are_found_by_name() {
    let artifact = bundle(vec![function("f", &[1, 2]), function("g", &[3, 4])], Vec::new());
    assert_eq!(artifact.function("g"), Some(&artifact.functions[1]));
    assert_eq!(artifact.function("h"), None);
}

#[test]
fn diagnostics_render_the_whole_call() {
    let mut registers = [0; 16];
    registers[1] = 0xdead_beef;
    let plan = CallPlan {
        function: "f".into(),
        entry_address: 0x10,
        return_address: 0x14,
        code: vec![0x0a, 0xff],
        registers,
    };
    assert_eq!(
        plan.diagnostic(),
        "function=f entry=0x00000010 return=0x00000014 code=[0a ff] registers=[\
         r0=0x00000000 r1=0xdeadbeef r2=0x00000000 r3=0x00000000 r4=0x00000000 r5=0x00000000 \
         r6=0x00000000 r7=0x00000000 r8=0x00000000 r9=0x00000000 r10=0x00000000 r11=0x00000000 \
         r12=0x00000000 r13=0x00000000 r14=0x00000000 r15=0x00000000]"
    );
}
