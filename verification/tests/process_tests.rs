use bitforge::errors::{Exit, PipelineError};
use bitforge::process::{
    command_banner, command_outcome, decode_chunk, probe_outcome, sanitise_cr, trim, RunReport,
};

#[test]
fn crlf_collapses_and_lone_cr_stays() {
    assert_eq!(sanitise_cr("a\r\nb"), "a\nb");
    assert_eq!(sanitise_cr("Receiving 10%\rReceiving 20%\r"), "Receiving 10%\rReceiving 20%\r");
    assert_eq!(sanitise_cr("\r\r\n"), "\r\n");
    assert_eq!(sanitise_cr("\r\n\r\n"), "\n\n");
    assert_eq!(sanitise_cr("plain\n"), "plain\n");
    assert_eq!(sanitise_cr(""), "");
    assert_eq!(sanitise_cr("\r"), "\r");
    assert_eq!(sanitise_cr("\n\r"), "\n\r");
}

#[test]
fn sanitise_matches_replace() {
    for text in ["", "\r", "\r\n", "x\r\r\ny", "a\r\n\rb\n\r\n", "no line ends"] {
        assert_eq!(sanitise_cr(text), text.replace("\r\n", "\n"));
    }
}

#[test]
fn chunk_is_decoded_leniently() {
    assert_eq!(decode_chunk(b"hello\r\n"), Some("hello\n".to_string()));
    assert_eq!(decode_chunk(b""), None);
    assert_eq!(decode_chunk(&[b'a', 0xff, b'b']), Some("a\u{fffd}b".to_string()));
    assert_eq!(decode_chunk("✓ done".as_bytes()), Some("✓ done".to_string()));
}

#[test]
fn chunk_of_valid_text_keeps_every_byte() {
    let mut big = Vec::new();
    for i in 0..(1usize << 20) {
        big.push(b'a' + (i % 26) as u8);
    }
    let text = decode_chunk(&big).unwrap();
    assert_eq!(text.len(), big.len());
    assert_eq!(text.as_bytes(), &big[..]);
}

#[test]
fn trim_removes_white_space_at_both_ends() {
    assert_eq!(trim("  v27.0\n"), "v27.0");
    assert_eq!(trim("\t a b \r\n"), "a b");
    assert_eq!(trim("   "), "");
    assert_eq!(trim(""), "");
    assert_eq!(trim("x"), "x");
    assert_eq!(trim("\u{2003}x\u{a0}"), "x");
}

#[test]
fn banner_announces_the_command() {
    assert_eq!(command_banner("make -j 4"), "\n$ make -j 4\n");
}

#[test]
fn exit_code_zero_is_the_only_success() {
    assert_eq!(command_outcome("ctx", "true", &RunReport::Finished(Exit::Code(0))), Ok(()));
    assert_eq!(
        command_outcome("ctx", "false", &RunReport::Finished(Exit::Code(1))),
        Err(PipelineError::CommandFailed {
            context: "ctx".to_string(),
            exit: Exit::Code(1),
            command: "false".to_string(),
        })
    );
    assert_eq!(
        command_outcome("", "x", &RunReport::Finished(Exit::Code(-1))),
        Err(PipelineError::CommandFailed {
            context: "".to_string(),
            exit: Exit::Code(-1),
            command: "x".to_string(),
        })
    );
    assert_eq!(
        command_outcome("ctx", "sleep 9", &RunReport::Finished(Exit::Signal)),
        Err(PipelineError::CommandFailed {
            context: "ctx".to_string(),
            exit: Exit::Signal,
            command: "sleep 9".to_string(),
        })
    );
    assert_eq!(
        command_outcome("ctx", "nope", &RunReport::NotSpawned("no shell".to_string())),
        Err(PipelineError::SpawnFailed {
            context: "ctx".to_string(),
            command: "nope".to_string(),
            cause: "no shell".to_string(),
        })
    );
}

#[test]
fn probe_reports_trimmed_output_of_a_success() {
    assert_eq!(probe_outcome(true, b"cargo 1.80.0\n"), Some("cargo 1.80.0".to_string()));
    assert_eq!(probe_outcome(false, b"cargo 1.80.0\n"), None);
    assert_eq!(probe_outcome(true, b"  \n"), None);
    assert_eq!(probe_outcome(true, b""), None);
    assert_eq!(probe_outcome(true, &[0xff, 0xfe]), None);
    assert_eq!(probe_outcome(true, "v1 ✓".as_bytes()), Some("v1 ✓".to_string()));
}

#[test]
fn failures_describe_themselves() {
    let failed = PipelineError::CommandFailed {
        context: "cmake build failed".to_string(),
        exit: Exit::Code(2),
        command: "cmake --build build -j 4".to_string(),
    };
    assert_eq!(
        failed.describe(),
        "cmake build failed\nCommand failed (exit 2): cmake --build build -j 4"
    );
    let killed = PipelineError::CommandFailed {
        context: "".to_string(),
        exit: Exit::Signal,
        command: "make".to_string(),
    };
    assert_eq!(killed.describe(), "Command failed (exit signal): make");
    let spawn = PipelineError::SpawnFailed {
        context: "git clone failed".to_string(),
        command: "git".to_string(),
        cause: "not found".to_string(),
    };
    assert_eq!(spawn.describe(), "git clone failed\nFailed to spawn: git: not found");
    assert_eq!(
        PipelineError::InvalidTag { tag: "v1;rm".to_string() }.describe(),
        "Version tag contains unexpected characters: v1;rm"
    );
    assert_eq!(
        PipelineError::MissingToolchain { tool: "cargo".to_string() }.describe(),
        "cargo not found in PATH"
    );
    assert_eq!(
        PipelineError::NoArtifactsProduced { searched: "/b/bin".to_string() }.describe(),
        "Build appeared to succeed but no binaries were found in /b/bin\nCheck the log above for linker errors."
    );
    assert_eq!(
        PipelineError::Network { reason: "timeout".to_string() }.describe(),
        "Network request failed: timeout"
    );
    assert_eq!(
        PipelineError::Filesystem { context: "Failed to remove /x".to_string(), reason: "denied".to_string() }
            .describe(),
        "Failed to remove /x: denied"
    );
    assert_eq!(failed.duplicate(), failed);
    assert_eq!(Exit::Code(-7).text(), "-7");
    assert!(Exit::Code(0).success());
    assert!(!Exit::Signal.success());
}
