use lib::cdrom::CdromSectorSize;
use lib::cli::{
    detect_disc_sector_size, parse_addr_value, parse_disc_sector_size, parse_reg, parse_reg_value,
    parse_u32, CliError,
};
use lib::cue::{parse_cue_disc_spec, parse_cue_msf, CueError};
use lib::wav::wav_header;

#[test]
fn wav_header_describes_44100_hz_stereo_s16() {
    let header = wav_header(400);

    assert_eq!(&header[0..4], b"RIFF");
    assert_eq!(&header[8..12], b"WAVE");
    assert_eq!(u16::from_le_bytes([header[22], header[23]]), 2);
    assert_eq!(
        u32::from_le_bytes(header[24..28].try_into().unwrap()),
        44_100
    );
    assert_eq!(u32::from_le_bytes(header[40..44].try_into().unwrap()), 400);
}

#[test]
fn parses_test_runner_cli_values() {
    assert_eq!(parse_u32("0x80010100").unwrap(), 0x8001_0100);
    assert_eq!(parse_u32("123").unwrap(), 123);
    assert_eq!(
        parse_addr_value("0x80010100=1", "--test-mailbox").unwrap(),
        (0x8001_0100, 1)
    );
    assert_eq!(parse_reg("v0").unwrap(), 2);
    assert_eq!(parse_reg("$a0").unwrap(), 4);
    assert_eq!(parse_reg("r31").unwrap(), 31);
    assert_eq!(
        parse_reg_value("v0=0x1234", "--test-pass-reg").unwrap(),
        (2, 0x1234)
    );
}

#[test]
fn parses_and_detects_disc_sector_size() {
    assert_eq!(
        parse_disc_sector_size("2048").unwrap(),
        CdromSectorSize::Cooked2048
    );
    assert_eq!(
        parse_disc_sector_size("2352").unwrap(),
        CdromSectorSize::Raw2352
    );
    assert_eq!(
        detect_disc_sector_size("iso", 2048 * 16),
        CdromSectorSize::Cooked2048
    );
    assert_eq!(
        detect_disc_sector_size("bin", 2352 * 16),
        CdromSectorSize::Raw2352
    );
    assert_eq!(
        detect_disc_sector_size("iso", 2352 * 16),
        CdromSectorSize::Raw2352
    );
}

#[test]
fn parses_cue_data_track_with_quoted_file_and_index() {
    let spec = parse_cue_disc_spec(
        r#"
            REM Generated by a dump tool
            FILE "Game Disc.bin" BINARY
              TRACK 01 MODE2/2352
                INDEX 00 00:00:00
                INDEX 01 00:02:00
        "#,
    )
    .unwrap();

    assert_eq!(spec.file_name, b"Game Disc.bin".to_vec());
    assert_eq!(spec.sector_size, CdromSectorSize::Raw2352);
    assert_eq!(spec.index01_frames, 150);
}

#[test]
fn parses_cue_skipping_audio_track_before_data_track() {
    let spec = parse_cue_disc_spec(
        r#"
            FILE audio.bin BINARY
              TRACK 01 AUDIO
                INDEX 01 00:00:00
            FILE data.iso BINARY
              TRACK 02 MODE1/2048
                INDEX 01 00:00:20
        "#,
    )
    .unwrap();

    assert_eq!(spec.file_name, b"data.iso".to_vec());
    assert_eq!(spec.sector_size, CdromSectorSize::Cooked2048);
    assert_eq!(spec.index01_frames, 20);
}

#[test]
fn parses_cue_comments_whitespace_and_raw_mode_alias() {
    let spec = parse_cue_disc_spec(
        r#"
            REM primary comment
            ; secondary comment
            // cdrdao-style comment
            CD_ROM_XA
               FILE    "game.bin"    BINARY

              TRACK MODE1_RAW
                INDEX    01    00:00:00
        "#,
    )
    .unwrap();

    assert_eq!(spec.file_name, b"game.bin".to_vec());
    assert_eq!(spec.sector_size, CdromSectorSize::Raw2352);
    assert_eq!(spec.index01_frames, 0);
}

#[test]
fn rejects_cue_data_track_without_index01() {
    let err = parse_cue_disc_spec(
        r#"
            FILE "game.bin" BINARY
              TRACK 01 MODE2/2352
                INDEX 00 00:00:00
        "#,
    )
    .unwrap_err();

    assert_eq!(err, CueError::MissingIndex01);
}

#[test]
fn rejects_cue_track_before_file() {
    let err = parse_cue_disc_spec(
        r#"
            TRACK 01 MODE1/2048
              INDEX 01 00:00:00
        "#,
    )
    .unwrap_err();

    assert_eq!(err, CueError::TrackBeforeFile);
}

#[test]
fn parses_cue_msf_to_frames() {
    assert_eq!(parse_cue_msf("00:00:00").unwrap(), 0);
    assert_eq!(parse_cue_msf("01:02:03").unwrap(), 4653);
    assert!(parse_cue_msf("00:00:75").is_err());
}

#[test]
fn cue_msf_refuses_missing_and_extra_fields() {
    assert_eq!(parse_cue_msf("01:02"), Err(CueError::InvalidMsf));
    assert_eq!(parse_cue_msf("01:02:03:04"), Err(CueError::InvalidMsf));
    assert_eq!(parse_cue_msf("00:60:00"), Err(CueError::InvalidMsf));
    assert_eq!(parse_cue_msf("+1:+2:+3"), Ok(4653));
    assert_eq!(parse_cue_msf("a:00:00"), Err(CueError::InvalidMsf));
}

#[test]
fn cue_sheet_errors_cover_each_refusal() {
    assert_eq!(
        parse_cue_disc_spec("FILE a.bin BINARY\nTRACK 01 MODE3/2048\n").unwrap_err(),
        CueError::UnsupportedTrackMode
    );
    assert_eq!(
        parse_cue_disc_spec("FILE a.bin BINARY\nTRACK 01 AUDIO\nINDEX 01 00:00:00\n").unwrap_err(),
        CueError::NoDataTrack
    );
    assert_eq!(
        parse_cue_disc_spec("FILE a.bin BINARY\nTRACK 01 MODE1/2048\nINDEX\n").unwrap_err(),
        CueError::MalformedIndex
    );
    assert_eq!(
        parse_cue_disc_spec("FILE a.bin BINARY\nTRACK 01 MODE1/2048\nINDEX 01\n").unwrap_err(),
        CueError::MissingIndexTime
    );
    assert_eq!(
        parse_cue_disc_spec("FILE a.bin BINARY\nTRACK 01 MODE1/2048\nINDEX 01 00:99:00\n").unwrap_err(),
        CueError::InvalidMsf
    );
}

#[test]
fn cue_sheet_keeps_the_first_data_track_and_its_first_index01() {
    let spec = parse_cue_disc_spec(
        "file one.bin binary\r\ntrack 01 mode2/2048\r\nindex 01 00:00:05\r\nFILE two.bin BINARY\r\nTRACK 02 MODE1/2352\r\nINDEX 01 00:00:09\r\n",
    )
    .unwrap();

    assert_eq!(spec.file_name, b"one.bin".to_vec());
    assert_eq!(spec.sector_size, CdromSectorSize::Cooked2048);
    assert_eq!(spec.index01_frames, 5);
}

#[test]
fn cli_values_refuse_malformed_input() {
    assert_eq!(parse_u32("0x"), Err(CliError::InvalidNumber));
    assert_eq!(parse_u32("4294967296"), Err(CliError::InvalidNumber));
    assert_eq!(parse_u32("  0xffffffff  "), Ok(0xffff_ffff));
    assert_eq!(parse_u32("+7"), Ok(7));
    assert_eq!(parse_u32("-7"), Err(CliError::InvalidNumber));
    assert_eq!(parse_reg("zero"), Ok(0));
    assert_eq!(parse_reg("$$ra"), Ok(31));
    assert_eq!(parse_reg("fp"), Ok(30));
    assert_eq!(parse_reg("s8"), Ok(30));
    assert_eq!(parse_reg("t9"), Ok(25));
    assert_eq!(parse_reg("k1"), Ok(27));
    assert_eq!(parse_reg("r32"), Err(CliError::RegisterOutOfRange));
    assert_eq!(parse_reg("x1"), Err(CliError::InvalidRegister));
    assert_eq!(parse_addr_value("12", "--test-mailbox"), Err(CliError::MissingSeparator));
    assert_eq!(parse_reg_value("q=1", "--test-pass-reg"), Err(CliError::InvalidRegister));
    assert_eq!(parse_reg_value("v0=x", "--test-pass-reg"), Err(CliError::InvalidNumber));
    assert_eq!(parse_disc_sector_size(" 2048\n"), Ok(CdromSectorSize::Cooked2048));
    assert_eq!(parse_disc_sector_size("4096"), Err(CliError::InvalidSectorSize));
    assert_eq!(detect_disc_sector_size("IMG", 2352 * 2048), CdromSectorSize::Raw2352);
    assert_eq!(detect_disc_sector_size("", 2352 * 2048), CdromSectorSize::Cooked2048);
}

#[test]
fn wav_header_saturates_the_riff_size() {
    let header = wav_header(u32::MAX);
    assert_eq!(u32::from_le_bytes(header[4..8].try_into().unwrap()), u32::MAX);
    let header = wav_header(8);
    assert_eq!(u32::from_le_bytes(header[4..8].try_into().unwrap()), 44);
    assert_eq!(u32::from_le_bytes(header[28..32].try_into().unwrap()), 176_400);
    assert_eq!(&header[36..40], b"data");
}
