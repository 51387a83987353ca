use hotdownloader_core::des::{crypt, key_schedule, triple_des_crypt, triple_des_key_setup, DECRYPT, ENCRYPT};
use hotdownloader_core::qrc::{extract_lyric_content, format_timestamp, is_qrc, to_enhanced_lrc, to_enhanced_lrc_checked, to_lrc};

#[test]
fn des_encrypts_known_blocks() {
    // The all-zero key and block give the standard 8CA64DE9C1B123A7, stored as
    // two 32-bit words with their bytes reversed.
    let zero_key = [0u8; 8];
    let schedule = key_schedule(&zero_key, ENCRYPT);
    let sealed = crypt(&[0u8; 8], &schedule);
    assert_eq!(sealed, [0xE9, 0x4D, 0xA6, 0x8C, 0xA7, 0x23, 0xB1, 0xC1]);
    let decrypt = key_schedule(&zero_key, DECRYPT);
    assert_eq!(crypt(&sealed, &decrypt), [0u8; 8]);
    let text = crypt(b"HotDownl", &schedule);
    assert_eq!(&crypt(&text, &decrypt), b"HotDownl");
}

#[test]
fn triple_des_round_trips() {
    let key: [u8; 24] = *b"!@#)(*$%123ZXC!@!@#)(NHL";
    let enc = triple_des_key_setup(&key, ENCRYPT);
    let dec = triple_des_key_setup(&key, DECRYPT);
    let block = *b"lyric!!!";
    let sealed = triple_des_crypt(&block, &enc);
    assert_ne!(sealed, block);
    assert_eq!(triple_des_crypt(&sealed, &dec), block);
}

#[test]
fn qrc_lines_become_lrc() {
    assert_eq!(format_timestamp(61_230), "01:01.23");
    let qrc = "[1000,2000]你(1000,500)好(1500,500)\n[ti:title]";
    assert!(is_qrc(qrc));
    assert_eq!(to_lrc(qrc), "[00:01.00]你好");
    assert_eq!(to_enhanced_lrc(qrc), "[00:01.00]<00:01.00>你<00:01.50>好<00:02.00>");
    assert!(!is_qrc("plain text"));
    assert_eq!(
        extract_lyric_content(r#"<Lyric_1 LyricType="1" LyricContent="[1,2]a(1,1)"/>"#).as_deref(),
        Some("[1,2]a(1,1)")
    );
}

#[test]
fn enhanced_lrc_checks_word_ends() {
    let qrc = "[1000,2000]你(1000,500)好(1500,500)";
    assert_eq!(to_enhanced_lrc_checked(qrc).as_deref(), Some("[00:01.00]<00:01.00>你<00:01.50>好<00:02.00>"));
    let huge = "[1,2]a(18446744073709551615,1)";
    assert_eq!(to_enhanced_lrc_checked(huge), None);
}
