use ttui::snapshot::cli::{check_output_extension, expected_extension, parse_size};
use ttui::snapshot::glyph::{braille_glyph_for, glyph_for, GlyphError};
use ttui::snapshot::judge::{build_prompt, judge_request, DEFAULT_MODEL};
use ttui::snapshot::keys::{encode_click, encode_key, KeyEncodeError};
use ttui::snapshot::pty::dsr_query_seen;
use ttui::snapshot::script::{frame_millis, plan_step, Step, StepAction, KEY_STEP_DISPLAY_MILLIS};

#[test]
fn arrow_keys_encode_as_csi_sequences() {
    assert_eq!(encode_key("Right").unwrap(), b"\x1b[C".to_vec());
    assert_eq!(encode_key("Left").unwrap(), b"\x1b[D".to_vec());
    assert_eq!(encode_key("Up").unwrap(), b"\x1b[A".to_vec());
    assert_eq!(encode_key("Down").unwrap(), b"\x1b[B".to_vec());
}

#[test]
fn enter_esc_tab_encode_correctly() {
    assert_eq!(encode_key("Enter").unwrap(), b"\r".to_vec());
    assert_eq!(encode_key("Esc").unwrap(), b"\x1b".to_vec());
    assert_eq!(encode_key("Tab").unwrap(), b"\t".to_vec());
}

#[test]
fn single_char_keys_encode_as_their_own_byte() {
    assert_eq!(encode_key("a").unwrap(), b"a".to_vec());
    assert_eq!(encode_key("Q").unwrap(), b"Q".to_vec());
    assert_eq!(encode_key("5").unwrap(), b"5".to_vec());
}

#[test]
fn ctrl_combos_encode_as_control_bytes() {
    assert_eq!(encode_key("Ctrl+A").unwrap(), vec![0x01]);
    assert_eq!(encode_key("Ctrl+C").unwrap(), vec![0x03]);
    assert_eq!(encode_key("Ctrl+Z").unwrap(), vec![0x1a]);
}

#[test]
fn lower_case_ctrl_combos_encode_like_upper_case() {
    assert_eq!(encode_key("Ctrl+c").unwrap(), vec![0x03]);
}

#[test]
fn unknown_key_name_is_an_error() {
    let err = encode_key("Nonsense").unwrap_err();
    assert_eq!(err, KeyEncodeError::Unknown("Nonsense".to_string()));
}

#[test]
fn malformed_ctrl_combos_and_non_ascii_keys_are_errors() {
    assert_eq!(encode_key("Ctrl+").unwrap_err(), KeyEncodeError::Unknown("Ctrl+".to_string()));
    assert_eq!(encode_key("Ctrl+AB").unwrap_err(), KeyEncodeError::Unknown("Ctrl+AB".to_string()));
    assert_eq!(encode_key("Ctrl+1").unwrap_err(), KeyEncodeError::Unknown("Ctrl+1".to_string()));
    assert_eq!(encode_key("é").unwrap_err(), KeyEncodeError::Unknown("é".to_string()));
    assert!(encode_key("").is_err());
}

#[test]
fn encode_click_produces_the_expected_sgr_press_and_release_sequence() {
    let bytes = encode_click(3, 7);
    assert_eq!(bytes, b"\x1b[<0;4;8M\x1b[<0;4;8m".to_vec());
}

#[test]
fn encode_click_at_the_origin_is_1_indexed_correctly() {
    let bytes = encode_click(0, 0);
    assert_eq!(bytes, b"\x1b[<0;1;1M\x1b[<0;1;1m".to_vec());
}

#[test]
fn encode_click_writes_multi_digit_coordinates() {
    let bytes = encode_click(119, 9);
    assert_eq!(bytes, b"\x1b[<0;120;10M\x1b[<0;120;10m".to_vec());
}

#[test]
fn default_model_is_moondream() {
    assert_eq!(DEFAULT_MODEL, "moondream");
}

#[test]
fn build_prompt_without_context_omits_the_context_sentence() {
    let p = build_prompt(None);
    assert!(p.contains("You are reviewing a screenshot"));
    assert!(!p.contains("This is supposed to show"));
}

#[test]
fn build_prompt_with_context_includes_it() {
    let p = build_prompt(Some("a LAUNCH button that spawns a particle burst"));
    assert!(p.contains("This is supposed to show: a LAUNCH button that spawns a particle burst."));
}

#[test]
fn judge_request_carries_model_prompt_and_base64_image() {
    let r = judge_request(b"fake-png-bytes", Some("ctx"), "moondream");
    assert_eq!(r.model, "moondream");
    assert!(r.prompt.contains("ctx"));
    assert_eq!(r.prompt, build_prompt(Some("ctx")));
    assert_eq!(r.image, "ZmFrZS1wbmctYnl0ZXM=");
}

#[test]
fn parses_cols_x_rows() {
    assert_eq!(parse_size("120x40"), Ok((120, 40)));
}

#[test]
fn rejects_missing_separator() {
    assert!(parse_size("12040").is_err());
}

#[test]
fn parse_size_errors_name_the_failing_side() {
    assert_eq!(parse_size("12040"), Err("expected COLSxROWS, got \"12040\"".to_string()));
    assert_eq!(parse_size("ax40"), Err("bad cols in \"ax40\"".to_string()));
    assert_eq!(parse_size("80x"), Err("bad rows in \"80x\"".to_string()));
    assert_eq!(parse_size("80x70000"), Err("bad rows in \"80x70000\"".to_string()));
    assert_eq!(parse_size("+80x24"), Ok((80, 24)));
    assert_eq!(parse_size("80x24x1"), Err("bad rows in \"80x24x1\"".to_string()));
    assert_eq!(parse_size("65535x0"), Ok((65535, 0)));
}

#[test]
fn single_frame_requires_a_png_extension() {
    assert!(check_output_extension("png", "out.png", 1).is_ok());
    assert!(check_output_extension("PNG", "out.PNG", 1).is_ok());
    assert!(check_output_extension("gif", "out.gif", 1).is_err());
}

#[test]
fn multi_frame_requires_a_gif_extension() {
    assert!(check_output_extension("gif", "out.gif", 4).is_ok());
    assert!(check_output_extension("GIF", "out.GIF", 2).is_ok());
    assert!(check_output_extension("png", "out.png", 4).is_err());
}

#[test]
fn mismatch_error_names_the_frame_count_and_expected_extension() {
    let err = check_output_extension("png", "tardis-idle.png", 4).unwrap_err();
    assert!(err.contains('4'), "expected the frame count in the error: {err}");
    assert!(err.contains("tardis-idle.png"), "expected the given path in the error: {err}");
    assert!(err.contains(".gif"), "expected the required extension in the error: {err}");
    assert_eq!(
        err,
        "script produces 4 frame(s) (a GIF); --out must end in .gif, got tardis-idle.png"
    );
}

#[test]
fn a_missing_extension_never_matches() {
    let err = check_output_extension("", "out", 1).unwrap_err();
    assert_eq!(err, "script produces 1 frame(s) (a PNG); --out must end in .png, got out");
    assert_eq!(expected_extension(1), "png");
    assert_eq!(expected_extension(0), "gif");
    assert_eq!(expected_extension(7), "gif");
}

#[test]
fn dsr_query_split_across_two_reads_is_still_detected() {
    let mut carry = Vec::new();
    assert!(!dsr_query_seen(&mut carry, b"\x1b[6"), "a partial query alone must not be reported as seen");
    assert!(dsr_query_seen(&mut carry, b"n"), "the query must be detected once the remaining byte arrives");
}

#[test]
fn dsr_query_split_one_byte_at_a_time_is_still_detected() {
    let mut carry = Vec::new();
    assert!(!dsr_query_seen(&mut carry, b"\x1b"));
    assert!(!dsr_query_seen(&mut carry, b"["));
    assert!(!dsr_query_seen(&mut carry, b"6"));
    assert!(dsr_query_seen(&mut carry, b"n"));
}

#[test]
fn dsr_query_within_a_single_read_is_detected() {
    let mut carry = Vec::new();
    assert!(dsr_query_seen(&mut carry, b"\x1b[6n"));
}

#[test]
fn unrelated_bytes_do_not_false_positive_as_a_dsr_query() {
    let mut carry = Vec::new();
    assert!(!dsr_query_seen(&mut carry, b"hello world"));
    assert!(!dsr_query_seen(&mut carry, b"more unrelated output"));
}

#[test]
fn the_carry_keeps_only_the_last_three_bytes() {
    let mut carry = Vec::new();
    dsr_query_seen(&mut carry, b"abcdef");
    assert_eq!(carry, b"def".to_vec());
    dsr_query_seen(&mut carry, b"g");
    assert_eq!(carry, b"efg".to_vec());
}

#[test]
fn ascii_letter_resolves_to_a_nonblank_bitmap() {
    let bitmap = glyph_for('A').unwrap();
    assert!(bitmap.iter().any(|row| *row != 0), "expected 'A' to draw at least one pixel");
}

#[test]
fn space_and_a_resolve_to_different_bitmaps() {
    assert_ne!(glyph_for(' ').unwrap(), glyph_for('A').unwrap());
}

#[test]
fn block_element_glyphs_resolve() {
    for ch in ['░', '▒', '▓', '█', '▀', '▄', '▌'] {
        glyph_for(ch).unwrap_or_else(|e| panic!("expected {ch:?} to be mapped, got {e:?}"));
    }
}

#[test]
fn ascii_border_glyphs_resolve() {
    for ch in ['-', '|', '+'] {
        glyph_for(ch).unwrap();
    }
}

#[test]
fn dingbat_star_is_unmapped() {
    let err = glyph_for('\u{2726}').unwrap_err();
    assert_eq!(err, GlyphError::Unmapped('\u{2726}'));
}

#[test]
fn blank_braille_pattern_is_an_all_zero_bitmap() {
    assert_eq!(glyph_for('\u{2800}').unwrap(), [0u8; 8]);
}

#[test]
fn fully_set_braille_pattern_fills_every_pixel() {
    assert_eq!(glyph_for('\u{28FF}').unwrap(), [0xFFu8; 8]);
}

#[test]
fn single_top_left_dot_lights_only_its_quadrant() {
    let bitmap = glyph_for('\u{2801}').unwrap();
    assert_eq!(bitmap, [0x0F, 0x0F, 0, 0, 0, 0, 0, 0]);
}

#[test]
fn single_bottom_right_dot_lights_only_its_quadrant() {
    let bitmap = glyph_for('\u{2880}').unwrap();
    assert_eq!(bitmap, [0, 0, 0, 0, 0, 0, 0xF0, 0xF0]);
}

#[test]
fn braille_bit_layout_matches_canvas_rs_dot_bits() {
    let bitmap = glyph_for('\u{2808}').unwrap();
    assert_eq!(bitmap, [0xF0, 0xF0, 0, 0, 0, 0, 0, 0]);
}

#[test]
fn non_braille_codepoints_still_fall_through_to_font8x8() {
    assert!(glyph_for('A').is_ok());
    assert_eq!(glyph_for('\u{2726}').unwrap_err(), GlyphError::Unmapped('\u{2726}'));
    assert_eq!(braille_glyph_for('A'), None);
    assert_eq!(braille_glyph_for('\u{2900}'), None);
}

#[test]
fn ellipsis_is_mapped_because_table_truncation_emits_it() {
    assert!(glyph_for('\u{2026}').is_ok());
}

#[test]
fn ellipsis_bitmap_is_three_dots_on_the_baseline() {
    let bitmap = glyph_for('\u{2026}').unwrap();
    assert_eq!(bitmap[0], 0b0000_0000);
    assert_eq!(bitmap[5], 0b0000_0000);
    assert_eq!(bitmap[6].count_ones(), 3, "row 6 must have exactly three dots");
    assert_eq!(bitmap[7], 0b0000_0000);
}

#[test]
fn ellipsis_visual_verification() {
    let bitmap = glyph_for('\u{2026}').unwrap();
    println!("\nEllipsis (U+2026) bitmap (LSB-first, as rendered):");
    for row in bitmap {
        let line = (0..8)
            .map(|gx| if (row >> gx) & 1 == 1 { '#' } else { '.' })
            .collect::<String>();
        println!("{}", line);
    }
}

#[test]
fn a_wait_step_sleeps_for_its_length_and_shows_that_long() {
    let action = plan_step(&Step::Wait { wait_ms: 150 }).unwrap();
    assert_eq!(action, StepAction::Sleep { millis: 150 });
    assert_eq!(frame_millis(&action), 150);
}

#[test]
fn a_key_step_sends_the_keys_bytes_and_shows_for_the_fixed_time() {
    let action = plan_step(&Step::Key { key: "Right".to_string() }).unwrap();
    assert_eq!(action, StepAction::Send { bytes: b"\x1b[C".to_vec() });
    assert_eq!(frame_millis(&action), KEY_STEP_DISPLAY_MILLIS);
    assert_eq!(KEY_STEP_DISPLAY_MILLIS, 150);
}

#[test]
fn an_unknown_key_step_fails_naming_the_key() {
    let err = plan_step(&Step::Key { key: "Hyper+Q".to_string() }).unwrap_err();
    assert_eq!(err, "unknown key name: Hyper+Q");
}
