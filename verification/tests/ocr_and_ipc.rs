use pinora::annotate::AnnotateTool;
use pinora::desktop_shell::AnnotationHistoryAction;
use pinora::geometry::PixelRect;
use pinora::hotkey::ActionId;
use pinora::ipc::{
    accept_chunk, default_runtime_dir, instance_paths, ipc_frame, parse_ipc_frame, Command,
    FrameProgress,
};
use pinora::model::ErrorCode;
use pinora::ocr::{
    engine_label, language_arg, parse_language_list, parse_tsv, resolve_languages,
    tessdata_model, OcrLanguage, OcrResult,
};
use pinora::overlay_keys::{handle_overlay_key, KeyModifiers, OverlayKey, OverlayKeyCommand};

const NONE: KeyModifiers = KeyModifiers { shift: false, control: false, alt: false };

#[test]
fn parse_sample_tsv() {
    let tsv = "\
level\tpage_num\tblock_num\tpar_num\tline_num\tword_num\tleft\ttop\twidth\theight\tconf\ttext
1\t1\t0\t0\t0\t0\t0\t0\t100\t50\t-1\t
5\t1\t1\t1\t1\t1\t10\t10\t20\t12\t96.5\tHello
5\t1\t1\t1\t1\t2\t35\t10\t18\t12\t94.0\tWorld
5\t1\t1\t1\t2\t1\t10\t30\t25\t12\t91.0\tOCR
";
    let lines = parse_tsv(tsv).unwrap();
    assert_eq!(lines.len(), 2);
    assert_eq!(lines[0].text(), "Hello World");
    assert_eq!(lines[1].text(), "OCR");
    let r = OcrResult::from_lines(lines, vec!["eng".into()], "test");
    assert_eq!(r.full_text, "Hello World\nOCR");
}

#[test]
fn tsv_line_boxes_cover_their_words() {
    let tsv = "header\n5\t1\t1\t1\t1\t1\t10\t10\t20\t12\t96.5\tHello\n5\t1\t1\t1\t1\t2\t35\t8\t18\t12\t94.0\tWorld\n";
    let lines = parse_tsv(tsv).unwrap();
    assert_eq!(lines.len(), 1);
    assert_eq!(lines[0].bbox, PixelRect::new(10, 8, 43, 14));
    assert_eq!(lines[0].words[0].confidence, "96.5");
    assert_eq!(lines[0].words[1].bbox, PixelRect::new(35, 8, 18, 12));
}

#[test]
fn tsv_skips_short_rows_and_blank_words() {
    let tsv = "h\n5\t1\t1\n5\t1\t1\t1\t1\t1\t1\t1\t1\t1\t9\t   \n\n";
    assert_eq!(parse_tsv(tsv).unwrap().len(), 0);
}

#[test]
fn auto_language_uses_only_supported_local_models_in_stable_order() {
    let languages = resolve_languages(
        OcrLanguage::Auto,
        &vec!["eng".into(), "deu".into(), "chi_sim".into()],
    )
    .expect("supported local models");

    assert_eq!(languages, vec!["chi_sim", "eng"]);
}

#[test]
fn explicit_language_requires_its_exact_local_model() {
    let english_missing = resolve_languages(OcrLanguage::English, &vec!["chi_sim".into()])
        .expect_err("English must not fall back to Chinese");
    assert_eq!(english_missing.code, ErrorCode::CapabilityUnavailable);

    let chinese_missing = resolve_languages(OcrLanguage::SimplifiedChinese, &vec!["eng".into()])
        .expect_err("SimplifiedChinese must not fall back to English");
    assert_eq!(chinese_missing.code, ErrorCode::CapabilityUnavailable);

    let automatic_missing = resolve_languages(OcrLanguage::Auto, &vec!["deu".into()])
        .expect_err("no supported model");
    assert_eq!(automatic_missing.code, ErrorCode::CapabilityUnavailable);
}

#[test]
fn language_list_and_tessdata_files() {
    let models = parse_language_list("List of available languages (3):\n chi_sim \n\neng\nosd\n");
    assert_eq!(models, vec!["chi_sim", "eng", "osd"]);
    assert_eq!(tessdata_model("eng.traineddata"), Some("eng".to_string()));
    assert_eq!(tessdata_model("osd.traineddata"), None);
    assert_eq!(tessdata_model("equ.traineddata"), None);
    assert_eq!(tessdata_model("eng.txt"), None);
    let langs = vec!["chi_sim".to_string(), "eng".to_string()];
    let arg = language_arg(&langs);
    assert_eq!(arg, "chi_sim+eng");
    assert_eq!(engine_label(&arg), "tesseract-cli:chi_sim+eng");
}

#[test]
fn parse_ipc_frames() {
    assert_eq!(
        parse_ipc_frame(&b"CAPTURE\n".to_vec()),
        Some(Command::InvokeAction(ActionId::CaptureRegionAndPin))
    );
    assert_eq!(parse_ipc_frame(&b"QUIT\n".to_vec()), Some(Command::Shutdown));
    assert_eq!(parse_ipc_frame(&b"ACTIVATE\n".to_vec()), Some(Command::Activate));
    assert_eq!(parse_ipc_frame(&b"STOP\n".to_vec()), None);
}

#[test]
fn frames_round_trip_through_the_reader() {
    for command in [
        Command::Activate,
        Command::InvokeAction(ActionId::CaptureRegionAndPin),
        Command::Shutdown,
    ] {
        let frame = ipc_frame(command).unwrap();
        assert_eq!(parse_ipc_frame(&frame), Some(command));
    }
    assert_eq!(
        ipc_frame(Command::InvokeAction(ActionId::Quit)).unwrap_err(),
        "OS instance only forwards Activate / Capture / Quit"
    );
}

#[test]
fn chunks_accumulate_until_a_frame_or_the_limit() {
    let mut collected = Vec::new();
    assert_eq!(accept_chunk(&mut collected, b"CAPT"), FrameProgress::KeepReading);
    assert_eq!(
        accept_chunk(&mut collected, b"URE\n"),
        FrameProgress::Deliver(Command::InvokeAction(ActionId::CaptureRegionAndPin))
    );
    let mut noise = Vec::new();
    assert_eq!(accept_chunk(&mut noise, &[b'x'; 256]), FrameProgress::KeepReading);
    assert_eq!(accept_chunk(&mut noise, b"y"), FrameProgress::GiveUp);
}

#[test]
fn runtime_dir_prefers_xdg_runtime_dir() {
    assert_eq!(default_runtime_dir(Some("/run/user/1000"), Some("me"), "/tmp"), "/run/user/1000/pinora");
    assert_eq!(default_runtime_dir(None, Some("me"), "/tmp"), "/tmp/pinora-me");
    assert_eq!(default_runtime_dir(None, None, "/tmp/"), "/tmp/pinora-user");
    let (lock, sock) = instance_paths("/run/user/1000/pinora");
    assert_eq!(lock, "/run/user/1000/pinora/instance.lock");
    assert_eq!(sock, "/run/user/1000/pinora/activate.sock");
}

#[test]
fn overlay_keys_edit_text_before_anything_else() {
    let a = OverlayKey::Character("a".to_string());
    assert_eq!(handle_overlay_key(NONE, true, true, &a), OverlayKeyCommand::TextPush);
    assert_eq!(
        handle_overlay_key(NONE, true, true, &OverlayKey::Backspace),
        OverlayKeyCommand::TextBackspace
    );
    assert_eq!(
        handle_overlay_key(NONE, true, false, &a),
        OverlayKeyCommand::SetTool(AnnotateTool::Arrow)
    );
    let ctrl = KeyModifiers { shift: false, control: true, alt: false };
    assert_eq!(
        handle_overlay_key(ctrl, true, true, &OverlayKey::Character("z".to_string())),
        OverlayKeyCommand::History(AnnotationHistoryAction::Undo)
    );
    assert_eq!(
        handle_overlay_key(NONE, true, true, &OverlayKey::Character("\u{7}".to_string())),
        OverlayKeyCommand::Nothing
    );
}

#[test]
fn overlay_keys_nudge_and_pick_tools() {
    let shift = KeyModifiers { shift: true, control: false, alt: false };
    assert_eq!(
        handle_overlay_key(shift, false, false, &OverlayKey::ArrowLeft),
        OverlayKeyCommand::Nudge(-10, 0)
    );
    assert_eq!(
        handle_overlay_key(NONE, false, false, &OverlayKey::ArrowDown),
        OverlayKeyCommand::Nudge(0, 1)
    );
    assert_eq!(
        handle_overlay_key(NONE, false, false, &OverlayKey::Character("c".to_string())),
        OverlayKeyCommand::Nothing
    );
    assert_eq!(
        handle_overlay_key(NONE, true, false, &OverlayKey::Character("c".to_string())),
        OverlayKeyCommand::CycleColor
    );
    assert_eq!(
        handle_overlay_key(NONE, true, false, &OverlayKey::Character("=".to_string())),
        OverlayKeyCommand::StrokeUp
    );
    assert_eq!(
        handle_overlay_key(NONE, false, false, &OverlayKey::Character("5".to_string())),
        OverlayKeyCommand::SetTool(AnnotateTool::Mosaic)
    );
    assert_eq!(
        handle_overlay_key(NONE, false, false, &OverlayKey::Character("ab".to_string())),
        OverlayKeyCommand::Nothing
    );
}
