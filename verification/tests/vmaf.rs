use sav1n::vmaf::{check_score, is_decimal, score_text, VmafError};

#[test]
fn score_is_found_in_a_report() {
    let report = "frame= 120 fps= 30\n[libvmaf @ 0x55] VMAF score: 93.664639\nvideo:0kB\n";
    assert_eq!(score_text(report), Ok("93.664639".to_string()));
    assert_eq!(score_text("VMAF score:\t \n95"), Ok("95".to_string()));
    assert_eq!(score_text("VMAF score: .5 VMAF score: 7"), Ok(".5".to_string()));
    assert_eq!(score_text("VMAF score: 5. and more"), Ok("5.".to_string()));
    assert_eq!(score_text("VMAF score: 100"), Ok("100".to_string()));
}

#[test]
fn report_without_score() {
    assert_eq!(score_text(""), Err(VmafError::NoScore));
    assert_eq!(score_text("93.664639"), Err(VmafError::NoScore));
    assert_eq!(score_text("VMAF score:95"), Err(VmafError::NoScore));
    assert_eq!(score_text("vmaf score: 95"), Err(VmafError::NoScore));
    assert_eq!(score_text("VMAF score: x95"), Err(VmafError::NoScore));
}

#[test]
fn score_that_is_no_number() {
    assert_eq!(score_text("VMAF score: 1.2.3"), Err(VmafError::MalformedScore));
    assert_eq!(score_text("VMAF score: 95|1"), Err(VmafError::MalformedScore));
    assert_eq!(score_text("VMAF score: ."), Err(VmafError::MalformedScore));
    assert_eq!(score_text("VMAF score: |"), Err(VmafError::MalformedScore));
    assert_eq!(score_text("VMAF score: \u{0663}"), Err(VmafError::MalformedScore));
}

#[test]
fn decimal_texts() {
    for good in ["0", "95", "93.664639", ".5", "5.", "000.000"] {
        assert!(is_decimal(good), "{good}");
        assert_eq!(check_score(Some(good.to_string())), Ok(good.to_string()));
        assert!(good.parse::<f64>().is_ok());
    }
    for bad in ["", ".", "..", "1.2.3", "1|2", "+1", "-1", "1e5", " 1", "1 ", "\u{0663}", "1\u{e9}"] {
        assert!(!is_decimal(bad), "{bad}");
        assert_eq!(check_score(Some(bad.to_string())), Err(VmafError::MalformedScore));
    }
    assert_eq!(check_score(None), Err(VmafError::NoScore));
}
