use butterfly::mouse::{report_event, Encoding, Mouse, MouseEvent, MouseFault};
use butterfly::text::ParseError;

fn groups(parts: &[&str]) -> Vec<Option<String>> {
    parts.iter().map(|p| Some(String::from(*p))).collect()
}

#[test]
fn sgr_press_and_release() {
    let mouse = Mouse::new().unwrap();
    assert_eq!(mouse.decode("[<0;20;5M"), Some(Ok(MouseEvent::Press { x: 19, y: 4 })));
    assert_eq!(mouse.decode("[<0;20;5m"), Some(Ok(MouseEvent::Ignored)));
    assert_eq!(mouse.decode("[<32;1;1M"), Some(Ok(MouseEvent::Press { x: 0, y: 0 })));
    assert_eq!(mouse.decode("[<1;20;5M"), Some(Ok(MouseEvent::Ignored)));
    assert_eq!(mouse.decode("[<2;20;5M"), Some(Ok(MouseEvent::Ignored)));
    assert_eq!(mouse.decode("[<64;20;5M"), Some(Ok(MouseEvent::ScrollUp)));
    assert_eq!(mouse.decode("[<65;20;5M"), Some(Ok(MouseEvent::ScrollDown)));
    assert_eq!(mouse.decode("[<0;0;5M"), Some(Ok(MouseEvent::Ignored)));
    assert_eq!(mouse.decode("[<0;5;0M"), Some(Ok(MouseEvent::Ignored)));
}

#[test]
fn urxvt_press_and_release() {
    let mouse = Mouse::new().unwrap();
    assert_eq!(mouse.decode("[32;20;5M"), Some(Ok(MouseEvent::Press { x: 19, y: 4 })));
    assert_eq!(mouse.decode("[64;20;5M"), Some(Ok(MouseEvent::Press { x: 19, y: 4 })));
    assert_eq!(mouse.decode("[35;20;5M"), Some(Ok(MouseEvent::Ignored)));
    assert_eq!(mouse.decode("[33;20;5M"), Some(Ok(MouseEvent::Ignored)));
    assert_eq!(mouse.decode("[96;20;5M"), Some(Ok(MouseEvent::ScrollUp)));
    assert_eq!(mouse.decode("[97;20;5M"), Some(Ok(MouseEvent::ScrollDown)));
    assert_eq!(mouse.decode("[0;20;5M"), Some(Ok(MouseEvent::Ignored)));
    assert_eq!(mouse.decode("[31;20;5M"), Some(Ok(MouseEvent::Ignored)));
}

#[test]
fn what_is_no_pointer_report() {
    let mouse = Mouse::new().unwrap();
    for seq in ["", "[A", "[5~", "[<0;20;5", "[<0;20M", "[<0;20;5;6M", "x[<0;20;5M", "[<0;20;5Mx", "[<a;20;5M", "[0;20;5m", "<0;20;5M", "[<;20;5M"] {
        assert_eq!(mouse.decode(seq), None, "{:?}", seq);
    }
}

#[test]
fn a_field_that_is_too_large_is_a_fault() {
    let mouse = Mouse::new().unwrap();
    assert_eq!(
        mouse.decode("[<4294967296;20;5M"),
        Some(Err(MouseFault { field: 1, cause: ParseError::TooLarge }))
    );
    assert_eq!(
        mouse.decode("[<0;99999999999999999999;5M"),
        Some(Err(MouseFault { field: 2, cause: ParseError::TooLarge }))
    );
    assert_eq!(
        mouse.decode("[32;20;4294967296M"),
        Some(Err(MouseFault { field: 3, cause: ParseError::TooLarge }))
    );
    assert_eq!(mouse.decode("[<4294967295;20;5M"), Some(Ok(MouseEvent::Ignored)));
    // the first fault is reported
    assert_eq!(
        mouse.decode("[<4294967296;4294967296;5M"),
        Some(Err(MouseFault { field: 1, cause: ParseError::TooLarge }))
    );
}

#[test]
fn report_event_reads_the_groups() {
    assert_eq!(
        report_event(Encoding::Sgr, &groups(&["[<0;7;9M", "0", "7", "9", "M"])),
        Ok(MouseEvent::Press { x: 6, y: 8 })
    );
    assert_eq!(report_event(Encoding::Sgr, &groups(&["[<0;7;9m", "0", "7", "9", "m"])), Ok(MouseEvent::Ignored));
    assert_eq!(
        report_event(Encoding::Urxvt, &groups(&["[32;7;9M", "32", "7", "9"])),
        Ok(MouseEvent::Press { x: 6, y: 8 })
    );
    assert_eq!(
        report_event(Encoding::Sgr, &groups(&["", "0", "x", "9", "M"])),
        Err(MouseFault { field: 2, cause: ParseError::InvalidDigit })
    );
    assert_eq!(
        report_event(Encoding::Sgr, &groups(&["", "", "7", "9", "M"])),
        Err(MouseFault { field: 1, cause: ParseError::Empty })
    );
}

#[test]
fn report_event_ignores_groups_of_another_shape() {
    assert_eq!(report_event(Encoding::Sgr, &groups(&["", "0", "7", "9"])), Ok(MouseEvent::Ignored));
    assert_eq!(report_event(Encoding::Urxvt, &groups(&["", "32", "7", "9", "M"])), Ok(MouseEvent::Ignored));
    assert_eq!(report_event(Encoding::Urxvt, &Vec::new()), Ok(MouseEvent::Ignored));
    let mut missing = groups(&["", "32", "7", "9"]);
    missing[2] = None;
    assert_eq!(report_event(Encoding::Urxvt, &missing), Ok(MouseEvent::Ignored));
}
