use caltui::help::{centered_rect, help_popup, help_rows, HelpContext, Rect};
use caltui::palette::Hue;

#[test]
fn popups_are_centred_and_clipped() {
    let area = Rect { x: 0, y: 0, width: 100, height: 40 };
    assert_eq!(centered_rect(56, 22, area), Rect { x: 22, y: 9, width: 56, height: 22 });
    let small = Rect { x: 5, y: 3, width: 30, height: 10 };
    assert_eq!(centered_rect(56, 22, small), Rect { x: 5, y: 3, width: 30, height: 10 });
    assert_eq!(centered_rect(10, 4, Rect { x: 1, y: 1, width: 15, height: 9 }), Rect { x: 3, y: 3, width: 10, height: 4 });
}

#[test]
fn help_popup_fits_its_lines() {
    let area = Rect { x: 0, y: 0, width: 80, height: 40 };
    let rows = help_rows(HelpContext::Timeline);
    assert_eq!(rows.len(), 18);
    assert_eq!(help_popup(rows.len(), area), Rect { x: 12, y: 9, width: 56, height: 22 });
}

#[test]
fn help_lines() {
    let rows = help_rows(HelpContext::Detail);
    assert_eq!(rows.len(), 9);
    assert_eq!(rows[0][0].text, " Navigation");
    assert_eq!(rows[0][0].hue, Hue::Cyan);
    assert!(rows[0][0].bold);
    assert_eq!(rows[3][0].text, "  Esc / Backspace   ");
    assert_eq!(rows[3][0].hue, Hue::Yellow);
    assert_eq!(rows[3][1].text, "Back to timeline");
    assert!(rows[4].is_empty());
    let rows = help_rows(HelpContext::Settings);
    assert_eq!(rows.len(), 11);
    assert_eq!(rows[9][0].text, "  Ctrl+S            ");
    assert_eq!(rows[9][1].text, "Save config");
}
