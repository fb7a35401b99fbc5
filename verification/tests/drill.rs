use gerber_dfm::drill::{field, parse_number, plan_drill, DrillAction, DrillFormat};
use gerber_dfm::number::{ParsedNumber, Units};

fn scaled(negative: bool, mantissa: i64, divisor_exp: i32) -> ParsedNumber {
    ParsedNumber::Scaled {
        negative,
        mantissa,
        shift: 0,
        divisor_exp,
    }
}

#[test]
fn reads_fields() {
    assert_eq!(field("X010000Y-005000", 'X'), Some("010000"));
    assert_eq!(field("X010000Y-005000", 'Y'), Some("-005000"));
    assert_eq!(field("X+Y1", 'X'), Some("+"));
    assert_eq!(field("ÅX12.5Y", 'X'), Some("12.5"));
    assert_eq!(field("XY1", 'X'), None);
    assert_eq!(field("Y1", 'X'), None);
}

#[test]
fn drill_numbers() {
    let chars = |s: &str| s.chars().collect::<Vec<char>>();
    let leading = DrillFormat {
        integer: 3,
        decimal: 3,
        trailing_zero_omission: false,
    };
    let trailing = DrillFormat {
        integer: 2,
        decimal: 4,
        trailing_zero_omission: true,
    };
    assert_eq!(parse_number(&chars("010000"), leading), scaled(false, 10000, 3));
    assert_eq!(parse_number(&chars("-0125"), trailing), scaled(true, 125, 2));
    assert_eq!(parse_number(&chars("1"), trailing), scaled(false, 1, 0));
    assert_eq!(
        parse_number(&chars("0.5"), trailing),
        ParsedNumber::Literal("0.5".to_string())
    );
}

#[test]
fn plans_metric_excellon_holes() {
    let source = "M48\nMETRIC,LZ\nT01C0.800\n%\nT01\nX010000Y005000\nX020000Y015000\nM30\n";
    let plan = plan_drill(source);
    assert_eq!(plan.actions.len(), 3);
    assert_eq!(
        plan.actions[0],
        DrillAction::DefineTool {
            code: 1,
            diameter: "0.800".to_string(),
            units: Units::Millimeter,
        }
    );
    assert_eq!(
        plan.actions[2],
        DrillAction::Hit {
            x: Some(scaled(false, 20000, 3)),
            y: Some(scaled(false, 15000, 3)),
            units: Units::Millimeter,
            incremental: false,
            tool: Some(1),
        }
    );
}

#[test]
fn nothing_after_end_of_program() {
    let plan = plan_drill("T2\nX1Y1\nM30\nX2Y2\nT3C1.0\n");
    assert_eq!(plan.actions.len(), 1);
}

#[test]
fn file_format_comment_overrides_unit_defaults() {
    let plan = plan_drill(";FILE_FORMAT=4:2\nMETRIC\nX123456 ; note\n");
    assert_eq!(
        plan.actions[0],
        DrillAction::Hit {
            x: Some(scaled(false, 123456, 2)),
            y: None,
            units: Units::Millimeter,
            incremental: false,
            tool: None,
        }
    );
}

#[test]
fn slots_and_incremental_mode() {
    let plan = plan_drill("INCH\nG91\nT5\nX1Y2G85X3\n");
    assert_eq!(
        plan.actions[0],
        DrillAction::Slot {
            start_x: Some(scaled(false, 1, 4)),
            start_y: Some(scaled(false, 2, 4)),
            end_x: Some(scaled(false, 3, 4)),
            end_y: None,
            units: Units::Inch,
            incremental: true,
            tool: Some(5),
        }
    );
}

#[test]
fn lines_after_m30_change_nothing() {
    let before = "M48\nT1C0.5\nT1\nX1Y1\n";
    let ended = plan_drill(&format!("{before}M30"));
    let longer = plan_drill(&format!("{before}M30\nX9Y9\nT2C3\nG91\n"));
    assert_eq!(ended, longer);
    assert_eq!(ended.actions.len(), 2);
}

#[test]
fn comments_and_blank_lines() {
    let plan = plan_drill("\n   \n; a comment\nT1 ; tool one\nX1\n");
    assert_eq!(
        plan.actions,
        vec![DrillAction::Hit {
            x: Some(scaled(false, 1, 4)),
            y: None,
            units: Units::Inch,
            incremental: false,
            tool: Some(1),
        }]
    );
}

#[test]
fn nothing_read_after_any_end_of_program_code() {
    let before = "M48\nMETRIC\nT1C0.5\n%\nT1\nX1Y1\n";
    let cut = plan_drill(before);
    for end in ["M30", "M00", "M02"] {
        let longer = plan_drill(&format!("{before}{end}\nX9Y9\nT2C3\nG91\nX5Y5\n"));
        assert_eq!(longer.actions, cut.actions);
    }
    assert_eq!(cut.actions.len(), 2);
}
