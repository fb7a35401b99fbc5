use gerber_dfm::gerber::{
    commands, field_values, format_pair, is_macro_primitive, last_field, parse_fields,
    parse_number,
};
use gerber_dfm::gerber_machine::{plan_gerber, GerberAction, Operation, ShapeKind};
use gerber_dfm::number::{ParsedNumber, Units};

fn value(number: &ParsedNumber) -> f64 {
    match number {
        ParsedNumber::Literal(text) => text.parse::<f64>().unwrap_or(0.0),
        ParsedNumber::Scaled {
            negative,
            mantissa,
            shift,
            divisor_exp,
        } => {
            let mut v = *mantissa as f64;
            v *= 10_f64.powi(*shift);
            v /= 10_f64.powi(*divisor_exp);
            if *negative {
                -v
            } else {
                v
            }
        }
    }
}

fn scaled(negative: bool, mantissa: i64, shift: i32, divisor_exp: i32) -> ParsedNumber {
    ParsedNumber::Scaled {
        negative,
        mantissa,
        shift,
        divisor_exp,
    }
}

#[test]
fn parses_trailing_zero_coordinates() {
    assert_eq!(value(&parse_number("12", 2, 4, true)), 12.0);
    assert_eq!(value(&parse_number("12", 2, 4, false)), 0.0012);
}

#[test]
fn parse_number_forms() {
    assert_eq!(parse_number("12", 2, 4, true), scaled(false, 12, 4, 4));
    assert_eq!(parse_number("-000150", 2, 4, false), scaled(true, 150, 0, 4));
    assert_eq!(parse_number("+-7", 3, 3, true), scaled(false, 7, 5, 3));
    assert_eq!(
        parse_number("1.25", 2, 4, false),
        ParsedNumber::Literal("1.25".to_string())
    );
    assert_eq!(parse_number("99999999999999999999", 2, 4, false), scaled(false, 0, 0, 4));
    assert_eq!(parse_number("", 2, 4, true), scaled(false, 0, 6, 4));
}

#[test]
fn splits_commands() {
    assert_eq!(
        commands("%FSLAX24Y24*%\r\n%MOMM*%\nD10* X1Y2D01 *  *M02"),
        vec!["FSLAX24Y24", "MOMM", "D10", "X1Y2D01", "M02"]
    );
    assert_eq!(commands(""), Vec::<String>::new());
    assert_eq!(commands("**%%\n"), Vec::<String>::new());
}

#[test]
fn parses_fields_of_a_command() {
    let fields = parse_fields("G01X-100Y+2.5D01Q");
    let expected: Vec<(char, String)> = vec![
        ('G', "01".to_string()),
        ('X', "-100".to_string()),
        ('Y', "+2.5".to_string()),
        ('D', "01".to_string()),
    ];
    assert_eq!(fields, expected);
    assert_eq!(parse_fields("X-Y"), vec![('X', "-".to_string())]);
    assert_eq!(parse_fields("XY"), Vec::<(char, String)>::new());
    assert_eq!(field_values(&fields, 'X'), vec!["-100"]);
    let repeated = parse_fields("G01G36X1X2");
    assert_eq!(field_values(&repeated, 'G'), vec!["01", "36"]);
    assert_eq!(last_field(&repeated, 'X'), Some("2"));
    assert_eq!(last_field(&repeated, 'Y'), None);
}

#[test]
fn reads_format_pairs() {
    assert_eq!(format_pair("FSLAX24Y35", 'X'), Some((2, 4)));
    assert_eq!(format_pair("FSLAX24Y35", 'Y'), Some((3, 5)));
    assert_eq!(format_pair("FSLAX2", 'X'), None);
    assert_eq!(format_pair("FSLA", 'X'), None);
    assert_eq!(format_pair("FSLAé24", 'é'), None);
}

#[test]
fn recognises_macro_primitives() {
    assert!(is_macro_primitive("21,1,1.2,0.8,0,0,0"));
    assert!(is_macro_primitive("$1=2,3"));
    assert!(!is_macro_primitive("21"));
    assert!(!is_macro_primitive("ADD10C,0.2"));
}

#[test]
fn plans_lines_and_flashes() {
    let source = "%FSLAX24Y24*%%MOMM*%%ADD10C,0.200*%D10*X000000Y000000D02*X100000Y000000D01*X100000Y050000D03*M02*";
    let plan = plan_gerber(source);
    assert!(plan.warnings.is_empty());
    assert_eq!(plan.actions.len(), 4);
    assert_eq!(
        plan.actions[0],
        GerberAction::DefineAperture {
            code: 10,
            shape: ShapeKind::Circle,
            parameters: vec!["0.200".to_string()],
            units: Units::Millimeter,
        }
    );
    assert_eq!(
        plan.actions[2],
        GerberAction::Operate {
            x: Some(scaled(false, 100000, 0, 4)),
            y: Some(scaled(false, 0, 0, 4)),
            units: Units::Millimeter,
            incremental: false,
            op: Operation::Line { aperture: Some(10) },
        }
    );
    assert_eq!(
        plan.actions[3],
        GerberAction::Operate {
            x: Some(scaled(false, 100000, 0, 4)),
            y: Some(scaled(false, 50000, 0, 4)),
            units: Units::Millimeter,
            incremental: false,
            op: Operation::Flash { aperture: Some(10) },
        }
    );
}

#[test]
fn plans_aperture_macros_with_one_warning() {
    let source = "%FSLAX24Y24*%%MOMM*%%AMBOX*21,1,1.2,0.8,0,0,0*%%ADD10BOX*%%AMPAD*1,1,1,0,0*%%ADD11PAD*%D10*X000000Y000000D03*M02*";
    let plan = plan_gerber(source);
    assert_eq!(
        plan.warnings,
        vec!["Gerber aperture macros are approximated from their primitive bounds.".to_string()]
    );
    assert_eq!(plan.actions[0], GerberAction::BeginMacro { name: "BOX".to_string() });
    assert_eq!(
        plan.actions[1],
        GerberAction::MacroPrimitive {
            parameters: ["21", "1", "1.2", "0.8", "0", "0", "0"]
                .iter()
                .map(|p| p.to_string())
                .collect(),
        }
    );
    assert_eq!(plan.actions[2], GerberAction::FinishMacro { units: Units::Millimeter });
    assert_eq!(
        plan.actions[3],
        GerberAction::UseMacroAperture { code: 10, name: "BOX".to_string() }
    );
    let begins = plan.actions.iter().filter(|a| matches!(a, GerberAction::BeginMacro { .. })).count();
    let finishes = plan.actions.iter().filter(|a| matches!(a, GerberAction::FinishMacro { .. })).count();
    assert_eq!(begins, 2);
    assert_eq!(finishes, 2);
}

#[test]
fn clear_polarity_warns_once_and_draws_nothing() {
    let plan = plan_gerber("%ADD10C,0.1*%D10*%LPC*%X1Y1D01*X2Y2D03*%LPC*%");
    assert_eq!(
        plan.warnings,
        vec!["Gerber clear polarity is currently omitted from the SVG preview.".to_string()]
    );
    for action in &plan.actions {
        if let GerberAction::Operate { op, .. } = action {
            assert_eq!(*op, Operation::Move);
        }
    }
}

#[test]
fn unknown_aperture_shape_is_a_circle_with_a_warning() {
    let plan = plan_gerber("%ADD12Z,1X2*%%ADD13Z,1*%%ADD14P,1X5X30*%");
    assert_eq!(
        plan.warnings,
        vec!["A macro aperture was approximated as a circle.".to_string()]
    );
    assert_eq!(
        plan.actions[0],
        GerberAction::DefineAperture {
            code: 12,
            shape: ShapeKind::Circle,
            parameters: vec!["1".to_string(), "2".to_string()],
            units: Units::Inch,
        }
    );
    assert_eq!(
        plan.actions[2],
        GerberAction::DefineAperture {
            code: 14,
            shape: ShapeKind::Polygon,
            parameters: vec!["1".to_string(), "5".to_string(), "30".to_string()],
            units: Units::Inch,
        }
    );
}

#[test]
fn regions_and_arcs() {
    let plan = plan_gerber("G36*X0Y0D02*X10Y0D01*G03X10Y10I-5J5D01*G37*G02*X1Y1I1J0D01*");
    assert_eq!(plan.actions[0], GerberAction::BeginRegion);
    assert!(matches!(plan.actions[1], GerberAction::Operate { op: Operation::RegionMoveTo, .. }));
    assert!(matches!(plan.actions[2], GerberAction::Operate { op: Operation::RegionVertex, .. }));
    assert!(matches!(plan.actions[3], GerberAction::Operate { op: Operation::RegionVertex, .. }));
    assert_eq!(plan.actions[4], GerberAction::FinishRegion { keep: true });
    assert_eq!(
        plan.actions[5],
        GerberAction::Operate {
            x: Some(scaled(false, 1, 0, 4)),
            y: Some(scaled(false, 1, 0, 4)),
            units: Units::Inch,
            incremental: false,
            op: Operation::Arc {
                aperture: None,
                clockwise: true,
                i: Some(scaled(false, 1, 0, 4)),
                j: Some(scaled(false, 0, 0, 4)),
            },
        }
    );
    assert_eq!(plan.actions.len(), 6);
}

#[test]
fn open_region_and_macro_close_at_the_end() {
    let plan = plan_gerber("%AMX*1,1,1,0,0*%G36*X1Y1D01");
    let n = plan.actions.len();
    assert_eq!(plan.actions[n - 1], GerberAction::FinishRegion { keep: true });
    assert!(plan
        .actions
        .iter()
        .any(|a| matches!(a, GerberAction::FinishMacro { units: Units::Inch })));
}

#[test]
fn format_and_units_commands() {
    let plan = plan_gerber("%FSTIX36Y25*%G71*G91*X5Y-7D03*");
    assert_eq!(
        plan.actions[0],
        GerberAction::Operate {
            x: Some(scaled(false, 5, 8, 6)),
            y: Some(scaled(true, 7, 6, 5)),
            units: Units::Millimeter,
            incremental: true,
            op: Operation::Flash { aperture: None },
        }
    );
}

#[test]
fn each_warning_appears_once() {
    let plan = plan_gerber(
        "%AMA*1,1,1,0,0*%%ADD10Z,1*%%LPC*%%AMB*1,1,1,0,0*%%LPC*%%ADD11Q*%%lpc*%",
    );
    assert_eq!(
        plan.warnings,
        vec![
            "Gerber aperture macros are approximated from their primitive bounds.".to_string(),
            "A macro aperture was approximated as a circle.".to_string(),
            "Gerber clear polarity is currently omitted from the SVG preview.".to_string(),
        ]
    );
}

#[test]
fn commands_are_trimmed_and_upper_cased_before_interpretation() {
    let plan = plan_gerber(" %momm*%\n  add10r,1x2 *");
    assert_eq!(
        plan.actions,
        vec![GerberAction::DefineAperture {
            code: 10,
            shape: ShapeKind::Rectangle,
            parameters: vec!["1".to_string(), "2".to_string()],
            units: Units::Millimeter,
        }]
    );
}

#[test]
fn selecting_an_aperture_alone_draws_nothing_and_d_alone_operates() {
    let plan = plan_gerber("D11*D03*");
    assert_eq!(
        plan.actions,
        vec![GerberAction::Operate {
            x: None,
            y: None,
            units: Units::Inch,
            incremental: false,
            op: Operation::Flash { aperture: Some(11) },
        }]
    );
}

#[test]
fn written_commands_split_back() {
    let cmds = vec!["FSLAX24Y24", "MOMM", "ADD10C,0.2", "X1Y2D01"];
    let written: String = cmds.iter().map(|c| format!("{c}*")).collect();
    assert_eq!(commands(&written), cmds);
}

#[test]
fn macro_variables_are_passed_over_and_parameters_trimmed() {
    let plan = plan_gerber("%AMM*$1=2, 3*1 , 1,0.5 ,0,0*%");
    assert_eq!(
        plan.actions,
        vec![
            GerberAction::BeginMacro { name: "M".to_string() },
            GerberAction::MacroPrimitive {
                parameters: ["1", "1", "0.5", "0", "0"].iter().map(|p| p.to_string()).collect(),
            },
            GerberAction::FinishMacro { units: Units::Inch },
        ]
    );
}

#[test]
fn letter_case_does_not_change_the_plan() {
    let lower = "%fslax24y24*%%momm*%%amBox*21,1,1.2,0.8,0,0,0*%%add10box*%g36*x0y0d02*x1y1d01*g37*%lpc*%";
    assert_eq!(plan_gerber(lower), plan_gerber(&lower.to_uppercase()));
}

#[test]
fn clear_polarity_draws_until_dark_again() {
    let plan = plan_gerber("%ADD10C,0.1*%D10*%LPC*%X1Y1D03*X2Y2D01*%LPD*%X3Y3D03*%");
    let drawn = plan
        .actions
        .iter()
        .filter(|a| matches!(a, GerberAction::Operate { op, .. } if *op != Operation::Move))
        .count();
    assert_eq!(drawn, 1);
}
