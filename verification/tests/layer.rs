use gerber_dfm::analysis::{plan_file, LayerPlan};
use gerber_dfm::layer::{detect_layer, looks_like_excellon};

#[test]
fn detects_standard_fabrication_extensions() {
    assert_eq!(detect_layer("board.GTL", "").kind, "top-copper");
    assert_eq!(detect_layer("board.GBL", "").kind, "bottom-copper");
    assert_eq!(detect_layer("board.GTS", "").kind, "top-soldermask");
    assert_eq!(detect_layer("board.GTO", "").kind, "top-silkscreen");
    assert_eq!(detect_layer("board.GKO", "").kind, "outline");
    assert_eq!(detect_layer("board.DRL", "").kind, "drill");
}

#[test]
fn detects_kicad_names_with_generic_gerber_extensions() {
    assert_eq!(detect_layer("board-F_Cu.gbr", "").kind, "top-copper");
    assert_eq!(
        detect_layer("board-B_Mask.gbr", "").kind,
        "bottom-soldermask"
    );
    assert_eq!(detect_layer("board-Edge_Cuts.gbr", "").kind, "outline");
}

#[test]
fn identity_fields_follow_the_kind() {
    let drill = detect_layer("board-PTH.drl", "");
    assert_eq!(drill.kind, "drill");
    assert_eq!(drill.label, "Drill");
    assert_eq!(drill.color, "#67a6ff");
    assert!(drill.is_drill);
    let copper = detect_layer("board-F_Cu.gbr", "");
    assert_eq!(copper.label, "Top copper");
    assert_eq!(copper.color, "#e7a33e");
    assert!(!copper.is_drill);
}

#[test]
fn every_rule_has_its_kind() {
    let cases = [
        ("a.xln", "drill"),
        ("a_npth.gbr", "drill"),
        ("a.g2", "inner-copper"),
        ("a-In1_Cu.gbr", "inner-copper"),
        ("a.GBS", "bottom-soldermask"),
        ("a.gbo", "bottom-silkscreen"),
        ("a-F_Paste.gbr", "top-paste"),
        ("a.gbp", "bottom-paste"),
        ("a.gm1", "outline"),
        ("board-back.gbr", "bottom-copper"),
        ("a.frontsilk.gbr", "top-silkscreen"),
        ("plain.gbr", "gerber"),
        ("noextension", "gerber"),
    ];
    for (name, kind) in cases {
        assert_eq!(detect_layer(name, "").kind, kind, "{name}");
    }
}

#[test]
fn earlier_rules_win() {
    // A drill name beats a copper name, copper beats mask.
    assert_eq!(detect_layer("f_cu-drill.gbr", "").kind, "drill");
    assert_eq!(detect_layer("f_cu_f_mask.gbr", "").kind, "top-copper");
}

#[test]
fn text_files_are_drills_only_when_they_read_as_excellon() {
    assert_eq!(detect_layer("holes.txt", "m48\nt01c0.8\n").kind, "drill");
    assert_eq!(detect_layer("holes.txt", "\n  T2 C0.5\r\n").kind, "drill");
    assert_eq!(detect_layer("notes.txt", "hello\nTOP\n").kind, "gerber");
    assert_eq!(detect_layer("holes.gbr", "M48\n").kind, "gerber");
}

#[test]
fn excellon_detection() {
    assert!(looks_like_excellon("M48"));
    assert!(looks_like_excellon("x\n t1c0.4"));
    assert!(!looks_like_excellon("C\nT"));
    assert!(!looks_like_excellon(""));
}

#[test]
fn name_case_does_not_matter() {
    assert_eq!(detect_layer("BOARD-F_CU.GBR", "").kind, detect_layer("board-f_cu.gbr", "").kind);
    assert_eq!(detect_layer("Board.Gtl", "").kind, "top-copper");
}

#[test]
fn files_are_read_by_the_interpreter_of_their_kind() {
    let drill = plan_file("board-PTH.drl", "M48\nMETRIC,LZ\nT01C0.800\n%\nT01\nX010000Y005000\nM30\n");
    assert_eq!(drill.identity.kind, "drill");
    match drill.plan {
        LayerPlan::Drill(plan) => assert_eq!(plan.actions.len(), 2),
        LayerPlan::Gerber(_) => panic!("drill file read as Gerber"),
    }
    let copper = plan_file(
        "board-F_Cu.gbr",
        "%FSLAX24Y24*%%MOMM*%%ADD10C,0.200*%D10*X000000Y000000D02*X100000Y000000D01*M02*",
    );
    assert_eq!(copper.identity.kind, "top-copper");
    match copper.plan {
        LayerPlan::Gerber(plan) => assert_eq!(plan.actions.len(), 3),
        LayerPlan::Drill(_) => panic!("Gerber file read as drill"),
    }
}
