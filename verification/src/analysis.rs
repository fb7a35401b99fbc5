//! One fabrication file: its layer identity, and the interpreter that its kind calls for.
use vstd::prelude::*;
use crate::drill::{drill_actions_view, plan_drill, spec_drill_plan, DrillPlan};
use crate::gerber::strings_view;
use crate::gerber_machine::{actions_view, plan_gerber, spec_plan, GerberPlan};
use crate::layer::{describes, detect_layer, spec_layer_kind, LayerIdentity, LayerKind};

verus! {

/// The plan of a file: drill files are read as Excellon programs, all others as Gerber.
pub enum LayerPlan {
    Drill(DrillPlan),
    Gerber(GerberPlan),
}

/// A file's identity and plan.
pub struct FilePlan {
    pub identity: LayerIdentity,
    pub plan: LayerPlan,
}

/// Detects the layer of a file and interprets its text with the interpreter that the layer
/// kind calls for.
pub fn plan_file(file_name: &str, text: &str) -> (r: FilePlan)
    ensures
        describes(r.identity, spec_layer_kind(file_name@, text@)),
        (r.plan is Drill) == (spec_layer_kind(file_name@, text@) == LayerKind::Drill),
        r.plan matches LayerPlan::Drill(p) ==> drill_actions_view(p.actions@) == spec_drill_plan(
            text@,
        ).1,
        r.plan matches LayerPlan::Gerber(p) ==> actions_view(p.actions@) == spec_plan(text@).1
            && strings_view(p.warnings@) == spec_plan(text@).0.warnings,
{
    let identity = detect_layer(file_name, text);
    let plan = if identity.is_drill {
        LayerPlan::Drill(plan_drill(text))
    } else {
        LayerPlan::Gerber(plan_gerber(text))
    };
    FilePlan { identity, plan }
}

} // verus!
