//! Properties of the graphics modes that Gerber commands set: the interpolation that decides an
//! arc's direction, the units that every step is read in, and the shapes of aperture definitions.
use vstd::prelude::*;
use crate::gerber::{spec_fields, values_named};
use crate::gerber_laws::token_of;
use crate::gerber_machine::{
    apply_g, apply_gs, field_number, finish_macro, spec_aperture, x_separator, ShapeKind, finish_region, spec_command, spec_d_and_move, spec_operate,
    spec_process, ActionModel, GerberModel, Interpolation, OperationModel,
};
use crate::number::Units;
use crate::text::{all_digits, digits_value, first_index, is_digit, leading_digits, split_where};

verus! {

/// Every step of `a` satisfies `p`.
pub open spec fn every_step(a: Seq<ActionModel>, p: spec_fn(ActionModel) -> bool) -> bool {
    forall|i: int| 0 <= i < a.len() ==> p(#[trigger] a[i])
}

/// A track follows the interpolation: a straight track only under linear interpolation, an
/// arc only under circular interpolation, clockwise exactly under `G02`.
pub open spec fn arc_follows(interpolation: Interpolation) -> spec_fn(ActionModel) -> bool {
    |a: ActionModel|
        match a {
            ActionModel::Operate { op: OperationModel::Arc { clockwise, .. }, .. } => interpolation
                != Interpolation::Linear && clockwise == (interpolation == Interpolation::Clockwise),
            ActionModel::Operate { op: OperationModel::Line { .. }, .. } => interpolation
                == Interpolation::Linear,
            _ => true,
        }
}

/// A drawing step reads its coordinates as offsets exactly in incremental mode.
pub open spec fn moves_as(incremental: bool) -> spec_fn(ActionModel) -> bool {
    |a: ActionModel|
        match a {
            ActionModel::Operate { incremental: i, .. } => i == incremental,
            _ => true,
        }
}

/// An aperture definition or a drawing step is read in `units`.
pub open spec fn read_in(units: Units) -> spec_fn(ActionModel) -> bool {
    |a: ActionModel|
        match a {
            ActionModel::DefineAperture { units: u, .. } => u == units,
            ActionModel::Operate { units: u, .. } => u == units,
            _ => true,
        }
}

proof fn lemma_every_step_concat(
    a: Seq<ActionModel>,
    b: Seq<ActionModel>,
    p: spec_fn(ActionModel) -> bool,
)
    requires
        every_step(a, p),
        every_step(b, p),
    ensures
        every_step(a + b, p),
{
    assert forall|i: int| 0 <= i < (a + b).len() implies p(#[trigger] (a + b)[i]) by {
        if i < a.len() {
            assert((a + b)[i] == a[i]);
        } else {
            assert((a + b)[i] == b[i - a.len()]);
        }
    }
}

/// The `G` codes of a command give at most region openings.
proof fn lemma_gs_steps(m: GerberModel, values: Seq<Seq<char>>)
    ensures
        forall|i: int|
            0 <= i < apply_gs(m, values).1.len() ==> #[trigger] apply_gs(m, values).1[i]
                == ActionModel::BeginRegion,
    decreases values.len(),
{
    if values.len() > 0 {
        lemma_gs_steps(m, values.drop_last());
        let (m0, a0, c0) = apply_gs(m, values.drop_last());
        let a1 = apply_g(m0, crate::gerber_machine::g_code(values.last())).1;
        assert forall|i: int| 0 <= i < (a0 + a1).len() implies #[trigger] (a0 + a1)[i]
            == ActionModel::BeginRegion by {
            if i < a0.len() {
                assert((a0 + a1)[i] == a0[i]);
            } else {
                assert((a0 + a1)[i] == a1[i - a0.len()]);
            }
        }
    }
}

/// Steps that are neither aperture definitions nor drawing steps satisfy both predicates.
proof fn lemma_plain_steps(a: Seq<ActionModel>, interpolation: Interpolation, units: Units)
    requires
        forall|i: int|
            0 <= i < a.len() ==> !(#[trigger] a[i] is Operate) && !(a[i] is DefineAperture),
    ensures
        every_step(a, arc_follows(interpolation)),
        every_step(a, read_in(units)),
        forall|incremental: bool| every_step(a, #[trigger] moves_as(incremental)),
{
    assert forall|incremental: bool, i: int| 0 <= i < a.len() implies #[trigger] moves_as(
        incremental,
    )(#[trigger] a[i]) by {
        assert(!(a[i] is Operate));
    }
    assert forall|i: int| 0 <= i < a.len() implies #[trigger] arc_follows(interpolation)(a[i]) by {
        assert(!(a[i] is Operate));
    }
    assert forall|i: int| 0 <= i < a.len() implies #[trigger] read_in(units)(a[i]) by {
        assert(!(a[i] is Operate) && !(a[i] is DefineAperture));
    }
}

/// What one command does to the modes and which steps it gives: an arc step turns as the
/// interpolation in force after the command says (clockwise exactly under `G02`, and never
/// under linear interpolation, where tracks are straight), every aperture definition and
/// drawing step is read in the units in force after the command, and every drawing step reads
/// its coordinates as offsets exactly when incremental mode is in force after the command.
pub proof fn lemma_steps_follow_modes(m: GerberModel, command: Seq<char>)
    ensures
        every_step(
            spec_process(m, command).1,
            arc_follows(spec_process(m, command).0.interpolation),
        ),
        every_step(spec_process(m, command).1, read_in(spec_process(m, command).0.units)),
        every_step(
            spec_process(m, command).1,
            moves_as(spec_process(m, command).0.format.incremental),
        ),
{
    let (mf, af) = spec_process(m, command);
    let token = token_of(command);
    if m.active_macro is Some && crate::gerber::spec_is_macro_primitive(token) {
        lemma_plain_steps(af, mf.interpolation, mf.units);
        assert(every_step(af, moves_as(mf.format.incremental)));
    } else {
        let (m1, a1) = finish_macro(m);
        let (m2, a2) = spec_command(m1, token);
        assert(mf == m2 && af == a1 + a2);
        lemma_plain_steps(a1, mf.interpolation, mf.units);
        if crate::text::starts_with(token, "AM"@) || crate::gerber_machine::is_skipped(token)
            || crate::text::starts_with(token, "FS"@) || token == "MOMM"@ || token == "MOIN"@ {
            lemma_plain_steps(a2, mf.interpolation, mf.units);
        } else if crate::text::starts_with(token, "ADD"@) {
            assert(mf.units == m1.units && mf.interpolation == m1.interpolation);
            assert(every_step(a2, arc_follows(mf.interpolation)));
            assert(every_step(a2, read_in(mf.units)));
            assert(every_step(a2, moves_as(mf.format.incremental)));
        } else if token == "LPD"@ || token == "LPC"@ {
            lemma_plain_steps(a2, mf.interpolation, mf.units);
        } else {
            let fields = spec_fields(token);
            lemma_gs_steps(m1, values_named(fields, 'G'));
            let (g1, ga, close) = apply_gs(m1, values_named(fields, 'G'));
            let (g2, gb) = if close {
                finish_region(g1)
            } else {
                (g1, Seq::empty())
            };
            let (g3, gc) = spec_d_and_move(g2, fields);
            assert(g3 == mf && a2 == ga + gb + gc);
            lemma_plain_steps(ga, mf.interpolation, mf.units);
            lemma_plain_steps(gb, mf.interpolation, mf.units);
            lemma_every_step_concat(ga, gb, arc_follows(mf.interpolation));
            lemma_every_step_concat(ga, gb, read_in(mf.units));
            lemma_every_step_concat(ga + gb, gc, arc_follows(mf.interpolation));
            lemma_every_step_concat(ga + gb, gc, read_in(mf.units));
            lemma_every_step_concat(ga, gb, moves_as(mf.format.incremental));
            lemma_every_step_concat(ga + gb, gc, moves_as(mf.format.incremental));
        }
        lemma_every_step_concat(a1, a2, arc_follows(mf.interpolation));
        lemma_every_step_concat(a1, a2, read_in(mf.units));
        lemma_every_step_concat(a1, a2, moves_as(mf.format.incremental));
    }
}

/// A command made of `G` and two digits sets the mode of its code and gives no step of its own.
proof fn lemma_g_command(m: GerberModel, command: Seq<char>)
    requires
        token_of(command).len() == 3,
        token_of(command)[0] == 'G',
        is_digit(token_of(command)[1]),
        is_digit(token_of(command)[2]),
        token_of(command) != "G04"@,
        digits_value(token_of(command).subrange(1, 3)) != 37,
    ensures
        spec_process(m, command).0 == apply_g(
            finish_macro(m).0,
            digits_value(token_of(command).subrange(1, 3)),
        ).0,
{
    let t = token_of(command);
    let v = t.subrange(1, 3);
    reveal_strlit("AM");
    reveal_strlit("G04");
    reveal_strlit("TF");
    reveal_strlit("TA");
    reveal_strlit("TD");
    reveal_strlit("FS");
    reveal_strlit("MOMM");
    reveal_strlit("MOIN");
    reveal_strlit("ADD");
    reveal_strlit("LPD");
    reveal_strlit("LPC");
    assert(!crate::text::starts_with(t, "AM"@)) by {
        assert(t.take(2)[0] != "AM"@[0]);
    }
    assert(!crate::text::starts_with(t, "G04"@)) by {
        assert(t.take(3) =~= t);
    }
    assert(!crate::text::starts_with(t, "TF"@)) by {
        assert(t.take(2)[0] != "TF"@[0]);
    }
    assert(!crate::text::starts_with(t, "TA"@)) by {
        assert(t.take(2)[0] != "TA"@[0]);
    }
    assert(!crate::text::starts_with(t, "TD"@)) by {
        assert(t.take(2)[0] != "TD"@[0]);
    }
    assert(!crate::text::starts_with(t, "FS"@)) by {
        assert(t.take(2)[0] != "FS"@[0]);
    }
    assert(!crate::text::starts_with(t, "ADD"@)) by {
        assert(t.take(3)[0] != "ADD"@[0]);
    }
    assert(t != "LPD"@ && t != "LPC"@ && t != "MOMM"@ && t != "MOIN"@) by {
        assert(t[0] != "LPD"@[0]);
        assert(t[0] != "LPC"@[0]);
    }
    assert(!crate::gerber::spec_is_macro_primitive(t));
    // The fields: one `G` field holding the two digits.
    reveal_with_fuel(crate::gerber::run_end, 4);
    assert(crate::gerber::value_end(t, 1) == 3);
    reveal_with_fuel(crate::gerber::fields_from, 2);
    let fields = spec_fields(t);
    assert(fields =~= seq![('G', v)]);
    reveal_with_fuel(values_named, 2);
    assert(values_named(fields, 'G') =~= seq![v]);
    assert(values_named(fields, 'D') =~= Seq::<Seq<char>>::empty());
    assert(values_named(fields, 'X') =~= Seq::<Seq<char>>::empty());
    assert(values_named(fields, 'Y') =~= Seq::<Seq<char>>::empty());
    assert(crate::text::all_digits(v));
    assert(digits_value(v) <= 99) by {
        reveal_with_fuel(digits_value, 3);
        assert(v.drop_last().drop_last().len() == 0);
    }
    assert(crate::gerber_machine::g_code(v) == digits_value(v));
    reveal_with_fuel(apply_gs, 2);
    assert(seq![v].drop_last() =~= Seq::<Seq<char>>::empty());
}

/// The mode commands set what they name: `G01` linear, `G02` clockwise and `G03`
/// counter-clockwise interpolation; `G70` and `MOIN` inch units, `G71` and `MOMM` millimetre
/// units; `G90` absolute and `G91` incremental coordinates.
pub proof fn lemma_mode_commands(m: GerberModel, command: Seq<char>)
    ensures
        token_of(command) == "G01"@ ==> spec_process(m, command).0.interpolation
            == Interpolation::Linear,
        token_of(command) == "G02"@ ==> spec_process(m, command).0.interpolation
            == Interpolation::Clockwise,
        token_of(command) == "G03"@ ==> spec_process(m, command).0.interpolation
            == Interpolation::CounterClockwise,
        token_of(command) == "G70"@ ==> spec_process(m, command).0.units == Units::Inch,
        token_of(command) == "G71"@ ==> spec_process(m, command).0.units == Units::Millimeter,
        token_of(command) == "MOIN"@ ==> spec_process(m, command).0.units == Units::Inch,
        token_of(command) == "MOMM"@ ==> spec_process(m, command).0.units == Units::Millimeter,
        token_of(command) == "G90"@ ==> !spec_process(m, command).0.format.incremental,
        token_of(command) == "G91"@ ==> spec_process(m, command).0.format.incremental,
{
    let t = token_of(command);
    reveal_strlit("G01");
    reveal_strlit("G02");
    reveal_strlit("G03");
    reveal_strlit("G70");
    reveal_strlit("G71");
    reveal_strlit("G90");
    reveal_strlit("G91");
    reveal_strlit("G04");
    reveal_strlit("MOIN");
    reveal_strlit("MOMM");
    reveal_with_fuel(digits_value, 3);
    if t == "G01"@ || t == "G02"@ || t == "G03"@ || t == "G70"@ || t == "G71"@ || t == "G90"@
        || t == "G91"@ {
        assert(t != "G04"@) by {
            assert(t[2] != "G04"@[2]);
        }
        let v = t.subrange(1, 3);
        assert(v.drop_last().drop_last().len() == 0);
        assert(v[0] == t[1] && v[1] == t[2]);
        lemma_g_command(m, command);
    } else if t == "MOIN"@ || t == "MOMM"@ {
        reveal_strlit("AM");
        reveal_strlit("TF");
        reveal_strlit("TA");
        reveal_strlit("TD");
        reveal_strlit("FS");
        assert(!crate::gerber::spec_is_macro_primitive(t));
        assert(!crate::text::starts_with(t, "AM"@)) by {
            assert(t.take(2)[0] != "AM"@[0]);
        }
        assert(!crate::gerber_machine::is_skipped(t)) by {
            assert(t.take(3)[0] != "G04"@[0]);
            assert(t.take(2)[0] != "TF"@[0]);
            assert(t.take(2)[0] != "TA"@[0]);
            assert(t.take(2)[0] != "TD"@[0]);
        }
        assert(!crate::text::starts_with(t, "FS"@)) by {
            assert(t.take(2)[0] != "FS"@[0]);
        }
        assert(t == "MOIN"@ ==> t != "MOMM"@) by {
            assert("MOIN"@[2] != "MOMM"@[2]);
        }
    }
}

/// A command with no `G` code keeps the interpolation, and keeps the units too unless it is a
/// unit command (`MOIN`, `MOMM`).
pub proof fn lemma_modes_kept(m: GerberModel, command: Seq<char>)
    requires
        values_named(spec_fields(token_of(command)), 'G').len() == 0,
    ensures
        spec_process(m, command).0.interpolation == m.interpolation,
        token_of(command) != "MOIN"@ && token_of(command) != "MOMM"@ ==> spec_process(
            m,
            command,
        ).0.units == m.units,
{
    let t = token_of(command);
    let fields = spec_fields(t);
    assert(values_named(fields, 'G') =~= Seq::<Seq<char>>::empty());
    assert(apply_gs(finish_macro(m).0, values_named(fields, 'G')).0 == finish_macro(m).0);
    assert(!apply_gs(finish_macro(m).0, values_named(fields, 'G')).2);
}

/// An arc is drawn in the direction that the last interpolation command chose: after `G02` every
/// arc step of a following command without `G` codes is clockwise, after `G03` none is.
pub proof fn lemma_arc_direction(m: GerberModel, set: Seq<char>, draw: Seq<char>)
    requires
        token_of(set) == "G02"@ || token_of(set) == "G03"@,
        values_named(spec_fields(token_of(draw)), 'G').len() == 0,
    ensures
        forall|i: int|
            0 <= i < spec_process(spec_process(m, set).0, draw).1.len() ==> (
            #[trigger] spec_process(spec_process(m, set).0, draw).1[i] matches ActionModel::Operate {
                op: OperationModel::Arc { clockwise, .. },
                ..
            } ==> clockwise == (token_of(set) == "G02"@)),
{
    reveal_strlit("G02");
    reveal_strlit("G03");
    let m1 = spec_process(m, set).0;
    lemma_mode_commands(m, set);
    lemma_modes_kept(m1, draw);
    lemma_steps_follow_modes(m1, draw);
    let a = spec_process(m1, draw).1;
    assert(token_of(set) == "G03"@ ==> token_of(set) != "G02"@) by {
        assert("G03"@[2] != "G02"@[2]);
    }
    assert forall|i: int| 0 <= i < a.len() implies (#[trigger] a[i] matches ActionModel::Operate {
        op: OperationModel::Arc { clockwise, .. },
        ..
    } ==> clockwise == (token_of(set) == "G02"@)) by {
        assert(arc_follows(spec_process(m1, draw).0.interpolation)(a[i]));
    }
}

/// Units stay in force until changed: after `MOIN` (or `G70`) every aperture definition and
/// drawing step of a following command is read in inches, after `MOMM` (or `G71`) in
/// millimetres, unless that command changes the units itself.
pub proof fn lemma_units_carried(m: GerberModel, set: Seq<char>, next: Seq<char>)
    requires
        token_of(set) == "MOIN"@ || token_of(set) == "MOMM"@ || token_of(set) == "G70"@
            || token_of(set) == "G71"@,
        values_named(spec_fields(token_of(next)), 'G').len() == 0,
        token_of(next) != "MOIN"@,
        token_of(next) != "MOMM"@,
    ensures
        every_step(
            spec_process(spec_process(m, set).0, next).1,
            read_in(
                if token_of(set) == "MOIN"@ || token_of(set) == "G70"@ {
                    Units::Inch
                } else {
                    Units::Millimeter
                },
            ),
        ),
{
    let m1 = spec_process(m, set).0;
    lemma_mode_commands(m, set);
    lemma_modes_kept(m1, next);
    lemma_steps_follow_modes(m1, next);
}

proof fn lemma_leading_digits_concat(a: Seq<char>, b: Seq<char>)
    requires
        all_digits(a),
        b.len() > 0,
        !is_digit(b[0]),
    ensures
        leading_digits(a + b) == a.len(),
    decreases a.len(),
{
    if a.len() == 0 {
        assert(a + b =~= b);
    } else {
        assert((a + b).drop_first() =~= a.drop_first() + b);
        assert(all_digits(a.drop_first())) by {
            assert forall|i: int| 0 <= i < a.drop_first().len() implies is_digit(
                #[trigger] a.drop_first()[i],
            ) by {
                assert(a.drop_first()[i] == a[i + 1]);
            }
        }
        assert((a + b)[0] == a[0]);
        lemma_leading_digits_concat(a.drop_first(), b);
    }
}

proof fn lemma_first_index_concat(a: Seq<char>, b: Seq<char>, c: char)
    requires
        !a.contains(c),
        b.len() > 0,
        b[0] == c,
    ensures
        first_index(a + b, c) == Some(a.len() as int),
    decreases a.len(),
{
    if a.len() == 0 {
        assert(a + b =~= b);
    } else {
        assert((a + b).drop_first() =~= a.drop_first() + b);
        assert((a + b)[0] == a[0]);
        assert(a[0] != c) by {
            if a[0] == c {
                assert(a.contains(c));
            }
        }
        assert(!a.drop_first().contains(c)) by {
            if a.drop_first().contains(c) {
                let i = choose|i: int| 0 <= i < a.drop_first().len() && a.drop_first()[i] == c;
                assert(a[i + 1] == c);
            }
        }
        lemma_first_index_concat(a.drop_first(), b, c);
    }
}

/// An aperture definition `ADD<code><shape>,<parameters>` gives one step. A shape name that is a
/// defined macro gives the macro's aperture under that code; any other gives a definition with
/// that code, the `X`-separated parameters, the units in force, and the shape that the first
/// letter of the name gives: `C` a circle, `R` a rectangle, `O` an obround, `P` a polygon, and
/// any other letter a circle.
pub proof fn lemma_aperture_shapes(
    m: GerberModel,
    code: Seq<char>,
    name: Seq<char>,
    parameters: Seq<char>,
)
    requires
        code.len() > 0,
        all_digits(code),
        digits_value(code) <= u32::MAX,
        name.len() > 0,
        !is_digit(name[0]),
        !name.contains(','),
    ensures
        ({
            let steps = spec_aperture(m, "ADD"@ + code + name + ","@ + parameters).1;
            &&& steps.len() == 1
            &&& m.macro_names.contains(name) ==> steps[0] == ActionModel::UseMacroAperture {
                code: digits_value(code) as u32,
                name: name,
            }
            &&& !m.macro_names.contains(name) ==> (steps[0] matches ActionModel::DefineAperture {
                code: c,
                shape,
                parameters: p,
                units,
            } && c == digits_value(code) && p == split_where(parameters, x_separator()) && units
                == m.units && (name[0] == 'C' ==> shape == ShapeKind::Circle) && (name[0] == 'R'
                ==> shape == ShapeKind::Rectangle) && (name[0] == 'O' ==> shape
                == ShapeKind::Obround) && (name[0] == 'P' ==> shape == ShapeKind::Polygon) && (
            name[0] != 'R' && name[0] != 'O' && name[0] != 'P' ==> shape == ShapeKind::Circle))
        }),
{
    reveal_strlit("ADD");
    reveal_strlit(",");
    let token = "ADD"@ + code + name + ","@ + parameters;
    let rest = token.skip(3);
    let tail = name + ","@ + parameters;
    assert(rest =~= code + tail);
    assert(tail[0] == name[0]);
    lemma_leading_digits_concat(code, tail);
    assert(rest.take(code.len() as int) =~= code);
    assert(crate::text::parse_unsigned(code, u32::MAX as nat) == Some(digits_value(code)));
    let definition = rest.skip(code.len() as int);
    assert(definition =~= name + (","@ + parameters));
    lemma_first_index_concat(name, ","@ + parameters, ',');
    assert(definition.take(name.len() as int) =~= name);
    assert(definition.skip(name.len() as int + 1) =~= parameters);
}

/// The coordinates of a drawing step come from the command's own fields, read with the
/// coordinate format in force after the command: `X` and `I` with the `X` digit counts, `Y`
/// and `J` with the `Y` digit counts. An absent field gives no value.
pub proof fn lemma_coordinates_from_fields(m: GerberModel, command: Seq<char>)
    ensures
        ({
            let (mf, steps) = spec_process(m, command);
            let fields = spec_fields(token_of(command));
            let f = mf.format;
            forall|i: int|
                0 <= i < steps.len() ==> match #[trigger] steps[i] {
                    ActionModel::Operate { x, y, op, .. } => {
                        &&& x == field_number(
                            fields,
                            'X',
                            f.x_integer,
                            f.x_decimal,
                            f.trailing_zero_omission,
                        )
                        &&& y == field_number(
                            fields,
                            'Y',
                            f.y_integer,
                            f.y_decimal,
                            f.trailing_zero_omission,
                        )
                        &&& op matches OperationModel::Arc { i: ci, j: cj, .. } ==> ci
                            == field_number(
                            fields,
                            'I',
                            f.x_integer,
                            f.x_decimal,
                            f.trailing_zero_omission,
                        ) && cj == field_number(
                            fields,
                            'J',
                            f.y_integer,
                            f.y_decimal,
                            f.trailing_zero_omission,
                        )
                    },
                    _ => true,
                }
        }),
{
    lemma_operate_step(m, command);
}
/// The one drawing step that a command can give is the one its `D` code and coordinates ask
/// for in the state after the command.
proof fn lemma_operate_step(m: GerberModel, command: Seq<char>)
    ensures
        ({
            let (s, steps) = spec_process(m, command);
            let fields = spec_fields(token_of(command));
            forall|i: int|
                0 <= i < steps.len() && #[trigger] steps[i] is Operate ==> steps[i]
                    == ActionModel::Operate {
                    x: field_number(
                        fields,
                        'X',
                        s.format.x_integer,
                        s.format.x_decimal,
                        s.format.trailing_zero_omission,
                    ),
                    y: field_number(
                        fields,
                        'Y',
                        s.format.y_integer,
                        s.format.y_decimal,
                        s.format.trailing_zero_omission,
                    ),
                    units: s.units,
                    incremental: s.format.incremental,
                    op: crate::gerber_machine::spec_operation(s, fields),
                }
        }),
{
    let (mf, af) = spec_process(m, command);
    let token = token_of(command);
    if !(m.active_macro is Some && crate::gerber::spec_is_macro_primitive(token)) {
        let (m1, a1) = finish_macro(m);
        let (m2, a2) = spec_command(m1, token);
        assert(af == a1 + a2);
        if !(crate::text::starts_with(token, "AM"@) || crate::gerber_machine::is_skipped(token)
            || crate::text::starts_with(token, "FS"@) || token == "MOMM"@ || token == "MOIN"@
            || crate::text::starts_with(token, "ADD"@) || token == "LPD"@ || token == "LPC"@) {
            let fields = spec_fields(token);
            lemma_gs_steps(m1, values_named(fields, 'G'));
            let (g1, ga, close) = apply_gs(m1, values_named(fields, 'G'));
            let (g2, gb) = if close {
                finish_region(g1)
            } else {
                (g1, Seq::empty())
            };
            let (g3, gc) = spec_d_and_move(g2, fields);
            assert(g3 == mf && a2 == ga + gb + gc);
            assert forall|i: int| 0 <= i < af.len() && #[trigger] af[i] is Operate implies af[i]
                == gc[0] by {
                let k = i - a1.len();
                if i < a1.len() {
                    assert(af[i] == a1[i]);
                } else if k < ga.len() {
                    assert(af[i] == ga[k]);
                } else if k < ga.len() + gb.len() {
                    assert(af[i] == gb[k - ga.len()]);
                } else {
                    assert(af[i] == gc[k - ga.len() - gb.len()]);
                }
            }
        } else {
            assert forall|i: int| 0 <= i < af.len() implies !(#[trigger] af[i] is Operate) by {
                if i < a1.len() {
                    assert(af[i] == a1[i]);
                } else {
                    assert(af[i] == a2[i - a1.len()]);
                }
            }
        }
    }
}

/// A format command `FS<zeros><mode>X<i><d>Y<i><d>` sets the digit counts it names: trailing
/// zeros count as omitted exactly for `T`, coordinates are incremental exactly for `I`.
pub proof fn lemma_format_command(
    m: GerberModel,
    command: Seq<char>,
    zeros: char,
    mode: char,
    x: Seq<char>,
    y: Seq<char>,
)
    requires
        zeros == 'L' || zeros == 'T',
        mode == 'A' || mode == 'I',
        x.len() == 2 && is_digit(x[0]) && is_digit(x[1]),
        y.len() == 2 && is_digit(y[0]) && is_digit(y[1]),
        token_of(command) == "FS"@ + seq![zeros, mode] + "X"@ + x + "Y"@ + y,
    ensures
        spec_process(m, command).0.format.x_integer == x[0] as int - 48,
        spec_process(m, command).0.format.x_decimal == x[1] as int - 48,
        spec_process(m, command).0.format.y_integer == y[0] as int - 48,
        spec_process(m, command).0.format.y_decimal == y[1] as int - 48,
        spec_process(m, command).0.format.trailing_zero_omission == (zeros == 'T'),
        spec_process(m, command).0.format.incremental == (mode == 'I'),
        spec_process(m, command).0.units == m.units,
        spec_process(m, command).1 == finish_macro(m).1,
{
    reveal_strlit("FS");
    reveal_strlit("X");
    reveal_strlit("Y");
    reveal_strlit("AM");
    reveal_strlit("G04");
    reveal_strlit("TF");
    reveal_strlit("TA");
    reveal_strlit("TD");
    let t = token_of(command);
    let head = "FS"@ + seq![zeros, mode];
    assert(t.len() == 10);
    assert(t[0] == 'F' && t[1] == 'S' && t[2] == zeros && t[3] == mode && t[4] == 'X');
    assert(t[5] == x[0] && t[6] == x[1] && t[7] == 'Y' && t[8] == y[0] && t[9] == y[1]);
    assert(!crate::gerber::spec_is_macro_primitive(t));
    assert(!crate::text::starts_with(t, "AM"@)) by {
        assert(t.take(2)[0] != "AM"@[0]);
    }
    assert(!crate::gerber_machine::is_skipped(t)) by {
        assert(t.take(3)[0] != "G04"@[0]);
        assert(t.take(2)[0] != "TF"@[0]);
        assert(t.take(2)[0] != "TA"@[0]);
        assert(t.take(2)[0] != "TD"@[0]);
    }
    assert(crate::text::starts_with(t, "FS"@)) by {
        assert(t.take(2) =~= "FS"@);
    }
    assert(!head.contains('X')) by {
        if head.contains('X') {
            let i = choose|i: int| 0 <= i < head.len() && head[i] == 'X';
            assert(head[i] == t[i]);
        }
    }
    assert(t =~= head + (seq!['X'] + x + "Y"@ + y));
    lemma_first_index_concat(head, seq!['X'] + x + "Y"@ + y, 'X');
    let head2 = head + seq!['X'] + x;
    assert(!head2.contains('Y')) by {
        if head2.contains('Y') {
            let i = choose|i: int| 0 <= i < head2.len() && head2[i] == 'Y';
            assert(head2[i] == t[i]);
        }
    }
    assert(t =~= head2 + (seq!['Y'] + y));
    lemma_first_index_concat(head2, seq!['Y'] + y, 'Y');
}

/// A definition `ADD<code><shape>` with no parameters has the single parameter `0.1`.
pub proof fn lemma_aperture_default_parameter(m: GerberModel, code: Seq<char>, name: Seq<char>)
    requires
        code.len() > 0,
        all_digits(code),
        digits_value(code) <= u32::MAX,
        name.len() > 0,
        !is_digit(name[0]),
        !name.contains(','),
        !m.macro_names.contains(name),
    ensures
        spec_aperture(m, "ADD"@ + code + name).1.len() == 1,
        spec_aperture(m, "ADD"@ + code + name).1[0] matches ActionModel::DefineAperture {
            parameters,
            ..
        } && parameters == seq!["0.1"@],
{
    reveal_strlit("ADD");
    reveal_strlit("0.1");
    let token = "ADD"@ + code + name;
    let rest = token.skip(3);
    assert(rest =~= code + name);
    lemma_leading_digits_concat(code, name);
    assert(rest.take(code.len() as int) =~= code);
    assert(crate::text::parse_unsigned(code, u32::MAX as nat) == Some(digits_value(code)));
    let definition = rest.skip(code.len() as int);
    assert(definition =~= name);
    assert(first_index(name, ',') is None) by {
        lemma_first_index_none(name, ',');
    }
    let d = "0.1"@;
    reveal_with_fuel(split_where, 4);
    let sep = x_separator();
    assert(!sep(d[0]) && !sep(d[1]) && !sep(d[2]));
    assert(d.take(0) =~= Seq::<char>::empty());
    assert(split_where(d.take(0), sep) =~= seq![d.take(0)]);
    assert(d.take(1).drop_last() =~= d.take(0));
    assert(d.take(1).last() == d[0]);
    assert(d.take(0).push(d[0]) =~= d.take(1));
    assert(split_where(d.take(1), sep) =~= seq![d.take(1)]);
    assert(d.take(2).drop_last() =~= d.take(1));
    assert(d.take(2).last() == d[1]);
    assert(d.take(1).push(d[1]) =~= d.take(2));
    assert(split_where(d.take(2), sep) =~= seq![d.take(2)]);
    assert(d.take(3).drop_last() =~= d.take(2));
    assert(d.take(3).last() == d[2]);
    assert(d.take(2).push(d[2]) =~= d.take(3));
    assert(d.take(3) =~= d);
    assert(split_where(d, sep) =~= seq![d]);
}

proof fn lemma_first_index_none(a: Seq<char>, c: char)
    requires
        !a.contains(c),
    ensures
        first_index(a, c) is None,
    decreases a.len(),
{
    if a.len() > 0 {
        assert(a[0] != c);
        assert(!a.drop_first().contains(c)) by {
            if a.drop_first().contains(c) {
                let i = choose|i: int| 0 <= i < a.drop_first().len() && a.drop_first()[i] == c;
                assert(a[i + 1] == c);
            }
        }
        lemma_first_index_none(a.drop_first(), c);
    }
}

/// What a drawing step does follows the operation code and the modes in force after the
/// command: `D03` flashes the current aperture under dark polarity; inside a region `D01`
/// adds an outline point and `D02` restarts the outline; outside a region `D02` only moves and
/// `D01` draws a track with the current aperture under dark polarity, and nothing under clear
/// polarity.
pub proof fn lemma_operation_follows_state(m: GerberModel, command: Seq<char>)
    ensures
        ({
            let (s, steps) = spec_process(m, command);
            forall|i: int|
                0 <= i < steps.len() ==> match #[trigger] steps[i] {
                    ActionModel::Operate { op, .. } => {
                        &&& s.operation == 3 && s.dark_polarity ==> op == OperationModel::Flash {
                            aperture: s.current_aperture,
                        }
                        &&& s.operation == 3 && !s.dark_polarity ==> op == OperationModel::Move
                        &&& s.operation == 1 && s.region_active ==> op
                            == OperationModel::RegionVertex
                        &&& s.operation == 2 && s.region_active ==> op
                            == OperationModel::RegionMoveTo
                        &&& s.operation == 2 && !s.region_active ==> op == OperationModel::Move
                        &&& s.operation == 1 && !s.region_active && !s.dark_polarity ==> op
                            == OperationModel::Move
                        &&& s.operation == 1 && !s.region_active && s.dark_polarity ==> (
                        op matches OperationModel::Line { aperture } && aperture
                            == s.current_aperture) || (op matches OperationModel::Arc {
                            aperture,
                            ..
                        } && aperture == s.current_aperture)
                    },
                    _ => true,
                }
        }),
{
    lemma_operate_step(m, command);
}

/// A command that starts with a `D` code or a coordinate sets what its last `D` code names:
/// `D01` to `D09` the operation, `D10` and above the current aperture; without a `D` code both
/// stay as they were.
pub proof fn lemma_d_codes(m: GerberModel, command: Seq<char>)
    requires
        token_of(command).len() > 0,
        token_of(command)[0] == 'D' || token_of(command)[0] == 'X' || token_of(command)[0] == 'Y'
            || token_of(command)[0] == 'I' || token_of(command)[0] == 'J',
    ensures
        ({
            let s = spec_process(m, command).0;
            let d = crate::gerber::spec_last_field(spec_fields(token_of(command)), 'D');
            let code = match d {
                Some(v) => crate::text::parse_unsigned(v, u32::MAX as nat),
                None => None,
            };
            &&& code is Some && 1 <= code.unwrap() <= 9 ==> s.operation == code.unwrap()
                && s.current_aperture == m.current_aperture
            &&& code is Some && code.unwrap() >= 10 ==> s.current_aperture == Some(
                code.unwrap() as u32,
            ) && s.operation == m.operation
            &&& d is None ==> s.operation == m.operation && s.current_aperture
                == m.current_aperture
        }),
{
    reveal_strlit("AM");
    reveal_strlit("G04");
    reveal_strlit("TF");
    reveal_strlit("TA");
    reveal_strlit("TD");
    reveal_strlit("FS");
    reveal_strlit("MOMM");
    reveal_strlit("MOIN");
    reveal_strlit("ADD");
    reveal_strlit("LPD");
    reveal_strlit("LPC");
    let t = token_of(command);
    assert(!crate::gerber::spec_is_macro_primitive(t));
    assert(!crate::text::starts_with(t, "AM"@)) by {
        if crate::text::starts_with(t, "AM"@) {
            assert(t.take(2)[0] == t[0]);
        }
    }
    assert(!crate::gerber_machine::is_skipped(t)) by {
        if crate::text::starts_with(t, "G04"@) {
            assert(t.take(3)[0] == t[0]);
        }
        if crate::text::starts_with(t, "TF"@) || crate::text::starts_with(t, "TA"@)
            || crate::text::starts_with(t, "TD"@) {
            assert(t.take(2)[0] == t[0]);
        }
    }
    assert(!crate::text::starts_with(t, "FS"@)) by {
        if crate::text::starts_with(t, "FS"@) {
            assert(t.take(2)[0] == t[0]);
        }
    }
    assert(!crate::text::starts_with(t, "ADD"@)) by {
        if crate::text::starts_with(t, "ADD"@) {
            assert(t.take(3)[0] == t[0]);
        }
    }
    assert(t != "MOMM"@ && t != "MOIN"@ && t != "LPD"@ && t != "LPC"@) by {
        assert(t[0] != "MOMM"@[0] && t[0] != "LPD"@[0]);
    }
    let m1 = finish_macro(m).0;
    let fields = spec_fields(t);
    lemma_gs_keep_codes(m1, values_named(fields, 'G'));
}

/// `G` codes change neither the operation nor the current aperture.
proof fn lemma_gs_keep_codes(m: GerberModel, values: Seq<Seq<char>>)
    ensures
        apply_gs(m, values).0.operation == m.operation,
        apply_gs(m, values).0.current_aperture == m.current_aperture,
    decreases values.len(),
{
    if values.len() > 0 {
        lemma_gs_keep_codes(m, values.drop_last());
    }
}

} // verus!
