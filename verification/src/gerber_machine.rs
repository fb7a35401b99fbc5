//! The decisions of the Gerber interpreter: which graphics state each command sets, and which
//! drawing steps it asks for. Geometry in millimetres is left to the caller, which applies the
//! steps in order; every step carries the numbers and modes that it needs.
use vstd::prelude::*;
use crate::gerber::{
    field_values, fields_view, format_pair, is_macro_primitive, last_field, spec_fields,
    spec_format_pair, spec_is_macro_primitive, spec_last_field, strings_view, strs_view,
    values_named,
};
use crate::number::{NumberModel, ParsedNumber, Units};
use crate::text::{
    chars_of, contains, contains_vec, count_leading_digits, equals_str, find_char, first_index,
    is_digit, leading_digits, parse_unsigned, parse_unsigned_in, slice_vec, split_where,
    starts_with, starts_with_vec, string_from, to_upper, trim, trim_bounds, trimmed, upper_vec,
};

verus! {

#[derive(Debug, Clone, Copy, PartialEq, Eq, Structural)]
pub enum Interpolation {
    Linear,
    Clockwise,
    CounterClockwise,
}

#[derive(Debug, Clone, Copy, PartialEq, Eq, Structural)]
pub enum ShapeKind {
    Circle,
    Rectangle,
    Obround,
    Polygon,
}

/// How coordinates are written: digit counts before and after the implied decimal point,
/// whether leading zeros (rather than trailing ones) are kept, and absolute or incremental mode.
#[derive(Debug, Clone, Copy, PartialEq, Eq, Structural)]
pub struct CoordinateFormat {
    pub x_integer: usize,
    pub x_decimal: usize,
    pub y_integer: usize,
    pub y_decimal: usize,
    pub trailing_zero_omission: bool,
    pub incremental: bool,
}

impl CoordinateFormat {
    pub open spec fn spec_default() -> CoordinateFormat {
        CoordinateFormat {
            x_integer: 2,
            x_decimal: 4,
            y_integer: 2,
            y_decimal: 4,
            trailing_zero_omission: false,
            incremental: false,
        }
    }

    /// The format in force before any `FS` command: 2.4 digits, leading zeros, absolute.
    pub fn default() -> (r: CoordinateFormat)
        ensures
            r == CoordinateFormat::spec_default(),
    {
        CoordinateFormat {
            x_integer: 2,
            x_decimal: 4,
            y_integer: 2,
            y_decimal: 4,
            trailing_zero_omission: false,
            incremental: false,
        }
    }
}

/// What a drawing command does at its target point.
#[derive(Debug, PartialEq)]
pub enum Operation {
    /// The current point moves; nothing is drawn.
    Move,
    /// The target point extends the open region outline, unless it repeats the last point.
    RegionVertex,
    /// The open region outline restarts at the target point.
    RegionMoveTo,
    /// A straight track from the current point, as wide as the aperture.
    Line { aperture: Option<u32> },
    /// A circular track from the current point; the centre lies at offset `(i, j)` from it.
    Arc { aperture: Option<u32>, clockwise: bool, i: Option<ParsedNumber>, j: Option<ParsedNumber> },
    /// The aperture is flashed at the target point.
    Flash { aperture: Option<u32> },
}

/// One step that the caller applies to the geometry, in order.
#[derive(Debug, PartialEq)]
pub enum GerberAction {
    /// An aperture macro definition opens.
    BeginMacro { name: String },
    /// One primitive line of the open macro: its trimmed comma-separated parameters.
    MacroPrimitive { parameters: Vec<String> },
    /// The open macro closes; its extent is scaled by `units`.
    FinishMacro { units: Units },
    /// A standard aperture: `parameters` are the `X`-separated texts after the shape letter.
    DefineAperture { code: u32, shape: ShapeKind, parameters: Vec<String>, units: Units },
    /// An aperture that takes the shape of the macro `name`.
    UseMacroAperture { code: u32, name: String },
    /// A region outline opens at the current point.
    BeginRegion,
    /// The open region outline closes; it is kept as a filled region when `keep` holds and it
    /// has at least three points.
    FinishRegion { keep: bool },
    /// The target point is `(x, y)` in the units given, each absent coordinate keeping the
    /// current one; with `incremental` the values are offsets from the current point.
    Operate {
        x: Option<ParsedNumber>,
        y: Option<ParsedNumber>,
        units: Units,
        incremental: bool,
        op: Operation,
    },
}

pub enum OperationModel {
    Move,
    RegionVertex,
    RegionMoveTo,
    Line { aperture: Option<u32> },
    Arc { aperture: Option<u32>, clockwise: bool, i: Option<NumberModel>, j: Option<NumberModel> },
    Flash { aperture: Option<u32> },
}

pub enum ActionModel {
    BeginMacro { name: Seq<char> },
    MacroPrimitive { parameters: Seq<Seq<char>> },
    FinishMacro { units: Units },
    DefineAperture { code: u32, shape: ShapeKind, parameters: Seq<Seq<char>>, units: Units },
    UseMacroAperture { code: u32, name: Seq<char> },
    BeginRegion,
    FinishRegion { keep: bool },
    Operate {
        x: Option<NumberModel>,
        y: Option<NumberModel>,
        units: Units,
        incremental: bool,
        op: OperationModel,
    },
}

pub open spec fn number_view(n: Option<ParsedNumber>) -> Option<NumberModel> {
    match n {
        Some(v) => Some(v@),
        None => None,
    }
}

impl View for Operation {
    type V = OperationModel;

    open spec fn view(&self) -> OperationModel {
        match self {
            Operation::Move => OperationModel::Move,
            Operation::RegionVertex => OperationModel::RegionVertex,
            Operation::RegionMoveTo => OperationModel::RegionMoveTo,
            Operation::Line { aperture } => OperationModel::Line { aperture: *aperture },
            Operation::Arc { aperture, clockwise, i, j } => OperationModel::Arc {
                aperture: *aperture,
                clockwise: *clockwise,
                i: number_view(*i),
                j: number_view(*j),
            },
            Operation::Flash { aperture } => OperationModel::Flash { aperture: *aperture },
        }
    }
}

impl View for GerberAction {
    type V = ActionModel;

    open spec fn view(&self) -> ActionModel {
        match self {
            GerberAction::BeginMacro { name } => ActionModel::BeginMacro { name: name@ },
            GerberAction::MacroPrimitive { parameters } => ActionModel::MacroPrimitive {
                parameters: strings_view(parameters@),
            },
            GerberAction::FinishMacro { units } => ActionModel::FinishMacro { units: *units },
            GerberAction::DefineAperture { code, shape, parameters, units } =>
                ActionModel::DefineAperture {
                code: *code,
                shape: *shape,
                parameters: strings_view(parameters@),
                units: *units,
            },
            GerberAction::UseMacroAperture { code, name } => ActionModel::UseMacroAperture {
                code: *code,
                name: name@,
            },
            GerberAction::BeginRegion => ActionModel::BeginRegion,
            GerberAction::FinishRegion { keep } => ActionModel::FinishRegion { keep: *keep },
            GerberAction::Operate { x, y, units, incremental, op } => ActionModel::Operate {
                x: number_view(*x),
                y: number_view(*y),
                units: *units,
                incremental: *incremental,
                op: op@,
            },
        }
    }
}

pub open spec fn actions_view(v: Seq<GerberAction>) -> Seq<ActionModel> {
    v.map_values(|a: GerberAction| a@)
}

/// The interpreter's graphics state, without coordinates.
pub struct GerberState {
    pub format: CoordinateFormat,
    pub units: Units,
    pub macro_names: Vec<String>,
    pub active_macro: Option<String>,
    pub current_aperture: Option<u32>,
    pub operation: u32,
    pub interpolation: Interpolation,
    pub region_active: bool,
    pub dark_polarity: bool,
    pub warnings: Vec<String>,
}

#[verifier::ext_equal]
pub struct GerberModel {
    pub format: CoordinateFormat,
    pub units: Units,
    pub macro_names: Seq<Seq<char>>,
    pub active_macro: Option<Seq<char>>,
    pub current_aperture: Option<u32>,
    pub operation: u32,
    pub interpolation: Interpolation,
    pub region_active: bool,
    pub dark_polarity: bool,
    pub warnings: Seq<Seq<char>>,
}

impl View for GerberState {
    type V = GerberModel;

    open spec fn view(&self) -> GerberModel {
        GerberModel {
            format: self.format,
            units: self.units,
            macro_names: strings_view(self.macro_names@),
            active_macro: match self.active_macro {
                Some(n) => Some(n@),
                None => None,
            },
            current_aperture: self.current_aperture,
            operation: self.operation,
            interpolation: self.interpolation,
            region_active: self.region_active,
            dark_polarity: self.dark_polarity,
            warnings: strings_view(self.warnings@),
        }
    }
}

/// The state before the first command: inch units, the default format, no aperture,
/// move operation, linear interpolation, no region, dark polarity.
pub open spec fn initial_model() -> GerberModel {
    GerberModel {
        format: CoordinateFormat::spec_default(),
        units: Units::Inch,
        macro_names: Seq::empty(),
        active_macro: None,
        current_aperture: None,
        operation: 2,
        interpolation: Interpolation::Linear,
        region_active: false,
        dark_polarity: true,
        warnings: Seq::empty(),
    }
}

pub open spec fn macros_key() -> Seq<char> {
    "aperture macros"@
}

pub open spec fn macros_message() -> Seq<char> {
    "Gerber aperture macros are approximated from their primitive bounds."@
}

pub open spec fn clear_key() -> Seq<char> {
    "clear polarity"@
}

pub open spec fn clear_message() -> Seq<char> {
    "Gerber clear polarity is currently omitted from the SVG preview."@
}

pub open spec fn macro_aperture_key() -> Seq<char> {
    "macro aperture"@
}

pub open spec fn macro_aperture_message() -> Seq<char> {
    "A macro aperture was approximated as a circle."@
}

/// A warning is added unless one that mentions `key` is already there.
pub open spec fn warn_once(m: GerberModel, key: Seq<char>, message: Seq<char>) -> GerberModel {
    if exists|i: int| 0 <= i < m.warnings.len() && contains(#[trigger] m.warnings[i], key) {
        m
    } else {
        GerberModel { warnings: m.warnings.push(message), ..m }
    }
}

pub open spec fn finish_macro(m: GerberModel) -> (GerberModel, Seq<ActionModel>) {
    match m.active_macro {
        Some(name) => (
            GerberModel { macro_names: m.macro_names.push(name), active_macro: None, ..m },
            seq![ActionModel::FinishMacro { units: m.units }],
        ),
        None => (m, Seq::empty()),
    }
}

pub open spec fn finish_region(m: GerberModel) -> (GerberModel, Seq<ActionModel>) {
    if m.region_active {
        (
            GerberModel { region_active: false, ..m },
            seq![ActionModel::FinishRegion { keep: m.dark_polarity }],
        )
    } else {
        (m, Seq::empty())
    }
}

/// The format after an `FS` command: `T` at index 2 selects trailing-zero omission, `I` at
/// index 3 incremental coordinates, and the digit pairs after `X` and `Y` set the digit counts.
pub open spec fn spec_parse_format(f: CoordinateFormat, token: Seq<char>) -> CoordinateFormat {
    let f1 = CoordinateFormat {
        trailing_zero_omission: token.len() > 2 && token[2] == 'T',
        incremental: token.len() > 3 && (token[2] as u32) < 128 && token[3] == 'I',
        ..f
    };
    let f2 = match spec_format_pair(token, 'X') {
        Some((i, d)) => CoordinateFormat { x_integer: i, x_decimal: d, ..f1 },
        None => f1,
    };
    match spec_format_pair(token, 'Y') {
        Some((i, d)) => CoordinateFormat { y_integer: i, y_decimal: d, ..f2 },
        None => f2,
    }
}

/// A separator that is either `a` or `b`.
pub open spec fn either(a: char, b: char) -> spec_fn(char) -> bool {
    |c: char| c == a || c == b
}

pub open spec fn x_separator() -> spec_fn(char) -> bool {
    either('X', 'x')
}

/// The trimmed comma-separated parameters of a macro primitive line.
pub open spec fn macro_parameters(token: Seq<char>) -> Seq<Seq<char>> {
    split_where(token, either(',', ',')).map_values(|p: Seq<char>| trim(p))
}

pub open spec fn shape_of(name: Seq<char>) -> Option<ShapeKind> {
    let c = if name.len() > 0 {
        name[0]
    } else {
        'C'
    };
    if c == 'C' {
        Some(ShapeKind::Circle)
    } else if c == 'R' {
        Some(ShapeKind::Rectangle)
    } else if c == 'O' {
        Some(ShapeKind::Obround)
    } else if c == 'P' {
        Some(ShapeKind::Polygon)
    } else {
        None
    }
}

/// An `ADD` aperture definition: the code is the run of digits after `ADD`; the shape name runs
/// to the first comma, the parameters follow it (`0.1` when there is none). A shape name that
/// names a macro takes the macro's shape; an unknown shape letter is drawn as a circle, with a
/// warning.
pub open spec fn spec_aperture(m: GerberModel, token: Seq<char>) -> (GerberModel, Seq<ActionModel>) {
    let rest = token.skip(3);
    let n = leading_digits(rest) as int;
    match parse_unsigned(rest.take(n), u32::MAX as nat) {
        None => (m, Seq::empty()),
        Some(code) => {
            let definition = rest.skip(n);
            let (shape_name, parameters) = match first_index(definition, ',') {
                Some(k) => (definition.take(k), definition.skip(k + 1)),
                None => (definition, "0.1"@),
            };
            if m.macro_names.contains(shape_name) {
                (m, seq![ActionModel::UseMacroAperture { code: code as u32, name: shape_name }])
            } else {
                let params = split_where(parameters, x_separator());
                match shape_of(shape_name) {
                    Some(shape) => (
                        m,
                        seq![
                            ActionModel::DefineAperture {
                                code: code as u32,
                                shape: shape,
                                parameters: params,
                                units: m.units,
                            },
                        ],
                    ),
                    None => (
                        warn_once(m, macro_aperture_key(), macro_aperture_message()),
                        seq![
                            ActionModel::DefineAperture {
                                code: code as u32,
                                shape: ShapeKind::Circle,
                                parameters: params,
                                units: m.units,
                            },
                        ],
                    ),
                }
            }
        },
    }
}

/// A `G` code value, `0` where it does not parse.
pub open spec fn g_code(value: Seq<char>) -> nat {
    match parse_unsigned(value, u32::MAX as nat) {
        Some(v) => v,
        None => 0,
    }
}

/// The effect of one `G` code; the flag says whether it closes the region (`G37`).
pub open spec fn apply_g(m: GerberModel, code: nat) -> (GerberModel, Seq<ActionModel>, bool) {
    if code == 1 {
        (GerberModel { interpolation: Interpolation::Linear, ..m }, Seq::empty(), false)
    } else if code == 2 {
        (GerberModel { interpolation: Interpolation::Clockwise, ..m }, Seq::empty(), false)
    } else if code == 3 {
        (GerberModel { interpolation: Interpolation::CounterClockwise, ..m }, Seq::empty(), false)
    } else if code == 36 {
        (GerberModel { region_active: true, ..m }, seq![ActionModel::BeginRegion], false)
    } else if code == 37 {
        (m, Seq::empty(), true)
    } else if code == 70 {
        (GerberModel { units: Units::Inch, ..m }, Seq::empty(), false)
    } else if code == 71 {
        (GerberModel { units: Units::Millimeter, ..m }, Seq::empty(), false)
    } else if code == 90 {
        (
            GerberModel { format: CoordinateFormat { incremental: false, ..m.format }, ..m },
            Seq::empty(),
            false,
        )
    } else if code == 91 {
        (
            GerberModel { format: CoordinateFormat { incremental: true, ..m.format }, ..m },
            Seq::empty(),
            false,
        )
    } else {
        (m, Seq::empty(), false)
    }
}

/// The `G` codes of one command, in order.
pub open spec fn apply_gs(m: GerberModel, values: Seq<Seq<char>>) -> (
    GerberModel,
    Seq<ActionModel>,
    bool,
)
    decreases values.len(),
{
    if values.len() == 0 {
        (m, Seq::empty(), false)
    } else {
        let (m0, a0, c0) = apply_gs(m, values.drop_last());
        let (m1, a1, c1) = apply_g(m0, g_code(values.last()));
        (m1, a0 + a1, c0 || c1)
    }
}

pub open spec fn field_number(
    fields: Seq<(char, Seq<char>)>,
    letter: char,
    integer: usize,
    decimal: usize,
    trailing: bool,
) -> Option<NumberModel> {
    match spec_last_field(fields, letter) {
        Some(v) => Some(crate::gerber::spec_parse_number(v, integer, decimal, trailing)),
        None => None,
    }
}

/// What the current operation code does with the target point.
pub open spec fn spec_operation(m: GerberModel, fields: Seq<(char, Seq<char>)>) -> OperationModel {
    if m.operation == 1 {
        if m.region_active {
            OperationModel::RegionVertex
        } else if !m.dark_polarity {
            OperationModel::Move
        } else if m.interpolation == Interpolation::Linear {
            OperationModel::Line { aperture: m.current_aperture }
        } else {
            OperationModel::Arc {
                aperture: m.current_aperture,
                clockwise: m.interpolation == Interpolation::Clockwise,
                i: field_number(
                    fields,
                    'I',
                    m.format.x_integer,
                    m.format.x_decimal,
                    m.format.trailing_zero_omission,
                ),
                j: field_number(
                    fields,
                    'J',
                    m.format.y_integer,
                    m.format.y_decimal,
                    m.format.trailing_zero_omission,
                ),
            }
        }
    } else if m.operation == 2 {
        if m.region_active {
            OperationModel::RegionMoveTo
        } else {
            OperationModel::Move
        }
    } else if m.operation == 3 {
        if m.dark_polarity {
            OperationModel::Flash { aperture: m.current_aperture }
        } else {
            OperationModel::Move
        }
    } else {
        OperationModel::Move
    }
}

/// The `D` code of a command, then its coordinates: `D10` and above select an aperture,
/// `D01` to `D09` set the operation; a command with coordinates, or with a `D` code and no
/// coordinates, performs the operation.
pub open spec fn spec_d_and_move(m: GerberModel, fields: Seq<(char, Seq<char>)>) -> (
    GerberModel,
    Seq<ActionModel>,
) {
    let d = match spec_last_field(fields, 'D') {
        Some(v) => parse_unsigned(v, u32::MAX as nat),
        None => None,
    };
    let has_x = spec_last_field(fields, 'X') is Some;
    let has_y = spec_last_field(fields, 'Y') is Some;
    let m1 = match d {
        Some(code) => if code >= 10 {
            GerberModel { current_aperture: Some(code as u32), ..m }
        } else if code > 0 {
            GerberModel { operation: code as u32, ..m }
        } else {
            m
        },
        None => m,
    };
    let selects_only = match d {
        Some(code) => code >= 10 && !has_x && !has_y,
        None => !has_x && !has_y,
    };
    if selects_only {
        (m1, Seq::empty())
    } else {
        (
            m1,
            seq![
                ActionModel::Operate {
                    x: field_number(
                        fields,
                        'X',
                        m1.format.x_integer,
                        m1.format.x_decimal,
                        m1.format.trailing_zero_omission,
                    ),
                    y: field_number(
                        fields,
                        'Y',
                        m1.format.y_integer,
                        m1.format.y_decimal,
                        m1.format.trailing_zero_omission,
                    ),
                    units: m1.units,
                    incremental: m1.format.incremental,
                    op: spec_operation(m1, fields),
                },
            ],
        )
    }
}

/// A command that is not a parameter command: its `G` codes, a region close, then the `D` code
/// and coordinates.
pub open spec fn spec_operate(m: GerberModel, token: Seq<char>) -> (GerberModel, Seq<ActionModel>) {
    let fields = spec_fields(token);
    let (m1, a1, close) = apply_gs(m, values_named(fields, 'G'));
    let (m2, a2) = if close {
        finish_region(m1)
    } else {
        (m1, Seq::empty())
    };
    let (m3, a3) = spec_d_and_move(m2, fields);
    (m3, a1 + a2 + a3)
}

pub open spec fn is_skipped(token: Seq<char>) -> bool {
    token.len() == 0 || starts_with(token, "G04"@) || starts_with(token, "TF"@) || starts_with(
        token,
        "TA"@,
    ) || starts_with(token, "TD"@)
}

/// One upper-cased command, once no macro body is open.
pub open spec fn spec_command(m: GerberModel, token: Seq<char>) -> (GerberModel, Seq<ActionModel>) {
    if starts_with(token, "AM"@) {
        let name = token.skip(2);
        (
            warn_once(
                GerberModel { active_macro: Some(name), ..m },
                macros_key(),
                macros_message(),
            ),
            seq![ActionModel::BeginMacro { name: name }],
        )
    } else if is_skipped(token) {
        (m, Seq::empty())
    } else if starts_with(token, "FS"@) {
        (GerberModel { format: spec_parse_format(m.format, token), ..m }, Seq::empty())
    } else if token == "MOMM"@ {
        (GerberModel { units: Units::Millimeter, ..m }, Seq::empty())
    } else if token == "MOIN"@ {
        (GerberModel { units: Units::Inch, ..m }, Seq::empty())
    } else if starts_with(token, "ADD"@) {
        spec_aperture(m, token)
    } else if token == "LPD"@ {
        (GerberModel { dark_polarity: true, ..m }, Seq::empty())
    } else if token == "LPC"@ {
        (warn_once(GerberModel { dark_polarity: false, ..m }, clear_key(), clear_message()), Seq::empty())
    } else {
        spec_operate(m, token)
    }
}

/// One command: trimmed and upper-cased; while a macro body is open, a primitive line joins it
/// (a `$` variable line is passed over) and any other command closes it first.
pub open spec fn spec_process(m: GerberModel, command: Seq<char>) -> (GerberModel, Seq<ActionModel>) {
    let token = to_upper(trim(command));
    if m.active_macro is Some && spec_is_macro_primitive(token) {
        if token[0] == '$' {
            (m, Seq::empty())
        } else {
            (m, seq![ActionModel::MacroPrimitive { parameters: macro_parameters(token) }])
        }
    } else {
        let (m1, a1) = finish_macro(m);
        let (m2, a2) = spec_command(m1, token);
        (m2, a1 + a2)
    }
}

/// The commands in order.
pub open spec fn spec_run(m: GerberModel, commands: Seq<Seq<char>>) -> (GerberModel, Seq<ActionModel>)
    decreases commands.len(),
{
    if commands.len() == 0 {
        (m, Seq::empty())
    } else {
        let (m0, a0) = spec_run(m, commands.drop_last());
        let (m1, a1) = spec_process(m0, commands.last());
        (m1, a0 + a1)
    }
}

/// A whole file: its commands from the initial state, then the open macro and the open region
/// are closed.
pub open spec fn spec_plan(source: Seq<char>) -> (GerberModel, Seq<ActionModel>) {
    let (m0, a0) = spec_run(initial_model(), crate::gerber::spec_commands(source));
    let (m1, a1) = finish_macro(m0);
    let (m2, a2) = finish_region(m1);
    (m2, a0 + a1 + a2)
}

/// Whether any of `warnings` mentions `key`.
fn mentions(warnings: &Vec<String>, key: &str) -> (r: bool)
    ensures
        r == (exists|i: int|
            0 <= i < strings_view(warnings@).len() && contains(
                #[trigger] strings_view(warnings@)[i],
                key@,
            )),
{
    let mut i: usize = 0;
    while i < warnings.len()
        invariant
            i <= warnings.len(),
            forall|j: int| 0 <= j < i ==> !contains(#[trigger] strings_view(warnings@)[j], key@),
        decreases warnings.len() - i,
    {
        let w = chars_of(warnings[i].as_str());
        assert(w@ == strings_view(warnings@)[i as int]);
        if contains_vec(&w, key) {
            return true;
        }
        i = i + 1;
    }
    false
}

fn push_action(out: &mut Vec<GerberAction>, a: GerberAction)
    ensures
        actions_view(final(out)@) == actions_view(old(out)@).push(a@),
{
    out.push(a);
    assert(actions_view(out@) =~= actions_view(old(out)@).push(a@));
}

impl GerberState {
    /// The state before the first command.
    pub fn new() -> (r: GerberState)
        ensures
            r@ == initial_model(),
    {
        let r = GerberState {
            format: CoordinateFormat::default(),
            units: Units::Inch,
            macro_names: Vec::new(),
            active_macro: None,
            current_aperture: None,
            operation: 2,
            interpolation: Interpolation::Linear,
            region_active: false,
            dark_polarity: true,
            warnings: Vec::new(),
        };
        assert(r@ =~= initial_model());
        r
    }

    /// Adds `message` unless a warning that mentions `key` is already there.
    pub fn warn_once(&mut self, key: &str, message: &str)
        ensures
            final(self)@ == warn_once(old(self)@, key@, message@),
    {
        if !mentions(&self.warnings, key) {
            let ghost before = strings_view(self.warnings@);
            let m = String::from_str(message);
            self.warnings.push(m);
            assert(strings_view(self.warnings@) =~= before.push(message@));
        }
    }

    /// Closes the open macro, if any.
    pub fn finish_macro(&mut self, out: &mut Vec<GerberAction>)
        ensures
            final(self)@ == finish_macro(old(self)@).0,
            actions_view(final(out)@) == actions_view(old(out)@) + finish_macro(old(self)@).1,
    {
        let taken = self.active_macro.take();
        match taken {
            Some(name) => {
                let ghost before = strings_view(self.macro_names@);
                let ghost n = name@;
                self.macro_names.push(name);
                assert(strings_view(self.macro_names@) =~= before.push(n));
                push_action(out, GerberAction::FinishMacro { units: self.units });
                assert(actions_view(out@) =~= actions_view(old(out)@) + seq![
                    ActionModel::FinishMacro { units: self.units },
                ]);
            },
            None => {
                assert(actions_view(out@) =~= actions_view(old(out)@) + Seq::<ActionModel>::empty());
            },
        }
    }

    /// Closes the open region, if any.
    pub fn finish_region(&mut self, out: &mut Vec<GerberAction>)
        ensures
            final(self)@ == finish_region(old(self)@).0,
            actions_view(final(out)@) == actions_view(old(out)@) + finish_region(old(self)@).1,
    {
        if self.region_active {
            self.region_active = false;
            push_action(out, GerberAction::FinishRegion { keep: self.dark_polarity });
            assert(actions_view(out@) =~= actions_view(old(out)@) + seq![
                ActionModel::FinishRegion { keep: self.dark_polarity },
            ]);
        } else {
            assert(actions_view(out@) =~= actions_view(old(out)@) + Seq::<ActionModel>::empty());
        }
    }

    /// Applies an `FS` format command.
    pub fn parse_format(&mut self, token: &Vec<char>)
        requires
            starts_with(token@, "FS"@),
        ensures
            final(self)@ == (GerberModel {
                format: spec_parse_format(old(self)@.format, token@),
                ..old(self)@
            }),
    {
        self.format.trailing_zero_omission = token.len() > 2 && token[2] == 'T';
        self.format.incremental = token.len() > 3 && (token[2] as u32) < 128 && token[3] == 'I';
        let text = string_from(token, 0, token.len());
        assert(token@.subrange(0, token.len() as int) =~= token@);
        if let Some((integer, decimal)) = format_pair(text.as_str(), 'X') {
            self.format.x_integer = integer;
            self.format.x_decimal = decimal;
        }
        if let Some((integer, decimal)) = format_pair(text.as_str(), 'Y') {
            self.format.y_integer = integer;
            self.format.y_decimal = decimal;
        }
    }
}

/// The pieces of `v` between separators `a` and `b`.
fn split_pieces(v: &Vec<char>, a: char, b: char) -> (r: Vec<String>)
    ensures
        strings_view(r@) == split_where(v@, either(a, b)),
{
    let mut out: Vec<String> = Vec::new();
    let mut start: usize = 0;
    let mut i: usize = 0;
    assert(split_where(v@.take(0), either(a, b)) =~= seq![Seq::<char>::empty()]);
    while i < v.len()
        invariant
            start <= i <= v.len(),
            split_where(v@.take(i as int), either(a, b)).len() >= 1,
            v@.subrange(start as int, i as int) == split_where(
                v@.take(i as int),
                either(a, b),
            ).last(),
            strings_view(out@) == split_where(v@.take(i as int), either(a, b)).drop_last(),
        decreases v.len() - i,
    {
        let ghost prev = split_where(v@.take(i as int), either(a, b));
        assert(v@.take(i + 1).drop_last() =~= v@.take(i as int));
        assert(v@.take(i + 1).last() == v@[i as int]);
        assert(v@.take(i + 1).len() > 0);
        if v[i] == a || v[i] == b {
            let piece = string_from(v, start, i);
            let ghost next = prev.push(Seq::<char>::empty());
            assert(split_where(v@.take(i + 1), either(a, b)) == next);
            assert(next.drop_last() =~= prev);
            assert(prev =~= prev.drop_last().push(prev.last()));
            out.push(piece);
            assert(strings_view(out@) =~= strings_view(out@.drop_last()).push(piece@));
            start = i + 1;
            assert(v@.subrange(start as int, i + 1) =~= Seq::<char>::empty());
        } else {
            let ghost next = prev.update(prev.len() - 1, prev.last().push(v@[i as int]));
            assert(split_where(v@.take(i + 1), either(a, b)) == next);
            assert(next.drop_last() =~= prev.drop_last());
            assert(v@.subrange(start as int, i + 1) =~= v@.subrange(start as int, i as int).push(
                v@[i as int],
            ));
        }
        i = i + 1;
    }
    assert(v@.take(v.len() as int) =~= v@);
    let ghost all = split_where(v@, either(a, b));
    assert(all =~= all.drop_last().push(all.last()));
    let piece = string_from(v, start, v.len());
    out.push(piece);
    assert(strings_view(out@) =~= strings_view(out@.drop_last()).push(piece@));
    out
}

/// Each string trimmed.
fn trim_each(pieces: Vec<String>) -> (r: Vec<String>)
    ensures
        strings_view(r@) == strings_view(pieces@).map_values(|p: Seq<char>| trim(p)),
{
    let mut out: Vec<String> = Vec::new();
    let mut i: usize = 0;
    while i < pieces.len()
        invariant
            i <= pieces.len(),
            strings_view(out@) == strings_view(pieces@).take(i as int).map_values(
                |p: Seq<char>| trim(p),
            ),
        decreases pieces.len() - i,
    {
        let c = chars_of(pieces[i].as_str());
        let (a, b) = trim_bounds(&c);
        let t = string_from(&c, a, b);
        let ghost before = strings_view(out@);
        let ghost tv = t@;
        out.push(t);
        assert(strings_view(out@) =~= before.push(tv));
        assert(strings_view(pieces@)[i as int] == c@);
        assert(tv == trim(c@));
        assert(strings_view(pieces@).take(i + 1) =~= strings_view(pieces@).take(i as int).push(c@));
        assert(strings_view(out@) =~= strings_view(pieces@).take(i + 1).map_values(
            |p: Seq<char>| trim(p),
        ));
        i = i + 1;
    }
    assert(strings_view(pieces@).take(pieces.len() as int) =~= strings_view(pieces@));
    out
}

fn shape_kind(name: &Vec<char>) -> (r: Option<ShapeKind>)
    ensures
        r == shape_of(name@),
{
    let c = if name.len() > 0 {
        name[0]
    } else {
        'C'
    };
    if c == 'C' {
        Some(ShapeKind::Circle)
    } else if c == 'R' {
        Some(ShapeKind::Rectangle)
    } else if c == 'O' {
        Some(ShapeKind::Obround)
    } else if c == 'P' {
        Some(ShapeKind::Polygon)
    } else {
        None
    }
}

impl GerberState {
    /// Whether a macro named `name` has been defined.
    pub fn has_macro(&self, name: &Vec<char>) -> (r: bool)
        ensures
            r == self@.macro_names.contains(name@),
    {
        let mut i: usize = 0;
        while i < self.macro_names.len()
            invariant
                i <= self.macro_names.len(),
                forall|j: int| 0 <= j < i ==> #[trigger] strings_view(self.macro_names@)[j] != name@,
            decreases self.macro_names.len() - i,
        {
            let n = chars_of(self.macro_names[i].as_str());
            assert(n@ == strings_view(self.macro_names@)[i as int]);
            assert(n@.subrange(0, n.len() as int) =~= n@);
            if n.len() == name.len() && crate::text::matches_at(&n, name, 0) {
                assert(n@.subrange(0, name.len() as int) =~= n@);
                assert(strings_view(self.macro_names@)[i as int] == name@);
                return true;
            }
            i = i + 1;
        }
        false
    }

    /// Applies an `ADD` aperture definition.
    pub fn aperture(&mut self, token: &Vec<char>, out: &mut Vec<GerberAction>)
        requires
            starts_with(token@, "ADD"@),
        ensures
            final(self)@ == spec_aperture(old(self)@, token@).0,
            actions_view(final(out)@) == actions_view(old(out)@) + spec_aperture(
                old(self)@,
                token@,
            ).1,
    {
        proof {
            reveal_strlit("ADD");
        }
        let rest = slice_vec(token, 3, token.len());
        assert(rest@ =~= token@.skip(3));
        let n = count_leading_digits(&rest, 0);
        assert(rest@.skip(0) =~= rest@);
        assert(rest@.subrange(0, n as int) =~= rest@.take(n as int));
        let code = match parse_unsigned_in(&rest, 0, n, 0xffff_ffff) {
            Some(c) => c as u32,
            None => {
                assert(actions_view(out@) =~= actions_view(old(out)@) + Seq::<ActionModel>::empty());
                return ;
            },
        };
        let definition = slice_vec(&rest, n, rest.len());
        assert(definition@ =~= rest@.skip(n as int));
        let (shape_name, parameters) = match find_char(&definition, ',') {
            Some(k) => {
                let a = slice_vec(&definition, 0, k);
                let b = slice_vec(&definition, k + 1, definition.len());
                assert(a@ =~= definition@.take(k as int));
                assert(b@ =~= definition@.skip(k + 1));
                (a, b)
            },
            None => (definition, chars_of("0.1")),
        };
        if self.has_macro(&shape_name) {
            let name = string_from(&shape_name, 0, shape_name.len());
            assert(shape_name@.subrange(0, shape_name.len() as int) =~= shape_name@);
            push_action(out, GerberAction::UseMacroAperture { code, name });
            assert(actions_view(out@) =~= actions_view(old(out)@) + spec_aperture(
                old(self)@,
                token@,
            ).1);
            return ;
        }
        let params = split_pieces(&parameters, 'X', 'x');
        let shape = match shape_kind(&shape_name) {
            Some(k) => k,
            None => {
                self.warn_once("macro aperture", "A macro aperture was approximated as a circle.");
                ShapeKind::Circle
            },
        };
        push_action(
            out,
            GerberAction::DefineAperture { code, shape, parameters: params, units: self.units },
        );
        assert(actions_view(out@) =~= actions_view(old(out)@) + spec_aperture(old(self)@, token@).1);
    }
}

/// The value of a `G` code, `0` where it does not parse.
fn g_code_of(value: &str) -> (r: u32)
    ensures
        r as nat == g_code(value@),
{
    let v = chars_of(value);
    assert(v@.subrange(0, v.len() as int) =~= v@);
    match parse_unsigned_in(&v, 0, v.len(), 0xffff_ffff) {
        Some(c) => c as u32,
        None => 0,
    }
}

/// The number in the last field named `letter`, read under the given digit counts.
fn field_number_of(
    fields: &Vec<(char, String)>,
    letter: char,
    integer: usize,
    decimal: usize,
    trailing: bool,
) -> (r: Option<ParsedNumber>)
    ensures
        number_view(r) == field_number(fields_view(fields@), letter, integer, decimal, trailing),
{
    match last_field(fields.as_slice(), letter) {
        Some(v) => Some(crate::gerber::parse_number(v, integer, decimal, trailing)),
        None => None,
    }
}

impl GerberState {
    /// Applies one `G` code; returns whether it closes the region.
    pub fn apply_g(&mut self, code: u32, out: &mut Vec<GerberAction>) -> (close: bool)
        ensures
            final(self)@ == apply_g(old(self)@, code as nat).0,
            actions_view(final(out)@) == actions_view(old(out)@) + apply_g(old(self)@, code as nat).1,
            close == apply_g(old(self)@, code as nat).2,
    {
        let mut close = false;
        if code == 1 {
            self.interpolation = Interpolation::Linear;
        } else if code == 2 {
            self.interpolation = Interpolation::Clockwise;
        } else if code == 3 {
            self.interpolation = Interpolation::CounterClockwise;
        } else if code == 36 {
            self.region_active = true;
            push_action(out, GerberAction::BeginRegion);
        } else if code == 37 {
            close = true;
        } else if code == 70 {
            self.units = Units::Inch;
        } else if code == 71 {
            self.units = Units::Millimeter;
        } else if code == 90 {
            self.format.incremental = false;
        } else if code == 91 {
            self.format.incremental = true;
        }
        assert(actions_view(out@) =~= actions_view(old(out)@) + apply_g(old(self)@, code as nat).1);
        close
    }

    /// Applies the `G` codes of a command in order; returns whether one closes the region.
    pub fn apply_gs(&mut self, values: &Vec<&str>, out: &mut Vec<GerberAction>) -> (close: bool)
        ensures
            final(self)@ == apply_gs(old(self)@, strs_view(values@)).0,
            actions_view(final(out)@) == actions_view(old(out)@) + apply_gs(
                old(self)@,
                strs_view(values@),
            ).1,
            close == apply_gs(old(self)@, strs_view(values@)).2,
    {
        let ghost m0 = self@;
        let ghost o0 = actions_view(out@);
        let mut close = false;
        let mut i: usize = 0;
        assert(strs_view(values@).take(0) =~= Seq::<Seq<char>>::empty());
        assert(o0 =~= o0 + Seq::<ActionModel>::empty());
        while i < values.len()
            invariant
                i <= values.len(),
                self@ == apply_gs(m0, strs_view(values@).take(i as int)).0,
                actions_view(out@) == o0 + apply_gs(m0, strs_view(values@).take(i as int)).1,
                close == apply_gs(m0, strs_view(values@).take(i as int)).2,
            decreases values.len() - i,
        {
            let code = g_code_of(values[i]);
            let c = self.apply_g(code, out);
            close = close || c;
            proof {
                let t = strs_view(values@).take(i + 1);
                assert(t.drop_last() =~= strs_view(values@).take(i as int));
                assert(t.last() == values@[i as int]@);
                let prev = apply_gs(m0, t.drop_last());
                assert(actions_view(out@) =~= o0 + (prev.1 + apply_g(prev.0, code as nat).1));
            }
            i = i + 1;
        }
        assert(strs_view(values@).take(values.len() as int) =~= strs_view(values@));
        close
    }

    /// Applies the `D` code and coordinates of a command.
    pub fn d_and_move(&mut self, fields: &Vec<(char, String)>, out: &mut Vec<GerberAction>)
        ensures
            final(self)@ == spec_d_and_move(old(self)@, fields_view(fields@)).0,
            actions_view(final(out)@) == actions_view(old(out)@) + spec_d_and_move(
                old(self)@,
                fields_view(fields@),
            ).1,
    {
        let ghost fv = fields_view(fields@);
        let d: Option<u32> = match last_field(fields.as_slice(), 'D') {
            Some(v) => {
                let cv = chars_of(v);
                assert(cv@.subrange(0, cv.len() as int) =~= cv@);
                match parse_unsigned_in(&cv, 0, cv.len(), 0xffff_ffff) {
                    Some(c) => Some(c as u32),
                    None => None,
                }
            },
            None => None,
        };
        let has_x = last_field(fields.as_slice(), 'X').is_some();
        let has_y = last_field(fields.as_slice(), 'Y').is_some();
        let selects_only = match d {
            Some(code) => {
                if code >= 10 {
                    self.current_aperture = Some(code);
                } else if code > 0 {
                    self.operation = code;
                }
                code >= 10 && !has_x && !has_y
            },
            None => !has_x && !has_y,
        };
        if selects_only {
            assert(actions_view(out@) =~= actions_view(old(out)@) + Seq::<ActionModel>::empty());
            return ;
        }
        let x = field_number_of(
            fields,
            'X',
            self.format.x_integer,
            self.format.x_decimal,
            self.format.trailing_zero_omission,
        );
        let y = field_number_of(
            fields,
            'Y',
            self.format.y_integer,
            self.format.y_decimal,
            self.format.trailing_zero_omission,
        );
        let op = self.operation_for(fields);
        push_action(
            out,
            GerberAction::Operate {
                x,
                y,
                units: self.units,
                incremental: self.format.incremental,
                op,
            },
        );
        assert(actions_view(out@) =~= actions_view(old(out)@) + spec_d_and_move(
            old(self)@,
            fv,
        ).1);
    }

    /// What the current operation does with the target point.
    pub fn operation_for(&self, fields: &Vec<(char, String)>) -> (r: Operation)
        ensures
            r@ == spec_operation(self@, fields_view(fields@)),
    {
        if self.operation == 1 {
            if self.region_active {
                Operation::RegionVertex
            } else if !self.dark_polarity {
                Operation::Move
            } else if self.interpolation == Interpolation::Linear {
                Operation::Line { aperture: self.current_aperture }
            } else {
                let i = field_number_of(
                    fields,
                    'I',
                    self.format.x_integer,
                    self.format.x_decimal,
                    self.format.trailing_zero_omission,
                );
                let j = field_number_of(
                    fields,
                    'J',
                    self.format.y_integer,
                    self.format.y_decimal,
                    self.format.trailing_zero_omission,
                );
                Operation::Arc {
                    aperture: self.current_aperture,
                    clockwise: self.interpolation == Interpolation::Clockwise,
                    i,
                    j,
                }
            }
        } else if self.operation == 2 {
            if self.region_active {
                Operation::RegionMoveTo
            } else {
                Operation::Move
            }
        } else if self.operation == 3 {
            if self.dark_polarity {
                Operation::Flash { aperture: self.current_aperture }
            } else {
                Operation::Move
            }
        } else {
            Operation::Move
        }
    }

    /// A command that is not a parameter command.
    pub fn operate(&mut self, token: &Vec<char>, out: &mut Vec<GerberAction>)
        ensures
            final(self)@ == spec_operate(old(self)@, token@).0,
            actions_view(final(out)@) == actions_view(old(out)@) + spec_operate(
                old(self)@,
                token@,
            ).1,
    {
        let fields = crate::gerber::parse_fields_chars(token);
        let values = field_values(fields.as_slice(), 'G');
        let ghost m0 = self@;
        let ghost o0 = actions_view(out@);
        let close = self.apply_gs(&values, out);
        if close {
            self.finish_region(out);
        } else {
            assert(actions_view(out@) =~= actions_view(out@) + Seq::<ActionModel>::empty());
        }
        self.d_and_move(&fields, out);
        proof {
            let fv = spec_fields(token@);
            let (a, b, c) = apply_gs(m0, values_named(fv, 'G'));
            let (m2, a2) = if c {
                finish_region(a)
            } else {
                (a, Seq::empty())
            };
            assert(actions_view(out@) =~= o0 + (b + a2 + spec_d_and_move(m2, fv).1));
        }
    }
}

/// The steps and the warnings that a Gerber file gives.
#[derive(Debug, PartialEq)]
pub struct GerberPlan {
    pub actions: Vec<GerberAction>,
    pub warnings: Vec<String>,
}

impl GerberState {
    /// One upper-cased command, once no macro body is open.
    pub fn command(&mut self, token: &Vec<char>, out: &mut Vec<GerberAction>)
        ensures
            final(self)@ == spec_command(old(self)@, token@).0,
            actions_view(final(out)@) == actions_view(old(out)@) + spec_command(
                old(self)@,
                token@,
            ).1,
    {
        if starts_with_vec(token, "AM") {
            proof {
                reveal_strlit("AM");
            }
            let name = string_from(token, 2, token.len());
            assert(name@ =~= token@.skip(2));
            let name_copy = string_from(token, 2, token.len());
            self.active_macro = Some(name);
            self.warn_once(
                "aperture macros",
                "Gerber aperture macros are approximated from their primitive bounds.",
            );
            push_action(out, GerberAction::BeginMacro { name: name_copy });
            assert(actions_view(out@) =~= actions_view(old(out)@) + spec_command(
                old(self)@,
                token@,
            ).1);
            return ;
        }
        assert(actions_view(out@) =~= actions_view(old(out)@) + Seq::<ActionModel>::empty());
        if token.len() == 0 || starts_with_vec(token, "G04") || starts_with_vec(token, "TF")
            || starts_with_vec(token, "TA") || starts_with_vec(token, "TD") {
            return ;
        }
        if starts_with_vec(token, "FS") {
            self.parse_format(token);
            return ;
        }
        if equals_str(token, "MOMM") {
            self.units = Units::Millimeter;
            return ;
        }
        if equals_str(token, "MOIN") {
            self.units = Units::Inch;
            return ;
        }
        if starts_with_vec(token, "ADD") {
            self.aperture(token, out);
            return ;
        }
        if equals_str(token, "LPD") {
            self.dark_polarity = true;
            return ;
        }
        if equals_str(token, "LPC") {
            self.dark_polarity = false;
            self.warn_once(
                "clear polarity",
                "Gerber clear polarity is currently omitted from the SVG preview.",
            );
            return ;
        }
        self.operate(token, out);
    }

    /// Interprets one command.
    pub fn process(&mut self, command: &str, out: &mut Vec<GerberAction>)
        ensures
            final(self)@ == spec_process(old(self)@, command@).0,
            actions_view(final(out)@) == actions_view(old(out)@) + spec_process(
                old(self)@,
                command@,
            ).1,
    {
        let token = upper_vec(&trimmed(&chars_of(command)));
        let text = string_from(&token, 0, token.len());
        assert(token@.subrange(0, token.len() as int) =~= token@);
        if self.active_macro.is_some() && is_macro_primitive(text.as_str()) {
            if token[0] == '$' {
                assert(actions_view(out@) =~= actions_view(old(out)@) + Seq::<ActionModel>::empty());
                return ;
            }
            let parameters = trim_each(split_pieces(&token, ',', ','));
            push_action(out, GerberAction::MacroPrimitive { parameters });
            assert(actions_view(out@) =~= actions_view(old(out)@) + spec_process(
                old(self)@,
                command@,
            ).1);
            return ;
        }
        let ghost o0 = actions_view(out@);
        let ghost m0 = self@;
        self.finish_macro(out);
        self.command(&token, out);
        assert(actions_view(out@) =~= o0 + (finish_macro(m0).1 + spec_command(
            finish_macro(m0).0,
            token@,
        ).1));
    }
}

/// Interprets a Gerber file: the steps that draw it, and the warnings about what the preview
/// approximates.
pub fn plan_gerber(source: &str) -> (r: GerberPlan)
    ensures
        actions_view(r.actions@) == spec_plan(source@).1,
        strings_view(r.warnings@) == spec_plan(source@).0.warnings,
{
    let cmds = crate::gerber::commands(source);
    let ghost cv = strings_view(cmds@);
    let mut state = GerberState::new();
    let mut out: Vec<GerberAction> = Vec::new();
    let mut i: usize = 0;
    assert(cv.take(0) =~= Seq::<Seq<char>>::empty());
    assert(actions_view(out@) =~= Seq::<ActionModel>::empty());
    while i < cmds.len()
        invariant
            i <= cmds.len(),
            cv == strings_view(cmds@),
            state@ == spec_run(initial_model(), cv.take(i as int)).0,
            actions_view(out@) == spec_run(initial_model(), cv.take(i as int)).1,
        decreases cmds.len() - i,
    {
        state.process(cmds[i].as_str(), &mut out);
        proof {
            let t = cv.take(i + 1);
            assert(t.drop_last() =~= cv.take(i as int));
            assert(t.last() == cmds@[i as int]@);
        }
        i = i + 1;
    }
    assert(cv.take(cmds.len() as int) =~= cv);
    let ghost o0 = actions_view(out@);
    let ghost m0 = state@;
    state.finish_macro(&mut out);
    state.finish_region(&mut out);
    assert(actions_view(out@) =~= o0 + finish_macro(m0).1 + finish_region(finish_macro(m0).0).1);
    GerberPlan { actions: out, warnings: state.warnings }
}

} // verus!
