//! Excellon drill programs: the decisions of the line-by-line interpreter. Hole positions and
//! sizes in millimetres are left to the caller, which applies the steps in order.
use vstd::prelude::*;
use crate::gerber::{lemma_run_end_bounds, run_end, value_end};
use crate::gerber_machine::number_view;
use crate::layer::newline;
use crate::number::{
    digits_or_zero, integer_parts, lemma_strip_signs_len, lemma_utf8_len_ascii, sat_sub,
    strip_signs, utf8_len, NumberModel, ParsedNumber, Units,
};
use vstd::string::StrSliceExecFns;
use crate::text::{
    all_digits, chars_of, contains, contains_vec, count_leading_digits, equals_str, find_char,
    find_str, first_index, has_char, is_ascii_digit, is_digit, leading_digits,
    lemma_split_where_concat, lemma_split_where_nonempty, occurs_at, parse_unsigned,
    parse_unsigned_in, slice_vec, split_where, starts_with, starts_with_vec, string_from, to_upper,
    trim, trim_end, trim_start, trimmed, upper_vec, digits_value,
};

verus! {

/// Digit counts of Excellon coordinates, and whether trailing zeros are omitted.
#[derive(Debug, Clone, Copy, PartialEq, Eq, Structural)]
pub struct DrillFormat {
    pub integer: usize,
    pub decimal: usize,
    pub trailing_zero_omission: bool,
}

impl DrillFormat {
    pub open spec fn spec_default() -> DrillFormat {
        DrillFormat { integer: 2, decimal: 4, trailing_zero_omission: false }
    }

    /// The format before any header line: 2.4 digits with leading zeros.
    pub fn default() -> (r: DrillFormat)
        ensures
            r == DrillFormat::spec_default(),
    {
        DrillFormat { integer: 2, decimal: 4, trailing_zero_omission: false }
    }
}

/// The value that follows the first `letter` of a line: an optional sign, then digits and dots.
pub open spec fn spec_field(line: Seq<char>, letter: char) -> Option<Seq<char>> {
    if (letter as u32) < 128 {
        match first_index(line, letter) {
            Some(k) => {
                let e = value_end(line, k + 1);
                if e > k + 1 {
                    Some(line.subrange(k + 1, e))
                } else {
                    None
                }
            },
            None => None,
        }
    } else {
        None
    }
}

/// Bounds of the value that follows the first `letter` of a line.
fn field_bounds(line: &Vec<char>, letter: char) -> (r: Option<(usize, usize)>)
    ensures
        r matches Some((a, b)) ==> a <= b <= line.len() && spec_field(line@, letter) == Some(
            line@.subrange(a as int, b as int),
        ),
        r is None ==> spec_field(line@, letter) is None,
{
    if (letter as u32) >= 128 {
        return None;
    }
    let k = match find_char(line, letter) {
        Some(k) => k,
        None => return None,
    };
    let index = k + 1;
    let mut end = index;
    if end < line.len() && (line[end] == '+' || line[end] == '-') {
        end = end + 1;
    }
    proof {
        lemma_run_end_bounds(line@, end as int);
    }
    while end < line.len() && (is_ascii_digit(line[end]) || line[end] == '.')
        invariant
            index <= end <= line.len(),
            run_end(line@, end as int) == value_end(line@, index as int),
        decreases line.len() - end,
    {
        end = end + 1;
    }
    if end > index {
        Some((index, end))
    } else {
        None
    }
}

/// `field` on the characters of a line.
pub fn field_chars(line: &Vec<char>, letter: char) -> (r: Option<Vec<char>>)
    ensures
        r matches Some(v) ==> spec_field(line@, letter) == Some(v@),
        r matches Some(v) ==> utf8_len(v@) == v@.len(),
        r is None ==> spec_field(line@, letter) is None,
{
    match field_bounds(line, letter) {
        Some((a, b)) => {
            let v = slice_vec(line, a, b);
            proof {
                lemma_field_ascii(line@, letter);
            }
            Some(v)
        },
        None => None,
    }
}

/// A field value is ASCII.
proof fn lemma_field_ascii(line: Seq<char>, letter: char)
    ensures
        spec_field(line, letter) matches Some(v) ==> utf8_len(v) == v.len(),
{
    if let Some(v) = spec_field(line, letter) {
        let k = first_index(line, letter).unwrap();
        crate::text::lemma_first_index_bounds(line, letter);
        let index = k + 1;
        let j = if index < line.len() && (line[index] == '+' || line[index] == '-') {
            index + 1
        } else {
            index
        };
        lemma_run_end_bounds(line, j);
        assert forall|i: int| 0 <= i < v.len() implies (#[trigger] v[i] as u32) < 128 by {
            assert(v[i] == line[index + i]);
            if index + i >= j {
                assert(crate::gerber::is_number_char(line[index + i]));
            }
        }
        lemma_utf8_len_ascii(v);
    }
}

/// The value that follows the first `letter` of a line, if it is not empty.
pub fn field(line: &str, letter: char) -> (r: Option<&str>)
    ensures
        r matches Some(v) ==> spec_field(line@, letter) == Some(v@),
        r is None ==> spec_field(line@, letter) is None,
{
    let chars = chars_of(line);
    match field_bounds(&chars, letter) {
        Some((a, b)) => Some(line.substring_char(a, b)),
        None => None,
    }
}

/// An Excellon coordinate value: with a decimal point it is read as written; otherwise the
/// sign, then the digits, with `decimal` digits after the implied point, or, when trailing zeros
/// are omitted, all digits after the first `integer` ones.
pub open spec fn spec_parse_number(value: Seq<char>, format: DrillFormat) -> NumberModel {
    if value.contains('.') {
        NumberModel::Literal(value)
    } else {
        let unsigned = strip_signs(value);
        NumberModel::Scaled {
            negative: value.len() > 0 && value[0] == '-',
            mantissa: digits_or_zero(unsigned),
            shift: 0,
            divisor_exp: if format.trailing_zero_omission {
                (sat_sub(utf8_len(unsigned), format.integer as nat) as usize) as i32
            } else {
                format.decimal as i32
            },
        }
    }
}

/// Reads an Excellon coordinate value.
pub fn parse_number(value: &Vec<char>, format: DrillFormat) -> (r: ParsedNumber)
    requires
        utf8_len(value@) <= usize::MAX,
    ensures
        r@ == spec_parse_number(value@, format),
{
    proof {
        lemma_strip_signs_len(value@);
    }
    assert(value@.subrange(0, value.len() as int) =~= value@);
    if has_char(value, '.') {
        return ParsedNumber::Literal(string_from(value, 0, value.len()));
    }
    let parts = integer_parts(value);
    let divisor_exp: i32 = if format.trailing_zero_omission {
        let fractional: usize = if parts.unsigned_len >= format.integer {
            parts.unsigned_len - format.integer
        } else {
            0
        };
        #[verifier::truncate]
        (fractional as i32)
    } else {
        #[verifier::truncate]
        (format.decimal as i32)
    };
    ParsedNumber::Scaled { negative: parts.negative, mantissa: parts.mantissa, shift: 0, divisor_exp }
}

pub open spec fn field_number(line: Seq<char>, letter: char, format: DrillFormat) -> Option<
    NumberModel,
> {
    match spec_field(line, letter) {
        Some(v) => Some(spec_parse_number(v, format)),
        None => None,
    }
}

fn field_number_of(line: &Vec<char>, letter: char, format: DrillFormat) -> (r: Option<ParsedNumber>)
    ensures
        crate::gerber_machine::number_view(r) == field_number(line@, letter, format),
{
    match field_chars(line, letter) {
        Some(v) => Some(parse_number(&v, format)),
        None => None,
    }
}

/// One step that the caller applies to the hole geometry, in order.
#[derive(Debug, PartialEq)]
pub enum DrillAction {
    /// Tool `code` has the diameter written in `diameter`, in `units`; a diameter that does not
    /// read as a number leaves the tool undefined.
    DefineTool { code: u32, diameter: String, units: Units },
    /// A routed slot, drawn as a track as wide as the current tool, counting as one hole. Its start
    /// is placed like a hit; its end is placed from the start in the same way.
    Slot {
        start_x: Option<ParsedNumber>,
        start_y: Option<ParsedNumber>,
        end_x: Option<ParsedNumber>,
        end_y: Option<ParsedNumber>,
        units: Units,
        incremental: bool,
        tool: Option<u32>,
    },
    /// A hole at `(x, y)` in `units`, each absent coordinate keeping the current one; with
    /// `incremental` the values are offsets from the current point.
    Hit {
        x: Option<ParsedNumber>,
        y: Option<ParsedNumber>,
        units: Units,
        incremental: bool,
        tool: Option<u32>,
    },
}

pub enum DrillActionModel {
    DefineTool { code: u32, diameter: Seq<char>, units: Units },
    Slot {
        start_x: Option<NumberModel>,
        start_y: Option<NumberModel>,
        end_x: Option<NumberModel>,
        end_y: Option<NumberModel>,
        units: Units,
        incremental: bool,
        tool: Option<u32>,
    },
    Hit {
        x: Option<NumberModel>,
        y: Option<NumberModel>,
        units: Units,
        incremental: bool,
        tool: Option<u32>,
    },
}

impl View for DrillAction {
    type V = DrillActionModel;

    open spec fn view(&self) -> DrillActionModel {
        match self {
            DrillAction::DefineTool { code, diameter, units } => DrillActionModel::DefineTool {
                code: *code,
                diameter: diameter@,
                units: *units,
            },
            DrillAction::Slot { start_x, start_y, end_x, end_y, units, incremental, tool } =>
                DrillActionModel::Slot {
                start_x: number_view(*start_x),
                start_y: number_view(*start_y),
                end_x: number_view(*end_x),
                end_y: number_view(*end_y),
                units: *units,
                incremental: *incremental,
                tool: *tool,
            },
            DrillAction::Hit { x, y, units, incremental, tool } => DrillActionModel::Hit {
                x: number_view(*x),
                y: number_view(*y),
                units: *units,
                incremental: *incremental,
                tool: *tool,
            },
        }
    }
}

pub open spec fn drill_actions_view(v: Seq<DrillAction>) -> Seq<DrillActionModel> {
    v.map_values(|a: DrillAction| a@)
}

/// The interpreter's state, without positions and tool sizes.
#[derive(Debug, Clone, Copy, PartialEq, Eq, Structural)]
pub struct DrillState {
    pub format: DrillFormat,
    pub units: Units,
    pub incremental: bool,
    pub explicit_format: bool,
    pub current_tool: Option<u32>,
    /// An end-of-program code has been read; later lines are ignored.
    pub ended: bool,
}

/// The state before the first line: inch units, 2.4 digits with leading zeros, absolute.
pub open spec fn initial_drill_state() -> DrillState {
    DrillState {
        format: DrillFormat::spec_default(),
        units: Units::Inch,
        incremental: false,
        explicit_format: false,
        current_tool: None,
        ended: false,
    }
}

/// The part of a line before its first `;` comment.
pub open spec fn before_comment(s: Seq<char>) -> Seq<char> {
    match first_index(s, ';') {
        Some(k) => s.take(k),
        None => s,
    }
}

/// A `;FILE_FORMAT=i:d` header comment sets both digit counts; a count that does not parse
/// keeps its value.
pub open spec fn spec_file_format(m: DrillState, text: Seq<char>) -> DrillState {
    match first_index(text, ':') {
        Some(k) => DrillState {
            format: DrillFormat {
                integer: match parse_unsigned(text.take(k), usize::MAX as nat) {
                    Some(v) => v as usize,
                    None => m.format.integer,
                },
                decimal: match parse_unsigned(text.skip(k + 1), usize::MAX as nat) {
                    Some(v) => v as usize,
                    None => m.format.decimal,
                },
                ..m.format
            },
            explicit_format: true,
            ..m
        },
        None => m,
    }
}

/// A `T<code>C<diameter>` tool definition.
pub open spec fn spec_tool_definition(m: DrillState, line: Seq<char>) -> Seq<DrillActionModel> {
    let code_end = leading_digits(line.skip(1)) + 1;
    let code = match parse_unsigned(line.subrange(1, code_end as int), u32::MAX as nat) {
        Some(v) => v as u32,
        None => 0,
    };
    let after = line.skip(code_end as int);
    match first_index(after, 'C') {
        Some(k) => seq![
            DrillActionModel::DefineTool { code: code, diameter: after.skip(k + 1), units: m.units },
        ],
        None => Seq::empty(),
    }
}

/// Index of the first `G85` in `s`.
pub open spec fn first_g85(s: Seq<char>) -> Option<int> {
    if contains(s, "G85"@) {
        Some(
            choose|i: int|
                occurs_at(s, "G85"@, i) && forall|j: int| 0 <= j < i ==> !occurs_at(s, "G85"@, j),
        )
    } else {
        None
    }
}

/// One line of a drill program that has not ended: trimmed and upper-cased.
pub open spec fn spec_drill_line(m: DrillState, raw: Seq<char>) -> (DrillState, Seq<DrillActionModel>) {
    let upper = to_upper(trim(raw));
    let line = trim(before_comment(upper));
    if upper.len() == 0 {
        (m, Seq::empty())
    } else if starts_with(upper, ";FILE_FORMAT="@) {
        (spec_file_format(m, upper.skip(13)), Seq::empty())
    } else if line.len() == 0 || line == "M48"@ || line == "%"@ {
        (m, Seq::empty())
    } else if starts_with(line, "METRIC"@) || line == "M71"@ {
        (
            DrillState {
                units: Units::Millimeter,
                format: DrillFormat {
                    integer: if m.explicit_format {
                        m.format.integer
                    } else {
                        3
                    },
                    decimal: if m.explicit_format {
                        m.format.decimal
                    } else {
                        3
                    },
                    trailing_zero_omission: contains(line, "LZ"@),
                },
                ..m
            },
            Seq::empty(),
        )
    } else if starts_with(line, "INCH"@) || line == "M72"@ {
        (
            DrillState {
                units: Units::Inch,
                format: DrillFormat {
                    integer: if m.explicit_format {
                        m.format.integer
                    } else {
                        2
                    },
                    decimal: if m.explicit_format {
                        m.format.decimal
                    } else {
                        4
                    },
                    trailing_zero_omission: contains(line, "LZ"@),
                },
                ..m
            },
            Seq::empty(),
        )
    } else if line == "G90"@ {
        (DrillState { incremental: false, ..m }, Seq::empty())
    } else if line == "G91"@ {
        (DrillState { incremental: true, ..m }, Seq::empty())
    } else if line[0] == 'T' && line.contains('C') {
        (m, spec_tool_definition(m, line))
    } else if line[0] == 'T' && all_digits(line.skip(1)) {
        (
            DrillState {
                current_tool: match parse_unsigned(line.skip(1), u32::MAX as nat) {
                    Some(v) => Some(v as u32),
                    None => None,
                },
                ..m
            },
            Seq::empty(),
        )
    } else if line == "M30"@ || line == "M00"@ || line == "M02"@ {
        (DrillState { ended: true, ..m }, Seq::empty())
    } else if contains(line, "G85"@) {
        let k = first_g85(line).unwrap();
        let start = line.take(k);
        let end = line.skip(k + 3);
        (
            m,
            seq![
                DrillActionModel::Slot {
                    start_x: field_number(start, 'X', m.format),
                    start_y: field_number(start, 'Y', m.format),
                    end_x: field_number(end, 'X', m.format),
                    end_y: field_number(end, 'Y', m.format),
                    units: m.units,
                    incremental: m.incremental,
                    tool: m.current_tool,
                },
            ],
        )
    } else if line.contains('X') || line.contains('Y') {
        (
            m,
            seq![
                DrillActionModel::Hit {
                    x: field_number(line, 'X', m.format),
                    y: field_number(line, 'Y', m.format),
                    units: m.units,
                    incremental: m.incremental,
                    tool: m.current_tool,
                },
            ],
        )
    } else {
        (m, Seq::empty())
    }
}

/// The lines in order; after an end-of-program code nothing changes.
pub open spec fn spec_drill_run(m: DrillState, lines: Seq<Seq<char>>) -> (DrillState, Seq<DrillActionModel>)
    decreases lines.len(),
{
    if lines.len() == 0 {
        (m, Seq::empty())
    } else {
        let (m0, a0) = spec_drill_run(m, lines.drop_last());
        if m0.ended {
            (m0, a0)
        } else {
            let (m1, a1) = spec_drill_line(m0, lines.last());
            (m1, a0 + a1)
        }
    }
}

/// A whole drill program, line by line from the initial state.
pub open spec fn spec_drill_plan(source: Seq<char>) -> (DrillState, Seq<DrillActionModel>) {
    spec_drill_run(initial_drill_state(), split_where(source, newline()))
}

fn push_drill(out: &mut Vec<DrillAction>, a: DrillAction)
    ensures
        drill_actions_view(final(out)@) == drill_actions_view(old(out)@).push(a@),
{
    out.push(a);
    assert(drill_actions_view(out@) =~= drill_actions_view(old(out)@).push(a@));
}

fn parse_usize_in(v: &Vec<char>, from: usize, to: usize) -> (r: Option<usize>)
    requires
        from <= to <= v.len(),
    ensures
        r matches Some(x) ==> parse_unsigned(v@.subrange(from as int, to as int), usize::MAX as nat)
            == Some(x as nat),
        r is None ==> parse_unsigned(v@.subrange(from as int, to as int), usize::MAX as nat) is None,
{
    match parse_unsigned_in(v, from, to, usize::MAX as u64) {
        Some(x) => Some(x as usize),
        None => None,
    }
}

impl DrillState {
    /// The state before the first line.
    pub fn new() -> (r: DrillState)
        ensures
            r == initial_drill_state(),
    {
        DrillState {
            format: DrillFormat::default(),
            units: Units::Inch,
            incremental: false,
            explicit_format: false,
            current_tool: None,
            ended: false,
        }
    }

    /// Applies a `;FILE_FORMAT=` header; `text` is what follows the `=`.
    fn file_format(&mut self, text: &Vec<char>)
        ensures
            *final(self) == spec_file_format(*old(self), text@),
    {
        if let Some(k) = find_char(text, ':') {
            assert(text@.subrange(0, k as int) =~= text@.take(k as int));
            assert(text@.subrange(k + 1, text.len() as int) =~= text@.skip(k + 1));
            if let Some(v) = parse_usize_in(text, 0, k) {
                self.format.integer = v;
            }
            if let Some(v) = parse_usize_in(text, k + 1, text.len()) {
                self.format.decimal = v;
            }
            self.explicit_format = true;
        }
    }

    /// Applies a tool definition line.
    fn tool_definition(&self, line: &Vec<char>, out: &mut Vec<DrillAction>)
        requires
            line.len() > 0,
        ensures
            drill_actions_view(final(out)@) == drill_actions_view(old(out)@) + spec_tool_definition(
                *self,
                line@,
            ),
    {
        let n = count_leading_digits(line, 1);
        let code_end = n + 1;
        let code: u32 = match parse_unsigned_in(line, 1, code_end, 0xffff_ffff) {
            Some(c) => c as u32,
            None => 0,
        };
        let after = slice_vec(line, code_end, line.len());
        assert(after@ =~= line@.skip(code_end as int));
        match find_char(&after, 'C') {
            Some(k) => {
                let diameter = string_from(&after, k + 1, after.len());
                assert(diameter@ =~= after@.skip(k + 1));
                push_drill(out, DrillAction::DefineTool { code, diameter, units: self.units });
                assert(drill_actions_view(out@) =~= drill_actions_view(old(out)@)
                    + spec_tool_definition(*self, line@));
            },
            None => {
                assert(drill_actions_view(out@) =~= drill_actions_view(old(out)@)
                    + Seq::<DrillActionModel>::empty());
            },
        }
    }

    /// Interprets one line of a program that has not ended.
    pub fn process_line(&mut self, raw: &Vec<char>, out: &mut Vec<DrillAction>)
        ensures
            *final(self) == spec_drill_line(*old(self), raw@).0,
            drill_actions_view(final(out)@) == drill_actions_view(old(out)@) + spec_drill_line(
                *old(self),
                raw@,
            ).1,
    {
        let upper = upper_vec(&trimmed(raw));
        let ghost o0 = drill_actions_view(out@);
        assert(o0 =~= o0 + Seq::<DrillActionModel>::empty());
        if upper.len() == 0 {
            return ;
        }
        if starts_with_vec(&upper, ";FILE_FORMAT=") {
            proof {
                reveal_strlit(";FILE_FORMAT=");
            }
            let text = slice_vec(&upper, 13, upper.len());
            assert(text@ =~= upper@.skip(13));
            self.file_format(&text);
            return ;
        }
        let head = match find_char(&upper, ';') {
            Some(k) => {
                let h = slice_vec(&upper, 0, k);
                assert(h@ =~= upper@.take(k as int));
                h
            },
            None => slice_vec(&upper, 0, upper.len()),
        };
        assert(upper@.subrange(0, upper.len() as int) =~= upper@);
        let line = trimmed(&head);
        if line.len() == 0 || equals_str(&line, "M48") || equals_str(&line, "%") {
            return ;
        }
        if starts_with_vec(&line, "METRIC") || equals_str(&line, "M71") {
            self.units = Units::Millimeter;
            if !self.explicit_format {
                self.format.integer = 3;
                self.format.decimal = 3;
            }
            self.format.trailing_zero_omission = contains_vec(&line, "LZ");
            return ;
        }
        if starts_with_vec(&line, "INCH") || equals_str(&line, "M72") {
            self.units = Units::Inch;
            if !self.explicit_format {
                self.format.integer = 2;
                self.format.decimal = 4;
            }
            self.format.trailing_zero_omission = contains_vec(&line, "LZ");
            return ;
        }
        if equals_str(&line, "G90") {
            self.incremental = false;
            return ;
        }
        if equals_str(&line, "G91") {
            self.incremental = true;
            return ;
        }
        if line[0] == 'T' && has_char(&line, 'C') {
            self.tool_definition(&line, out);
            return ;
        }
        if line[0] == 'T' {
            let n = count_leading_digits(&line, 1);
            if n + 1 == line.len() {
                proof {
                    crate::text::lemma_leading_digits_all(line@.skip(1));
                }
                assert(line@.subrange(1, line.len() as int) =~= line@.skip(1));
                self.current_tool = match parse_unsigned_in(&line, 1, line.len(), 0xffff_ffff) {
                    Some(c) => Some(c as u32),
                    None => None,
                };
                return ;
            }
            proof {
                crate::text::lemma_leading_digits_all(line@.skip(1));
            }
        }
        if equals_str(&line, "M30") || equals_str(&line, "M00") || equals_str(&line, "M02") {
            self.ended = true;
            return ;
        }
        if let Some(k) = find_str(&line, "G85") {
            proof {
                reveal_strlit("G85");
                let c = choose|i: int|
                    occurs_at(line@, "G85"@, i) && forall|j: int|
                        0 <= j < i ==> !occurs_at(line@, "G85"@, j);
                assert(occurs_at(line@, "G85"@, k as int));
                // Both `c` and `k` are first occurrences, so neither lies before the other.
                assert(c == k);
                assert(first_g85(line@) == Some(k as int));
            }
            let start = slice_vec(&line, 0, k);
            let end = slice_vec(&line, k + 3, line.len());
            assert(start@ =~= line@.take(k as int));
            assert(end@ =~= line@.skip(k + 3));
            let start_x = field_number_of(&start, 'X', self.format);
            let start_y = field_number_of(&start, 'Y', self.format);
            let end_x = field_number_of(&end, 'X', self.format);
            let end_y = field_number_of(&end, 'Y', self.format);
            push_drill(
                out,
                DrillAction::Slot {
                    start_x,
                    start_y,
                    end_x,
                    end_y,
                    units: self.units,
                    incremental: self.incremental,
                    tool: self.current_tool,
                },
            );
            assert(drill_actions_view(out@) =~= o0 + spec_drill_line(*old(self), raw@).1);
            return ;
        }
        if has_char(&line, 'X') || has_char(&line, 'Y') {
            let x = field_number_of(&line, 'X', self.format);
            let y = field_number_of(&line, 'Y', self.format);
            push_drill(
                out,
                DrillAction::Hit {
                    x,
                    y,
                    units: self.units,
                    incremental: self.incremental,
                    tool: self.current_tool,
                },
            );
            assert(drill_actions_view(out@) =~= o0 + spec_drill_line(*old(self), raw@).1);
        }
    }
}

/// The steps that a drill program gives.
#[derive(Debug, PartialEq)]
pub struct DrillPlan {
    pub actions: Vec<DrillAction>,
}

/// Applies one line, unless the program has ended.
fn step_line(state: &mut DrillState, line: &Vec<char>, out: &mut Vec<DrillAction>, Ghost(lines): Ghost<Seq<Seq<char>>>)
    requires
        lines.len() > 0,
        lines.last() == line@,
        *old(state) == spec_drill_run(initial_drill_state(), lines.drop_last()).0,
        drill_actions_view(old(out)@) == spec_drill_run(initial_drill_state(), lines.drop_last()).1,
    ensures
        *final(state) == spec_drill_run(initial_drill_state(), lines).0,
        drill_actions_view(final(out)@) == spec_drill_run(initial_drill_state(), lines).1,
{
    if !state.ended {
        state.process_line(line, out);
    }
}

/// Interprets an Excellon drill program: the steps that place its holes and slots.
pub fn plan_drill(source: &str) -> (r: DrillPlan)
    ensures
        drill_actions_view(r.actions@) == spec_drill_plan(source@).1,
{
    let s = chars_of(source);
    let mut state = DrillState::new();
    let mut out: Vec<DrillAction> = Vec::new();
    let mut line: Vec<char> = Vec::new();
    let mut i: usize = 0;
    assert(split_where(s@.take(0), newline()) =~= seq![Seq::<char>::empty()]);
    assert(drill_actions_view(out@) =~= Seq::<DrillActionModel>::empty());
    while i < s.len()
        invariant
            i <= s.len(),
            split_where(s@.take(i as int), newline()).len() >= 1,
            line@ == split_where(s@.take(i as int), newline()).last(),
            state == spec_drill_run(
                initial_drill_state(),
                split_where(s@.take(i as int), newline()).drop_last(),
            ).0,
            drill_actions_view(out@) == spec_drill_run(
                initial_drill_state(),
                split_where(s@.take(i as int), newline()).drop_last(),
            ).1,
        decreases s.len() - i,
    {
        let ghost prev = split_where(s@.take(i as int), newline());
        assert(s@.take(i + 1).drop_last() =~= s@.take(i as int));
        assert(s@.take(i + 1).last() == s@[i as int]);
        assert(s@.take(i + 1).len() > 0);
        if s[i] == '\n' {
            let ghost next = prev.push(Seq::<char>::empty());
            assert(split_where(s@.take(i + 1), newline()) == next);
            assert(next.drop_last() =~= prev);
            assert(prev.drop_last().push(prev.last()) =~= prev);
            step_line(&mut state, &line, &mut out, Ghost(prev));
            line = Vec::new();
        } else {
            let ghost next = prev.update(prev.len() - 1, prev.last().push(s@[i as int]));
            assert(split_where(s@.take(i + 1), newline()) == next);
            assert(next.drop_last() =~= prev.drop_last());
            line.push(s[i]);
        }
        i = i + 1;
    }
    assert(s@.take(s.len() as int) =~= s@);
    let ghost all = split_where(s@, newline());
    step_line(&mut state, &line, &mut out, Ghost(all));
    DrillPlan { actions: out }
}

proof fn lemma_ended_stays(m: DrillState, lines: Seq<Seq<char>>, more: Seq<Seq<char>>)
    requires
        spec_drill_run(m, lines).0.ended,
    ensures
        spec_drill_run(m, lines + more) == spec_drill_run(m, lines),
    decreases more.len(),
{
    if more.len() == 0 {
        assert(lines + more =~= lines);
    } else {
        lemma_ended_stays(m, lines, more.drop_last());
        assert((lines + more).drop_last() =~= lines + more.drop_last());
    }
}

/// An end-of-program line read before the end marks the program ended and gives no step.
proof fn lemma_end_line(m: DrillState, end: Seq<char>)
    requires
        !m.ended,
        end == "M30"@ || end == "M00"@ || end == "M02"@,
    ensures
        spec_drill_line(m, end) == (DrillState { ended: true, ..m }, Seq::<DrillActionModel>::empty()),
{
    reveal_strlit("M30");
    reveal_strlit("M00");
    reveal_strlit("M02");
    reveal_strlit(";FILE_FORMAT=");
    reveal_strlit("M48");
    reveal_strlit("%");
    reveal_strlit("METRIC");
    reveal_strlit("M71");
    reveal_strlit("INCH");
    reveal_strlit("M72");
    reveal_strlit("G90");
    reveal_strlit("G91");
    assert(end.len() == 3 && end[0] == 'M');
    assert(trim_start(end.drop_last().drop_last().drop_last()) == end.drop_last().drop_last().drop_last());
    assert(trim_start(end) == end);
    assert(trim_end(end) == end);
    assert(trim(end) == end);
    assert(to_upper(end) =~= end);
    assert(end.drop_first().drop_first().drop_first().len() == 0);
    assert(end.drop_first()[0] == end[1] && end.drop_first().drop_first()[0] == end[2]);
    reveal_with_fuel(first_index, 4);
    assert(first_index(end, ';') is None);
    assert(before_comment(end) == end);
    assert(!starts_with(end, "METRIC"@));
    assert(!starts_with(end, "INCH"@));
    assert(!starts_with(end, ";FILE_FORMAT="@));
    assert(end != "M48"@) by {
        assert(end[1] != "M48"@[1]);
    }
    assert(end != "M71"@) by {
        assert(end[1] != "M71"@[1]);
    }
    assert(end != "M72"@) by {
        assert(end[1] != "M72"@[1]);
    }
}

/// An empty line changes nothing.
proof fn lemma_empty_line(m: DrillState)
    ensures
        spec_drill_line(m, Seq::<char>::empty()) == (m, Seq::<DrillActionModel>::empty()),
{
    let e = Seq::<char>::empty();
    assert(trim(e) == e);
    assert(to_upper(e).len() == 0);
}

/// The end-of-program line `M30` (or `M00`, `M02`) ends the program: whatever lines follow it
/// change nothing.
pub proof fn lemma_end_of_program_stops(
    m: DrillState,
    lines: Seq<Seq<char>>,
    end: Seq<char>,
    more: Seq<Seq<char>>,
)
    requires
        end == "M30"@ || end == "M00"@ || end == "M02"@,
    ensures
        spec_drill_run(m, lines.push(end) + more) == spec_drill_run(m, lines.push(end)),
{
    let (m0, a0) = spec_drill_run(m, lines);
    assert(lines.push(end).drop_last() =~= lines);
    if !m0.ended {
        lemma_end_line(m0, end);
    }
    lemma_ended_stays(m, lines.push(end), more);
}

/// Each line of a drill program gives at most one step.
pub proof fn lemma_one_step_per_line(m: DrillState, line: Seq<char>)
    ensures
        spec_drill_line(m, line).1.len() <= 1,
{
}

/// How a program that holds a three-character line `end` at the start of a line is split into
/// lines: the lines before it, that line, then the lines of what follows it.
proof fn lemma_split_end_line(before: Seq<char>, end: Seq<char>, after: Seq<char>)
    requires
        before.len() == 0 || before.last() == '\n',
        end.len() == 3,
        end[0] != '\n' && end[1] != '\n' && end[2] != '\n',
    ensures
        split_where(before, newline()).len() >= 1,
        split_where(before, newline()).last() == Seq::<char>::empty(),
        split_where(before + end.push('\n') + after, newline()) == split_where(
            before,
            newline(),
        ).drop_last().push(end) + split_where(after, newline()),
        split_where(before + end, newline()) == split_where(before, newline()).drop_last().push(
            end,
        ),
{
    let nl = newline();
    let end_line = end.push('\n');
    lemma_split_where_nonempty(before, nl);
    lemma_split_where_nonempty(after, nl);
    let p = split_where(before, nl);
    assert(p.last() == Seq::<char>::empty()) by {
        if before.len() > 0 {
            assert(before =~= before.drop_last().push('\n'));
        }
    }
    reveal_with_fuel(split_where, 5);
    assert(end.take(0) =~= Seq::<char>::empty());
    assert(split_where(end.take(0), nl) =~= seq![end.take(0)]);
    assert(!nl(end[0]) && !nl(end[1]) && !nl(end[2]));
    assert(end.take(1).drop_last() =~= end.take(0));
    assert(end.take(1).last() == end[0]);
    assert(end.take(0).push(end[0]) =~= end.take(1));
    assert(split_where(end.take(1), nl) =~= seq![end.take(1)]);
    assert(end.take(2).drop_last() =~= end.take(1));
    assert(end.take(2).last() == end[1]);
    assert(end.take(1).push(end[1]) =~= end.take(2));
    assert(split_where(end.take(2), nl) =~= seq![end.take(2)]);
    assert(end.take(3).drop_last() =~= end.take(2));
    assert(end.take(3).last() == end[2]);
    assert(end.take(2).push(end[2]) =~= end.take(3));
    assert(end.take(3) =~= end);
    assert(split_where(end, nl) =~= seq![end]);
    assert(end_line.drop_last() =~= end);
    assert(split_where(end_line, nl) =~= seq![end, Seq::<char>::empty()]);
    let a = split_where(after, nl);
    lemma_split_where_concat(end_line, after, nl);
    let tail = split_where(end_line + after, nl);
    assert(Seq::<char>::empty() + a[0] =~= a[0]);
    assert(tail =~= seq![end] + a);
    lemma_split_where_concat(before, end_line + after, nl);
    assert(before + end_line + after =~= before + (end_line + after));
    assert(Seq::<char>::empty() + end =~= end);
    assert(split_where(before + end_line + after, nl) =~= p.drop_last().push(end) + a) by {
        assert(tail[0] == end);
        assert(tail.skip(1) =~= a);
    }
    lemma_split_where_concat(before, end, nl);
}

/// A program runs no further than its `M30` line: what follows the line changes nothing.
pub proof fn lemma_program_ends_at_m30(before: Seq<char>, after: Seq<char>)
    requires
        before.len() == 0 || before.last() == '\n',
    ensures
        spec_drill_plan(before + "M30\n"@ + after) == spec_drill_plan(before + "M30"@),
{
    reveal_strlit("M30\n");
    reveal_strlit("M30");
    let end = "M30"@;
    assert("M30\n"@ =~= end.push('\n'));
    lemma_split_end_line(before, end, after);
    let p = split_where(before, newline());
    lemma_end_of_program_stops(initial_drill_state(), p.drop_last(), end, split_where(after, newline()));
}

/// Nothing after an end-of-program line (`M30`, `M00` or `M02`) is read: the program cut just
/// before that line gives the same steps, and the same state but that the program is marked ended.
pub proof fn lemma_nothing_read_after_end(before: Seq<char>, end: Seq<char>, after: Seq<char>)
    requires
        before.len() == 0 || before.last() == '\n',
        end == "M30"@ || end == "M00"@ || end == "M02"@,
    ensures
        spec_drill_plan(before + end + "\n"@ + after).1 == spec_drill_plan(before).1,
        spec_drill_plan(before + end + "\n"@ + after).0 == (DrillState {
            ended: true,
            ..spec_drill_plan(before).0
        }),
{
    reveal_strlit("\n");
    reveal_strlit("M30");
    reveal_strlit("M00");
    reveal_strlit("M02");
    let nl = newline();
    assert(end + "\n"@ =~= end.push('\n'));
    assert(before + end + "\n"@ + after =~= before + end.push('\n') + after);
    lemma_split_end_line(before, end, after);
    let p = split_where(before, nl);
    let q = p.drop_last();
    let a = split_where(after, nl);
    lemma_end_of_program_stops(initial_drill_state(), q, end, a);
    assert(q.push(end).drop_last() =~= q);
    assert(p =~= q.push(Seq::<char>::empty()));
    assert(p.drop_last() =~= q);
    let (m0, a0) = spec_drill_run(initial_drill_state(), q);
    lemma_empty_line(m0);
    assert(a0 + Seq::<DrillActionModel>::empty() =~= a0);
    if !m0.ended {
        lemma_end_line(m0, end);
    }
}

/// A line as the interpreter reads it: trimmed, upper-cased, with its comment cut off.
pub open spec fn header_text(raw: Seq<char>) -> Seq<char> {
    trim(before_comment(to_upper(trim(raw))))
}

/// A unit header sets the units it names and reads its `LZ` flag: after a line that starts with
/// `INCH` (or is `M72`) coordinates are in inches, after one that starts with `METRIC` (or is
/// `M71`) in millimetres; trailing zeros count as omitted exactly when the line holds `LZ`; the
/// digit counts become 2.4 for inches and 3.3 for millimetres unless a `;FILE_FORMAT` comment set
/// them. The line gives no step and changes nothing else.
pub proof fn lemma_unit_header(m: DrillState, raw: Seq<char>)
    requires
        starts_with(header_text(raw), "INCH"@) || header_text(raw) == "M72"@ || starts_with(
            header_text(raw),
            "METRIC"@,
        ) || header_text(raw) == "M71"@,
    ensures
        ({
            let line = header_text(raw);
            let inch = starts_with(line, "INCH"@) || line == "M72"@;
            let r = spec_drill_line(m, raw);
            &&& r.1.len() == 0
            &&& r.0.units == (if inch {
                Units::Inch
            } else {
                Units::Millimeter
            })
            &&& r.0.format.trailing_zero_omission == contains(line, "LZ"@)
            &&& r.0.format.integer == (if m.explicit_format {
                m.format.integer
            } else if inch {
                2
            } else {
                3
            })
            &&& r.0.format.decimal == (if m.explicit_format {
                m.format.decimal
            } else if inch {
                4
            } else {
                3
            })
            &&& r.0.incremental == m.incremental
            &&& r.0.current_tool == m.current_tool
            &&& r.0.ended == m.ended
            &&& r.0.explicit_format == m.explicit_format
        }),
{
    reveal_strlit("INCH");
    reveal_strlit("M72");
    reveal_strlit("METRIC");
    reveal_strlit("M71");
    reveal_strlit("M48");
    reveal_strlit("%");
    reveal_strlit(";FILE_FORMAT=");
    let line = header_text(raw);
    assert(line.len() >= 3) by {
        if starts_with(line, "INCH"@) {
            assert(line.len() >= 4);
        }
        if starts_with(line, "METRIC"@) {
            assert(line.len() >= 6);
        }
    }
    lemma_read_line(raw);
    if starts_with(line, "INCH"@) {
        assert(line.take(4)[0] == 'I');
        assert(line[0] == 'I');
    } else if starts_with(line, "METRIC"@) {
        assert(line.take(6)[0] == 'M' && line.take(6)[1] == 'E');
        assert(line[1] == 'E');
        assert(line[1] != "M48"@[1]);
    } else {
        assert(line[1] == '7');
        assert(line[1] != "M48"@[1]);
    }
    assert(line != "M48"@ && line != "%"@);
    assert(starts_with(line, "INCH"@) ==> !starts_with(line, "METRIC"@) && line != "M71"@) by {
        if starts_with(line, "INCH"@) {
            assert(line.take(4)[0] == 'I');
            assert(line[0] == 'I');
            if starts_with(line, "METRIC"@) {
                assert(line.take(6)[0] == 'M');
            }
        }
    }
    assert(line == "M72"@ ==> !starts_with(line, "METRIC"@) && line != "M71"@) by {
        if line == "M72"@ {
            assert(line[2] != "M71"@[2]);
        }
    }
}

/// A coordinate written as digits alone has `decimal` digits after the implied point or, when
/// trailing zeros are omitted, all digits after the first `integer` ones: it is the digits read
/// as a whole number over ten to that power.
pub proof fn lemma_digit_coordinates(value: Seq<char>, format: DrillFormat)
    requires
        value.len() > 0,
        all_digits(value),
        value.len() <= i32::MAX,
        format.decimal <= i32::MAX,
    ensures
        spec_parse_number(value, format) matches NumberModel::Scaled {
            negative,
            mantissa,
            shift,
            divisor_exp,
        } && !negative && shift == 0 && (digits_value(value) <= i64::MAX ==> mantissa
            == digits_value(value)) && divisor_exp == (if format.trailing_zero_omission {
            if value.len() >= format.integer {
                value.len() - format.integer
            } else {
                0
            }
        } else {
            format.decimal as int
        }),
{
    assert(!value.contains('.')) by {
        if value.contains('.') {
            let i = choose|i: int| 0 <= i < value.len() && value[i] == '.';
            assert(is_digit(value[i]));
        }
    }
    assert(is_digit(value[0]));
    assert(strip_signs(value) == value);
    assert forall|i: int| 0 <= i < value.len() implies (#[trigger] value[i] as u32) < 128 by {
        assert(is_digit(value[i]));
    }
    lemma_utf8_len_ascii(value);
}

/// After an `INCH,LZ` header (with no `;FILE_FORMAT` comment before it) a coordinate of `d`
/// digits has `d - 2` of them after the point: `0125` reads as 1.25.
pub proof fn lemma_inch_trailing_zeros(m: DrillState, header: Seq<char>, value: Seq<char>)
    requires
        starts_with(header_text(header), "INCH"@),
        contains(header_text(header), "LZ"@),
        !m.explicit_format,
        value.len() >= 2,
        all_digits(value),
        value.len() <= i32::MAX,
    ensures
        spec_parse_number(value, spec_drill_line(m, header).0.format) matches NumberModel::Scaled {
            divisor_exp,
            ..
        } && divisor_exp == value.len() - 2,
{
    lemma_unit_header(m, header);
    lemma_digit_coordinates(value, spec_drill_line(m, header).0.format);
}

/// A line with text left after trimming and cutting its comment is neither empty nor a
/// `;FILE_FORMAT` comment.
proof fn lemma_read_line(raw: Seq<char>)
    requires
        header_text(raw).len() > 0,
    ensures
        to_upper(trim(raw)).len() > 0,
        !starts_with(to_upper(trim(raw)), ";FILE_FORMAT="@),
{
    reveal_strlit(";FILE_FORMAT=");
    let upper = to_upper(trim(raw));
    let e = Seq::<char>::empty();
    assert(trim(e) == e);
    if upper.len() == 0 {
        assert(first_index(upper, ';') is None);
        assert(before_comment(upper) == upper);
    }
    if starts_with(upper, ";FILE_FORMAT="@) {
        assert(upper[0] == upper.take(13)[0]);
        assert(first_index(upper, ';') == Some(0int));
        assert(before_comment(upper) =~= e);
    }
}

/// Every step of a line is read in the state before it: hits, slots and tool definitions carry
/// its units; hits and slots its coordinate mode and its selected tool; a hit takes its
/// coordinates from the line's `X` and `Y` values read with its digit format.
pub proof fn lemma_drill_steps_follow_state(m: DrillState, raw: Seq<char>)
    ensures
        forall|i: int|
            0 <= i < spec_drill_line(m, raw).1.len() ==> match #[trigger] spec_drill_line(
                m,
                raw,
            ).1[i] {
                DrillActionModel::Hit { x, y, units, incremental, tool } => {
                    &&& units == m.units
                    &&& incremental == m.incremental
                    &&& tool == m.current_tool
                    &&& x == field_number(header_text(raw), 'X', m.format)
                    &&& y == field_number(header_text(raw), 'Y', m.format)
                },
                DrillActionModel::Slot { units, incremental, tool, .. } => {
                    &&& units == m.units
                    &&& incremental == m.incremental
                    &&& tool == m.current_tool
                },
                DrillActionModel::DefineTool { units, .. } => units == m.units,
            },
{
}

/// `G90` and `G91` select absolute and incremental coordinates; `T<n>` selects tool `n`. These
/// lines give no step.
pub proof fn lemma_drill_mode_lines(m: DrillState, raw: Seq<char>, digits: Seq<char>)
    ensures
        header_text(raw) == "G90"@ ==> !spec_drill_line(m, raw).0.incremental
            && spec_drill_line(m, raw).1.len() == 0,
        header_text(raw) == "G91"@ ==> spec_drill_line(m, raw).0.incremental
            && spec_drill_line(m, raw).1.len() == 0,
        header_text(raw) == seq!['T'] + digits && digits.len() > 0 && all_digits(digits)
            && digits_value(digits) <= u32::MAX ==> spec_drill_line(m, raw).0.current_tool == Some(
            digits_value(digits) as u32,
        ) && spec_drill_line(m, raw).1.len() == 0,
{
    reveal_strlit("G90");
    reveal_strlit("G91");
    reveal_strlit("M48");
    reveal_strlit("%");
    reveal_strlit("METRIC");
    reveal_strlit("M71");
    reveal_strlit("INCH");
    reveal_strlit("M72");
    let line = header_text(raw);
    if line == "G90"@ || line == "G91"@ {
        lemma_read_line(raw);
        assert(line[0] == 'G');
        assert(!starts_with(line, "METRIC"@) && !starts_with(line, "INCH"@));
        assert(line != "M48"@ && line != "%"@ && line != "M71"@ && line != "M72"@) by {
            assert(line[0] != "M48"@[0]);
        }
        assert(line == "G90"@ ==> line != "G91"@) by {
            assert("G90"@[2] != "G91"@[2]);
        }
    }
    if line == seq!['T'] + digits && digits.len() > 0 && all_digits(digits) && digits_value(digits)
        <= u32::MAX {
        lemma_read_line(raw);
        assert(line[0] == 'T');
        assert(!starts_with(line, "METRIC"@)) by {
            if starts_with(line, "METRIC"@) {
                assert(line.take(6)[0] == line[0]);
            }
        }
        assert(!starts_with(line, "INCH"@)) by {
            if starts_with(line, "INCH"@) {
                assert(line.take(4)[0] == line[0]);
            }
        }
        assert(line != "M48"@ && line != "%"@ && line != "M71"@ && line != "M72"@ && line
            != "G90"@ && line != "G91"@) by {
            assert(line[0] != "M48"@[0]);
            assert(line[0] != "G90"@[0]);
            assert(line[0] != "%"@[0]);
        }
        assert(!line.contains('C')) by {
            if line.contains('C') {
                let i = choose|i: int| 0 <= i < line.len() && line[i] == 'C';
                assert(i > 0);
                assert(line[i] == digits[i - 1]);
            }
        }
        assert(line.skip(1) =~= digits);
    }
}

} // verus!
