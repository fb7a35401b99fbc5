//! Layer purpose from a file's name, extension and, for `.txt` files, its contents.
use vstd::prelude::*;
use crate::text::{
    chars_of, contains, contains_vec, equals_str, has_char, lower_char, lower_vec, slice_vec,
    split_where, to_lower, to_upper, trim, trimmed, upper_char, upper_vec,
};

verus! {

/// The purpose of one fabrication file.
#[derive(Debug, Clone, Copy, PartialEq, Eq, Structural)]
pub enum LayerKind {
    Drill,
    TopCopper,
    BottomCopper,
    InnerCopper,
    TopSoldermask,
    BottomSoldermask,
    TopSilkscreen,
    BottomSilkscreen,
    TopPaste,
    BottomPaste,
    Outline,
    Gerber,
}

/// How a layer is named, labelled and drawn.
pub struct LayerIdentity {
    pub kind: &'static str,
    pub label: &'static str,
    pub color: &'static str,
    pub is_drill: bool,
}

pub open spec fn kind_text(k: LayerKind) -> Seq<char> {
    match k {
        LayerKind::Drill => "drill"@,
        LayerKind::TopCopper => "top-copper"@,
        LayerKind::BottomCopper => "bottom-copper"@,
        LayerKind::InnerCopper => "inner-copper"@,
        LayerKind::TopSoldermask => "top-soldermask"@,
        LayerKind::BottomSoldermask => "bottom-soldermask"@,
        LayerKind::TopSilkscreen => "top-silkscreen"@,
        LayerKind::BottomSilkscreen => "bottom-silkscreen"@,
        LayerKind::TopPaste => "top-paste"@,
        LayerKind::BottomPaste => "bottom-paste"@,
        LayerKind::Outline => "outline"@,
        LayerKind::Gerber => "gerber"@,
    }
}

pub open spec fn label_text(k: LayerKind) -> Seq<char> {
    match k {
        LayerKind::Drill => "Drill"@,
        LayerKind::TopCopper => "Top copper"@,
        LayerKind::BottomCopper => "Bottom copper"@,
        LayerKind::InnerCopper => "Inner copper"@,
        LayerKind::TopSoldermask => "Top soldermask"@,
        LayerKind::BottomSoldermask => "Bottom soldermask"@,
        LayerKind::TopSilkscreen => "Top silkscreen"@,
        LayerKind::BottomSilkscreen => "Bottom silkscreen"@,
        LayerKind::TopPaste => "Top paste"@,
        LayerKind::BottomPaste => "Bottom paste"@,
        LayerKind::Outline => "Board outline"@,
        LayerKind::Gerber => "Gerber"@,
    }
}

pub open spec fn color_text(k: LayerKind) -> Seq<char> {
    match k {
        LayerKind::Drill => "#67a6ff"@,
        LayerKind::TopCopper => "#e7a33e"@,
        LayerKind::BottomCopper => "#cf7835"@,
        LayerKind::InnerCopper => "#c89d45"@,
        LayerKind::TopSoldermask => "#48a875"@,
        LayerKind::BottomSoldermask => "#2f7d5c"@,
        LayerKind::TopSilkscreen => "#f1f1ed"@,
        LayerKind::BottomSilkscreen => "#c9c9c5"@,
        LayerKind::TopPaste => "#aeb4bc"@,
        LayerKind::BottomPaste => "#8d949d"@,
        LayerKind::Outline => "#f5f5f7"@,
        LayerKind::Gerber => "#9d8cff"@,
    }
}

/// The identity describes the layer kind `k`.
pub open spec fn describes(id: LayerIdentity, k: LayerKind) -> bool {
    &&& id.kind@ == kind_text(k)
    &&& id.label@ == label_text(k)
    &&& id.color@ == color_text(k)
    &&& id.is_drill == (k == LayerKind::Drill)
}

/// What follows the last `.` of `s`, or all of `s` when it has none.
pub open spec fn extension(s: Seq<char>) -> Seq<char>
    decreases s.len(),
{
    if s.len() == 0 {
        Seq::empty()
    } else if s.last() == '.' {
        Seq::empty()
    } else {
        extension(s.drop_last()).push(s.last())
    }
}

/// The separator of `str::lines`.
pub open spec fn newline() -> spec_fn(char) -> bool {
    |c: char| c == '\n'
}

/// A line, once trimmed, that starts with `T` and holds a `C`: an Excellon tool definition.
pub open spec fn is_tool_line(line: Seq<char>) -> bool {
    let t = trim(line);
    t.len() > 0 && t[0] == 'T' && t.contains('C')
}

pub open spec fn has_tool_line(lines: Seq<Seq<char>>) -> bool {
    exists|i: int| 0 <= i < lines.len() && is_tool_line(#[trigger] lines[i])
}

/// The text reads as an Excellon program: it holds `M48`, or a tool definition line,
/// in any letter case.
pub open spec fn spec_looks_like_excellon(source: Seq<char>) -> bool {
    let upper = to_upper(source);
    contains(upper, "M48"@) || has_tool_line(split_where(upper, newline()))
}

pub open spec fn is_drill_name(lower: Seq<char>, ext: Seq<char>, source: Seq<char>) -> bool {
    ||| ext == "drl"@ || ext == "xln"@ || ext == "exc"@ || ext == "ncd"@
    ||| contains(lower, "-pth"@) || contains(lower, "_pth"@) || contains(lower, "-npth"@)
        || contains(lower, "_npth"@) || contains(lower, "drill"@)
    ||| ext == "txt"@ && spec_looks_like_excellon(source)
}

pub open spec fn is_top_copper_name(lower: Seq<char>, ext: Seq<char>) -> bool {
    ||| ext == "gtl"@
    ||| contains(lower, "f_cu"@) || contains(lower, "f.cu"@) || contains(lower, "top_copper"@)
        || contains(lower, "top-copper"@) || contains(lower, ".front.gbr"@) || contains(
        lower,
        "-front.gbr"@,
    )
}

pub open spec fn is_bottom_copper_name(lower: Seq<char>, ext: Seq<char>) -> bool {
    ||| ext == "gbl"@
    ||| contains(lower, "b_cu"@) || contains(lower, "b.cu"@) || contains(lower, "bottom_copper"@)
        || contains(lower, "bottom-copper"@) || contains(lower, ".back.gbr"@) || contains(
        lower,
        "-back.gbr"@,
    )
}

pub open spec fn is_inner_copper_name(lower: Seq<char>, ext: Seq<char>) -> bool {
    ||| ext == "g1"@ || ext == "g2"@ || ext == "g3"@ || ext == "g4"@
    ||| contains(lower, "in1_cu"@) || contains(lower, "in2_cu"@) || contains(lower, "inner"@)
}

pub open spec fn is_top_mask_name(lower: Seq<char>, ext: Seq<char>) -> bool {
    ||| ext == "gts"@
    ||| contains(lower, "f_mask"@) || contains(lower, "f.mask"@) || contains(lower, "top_mask"@)
        || contains(lower, "top-mask"@)
}

pub open spec fn is_bottom_mask_name(lower: Seq<char>, ext: Seq<char>) -> bool {
    ||| ext == "gbs"@
    ||| contains(lower, "b_mask"@) || contains(lower, "b.mask"@) || contains(lower, "bottom_mask"@)
        || contains(lower, "bottom-mask"@)
}

pub open spec fn is_top_silk_name(lower: Seq<char>, ext: Seq<char>) -> bool {
    ||| ext == "gto"@
    ||| contains(lower, "f_silkscreen"@) || contains(lower, "f_silk"@) || contains(lower, "f.silk"@)
        || contains(lower, "top_silk"@) || contains(lower, "frontsilk"@)
}

pub open spec fn is_bottom_silk_name(lower: Seq<char>, ext: Seq<char>) -> bool {
    ||| ext == "gbo"@
    ||| contains(lower, "b_silkscreen"@) || contains(lower, "b_silk"@) || contains(lower, "b.silk"@)
        || contains(lower, "bottom_silk"@) || contains(lower, "backsilk"@)
}

pub open spec fn is_top_paste_name(lower: Seq<char>, ext: Seq<char>) -> bool {
    ||| ext == "gtp"@
    ||| contains(lower, "f_paste"@) || contains(lower, "f.paste"@) || contains(lower, "top_paste"@)
}

pub open spec fn is_bottom_paste_name(lower: Seq<char>, ext: Seq<char>) -> bool {
    ||| ext == "gbp"@
    ||| contains(lower, "b_paste"@) || contains(lower, "b.paste"@) || contains(
        lower,
        "bottom_paste"@,
    )
}

pub open spec fn is_outline_name(lower: Seq<char>, ext: Seq<char>) -> bool {
    ||| ext == "gko"@ || ext == "gm1"@ || ext == "gml"@
    ||| contains(lower, "edge_cuts"@) || contains(lower, "edge.cuts"@) || contains(lower, "outline"@)
        || contains(lower, "board_edge"@)
}

/// The layer kind of a file: the first rule, in this order, that its lower-cased name matches.
pub open spec fn spec_layer_kind(file_name: Seq<char>, source: Seq<char>) -> LayerKind {
    let lower = to_lower(file_name);
    let ext = extension(lower);
    if is_drill_name(lower, ext, source) {
        LayerKind::Drill
    } else if is_top_copper_name(lower, ext) {
        LayerKind::TopCopper
    } else if is_bottom_copper_name(lower, ext) {
        LayerKind::BottomCopper
    } else if is_inner_copper_name(lower, ext) {
        LayerKind::InnerCopper
    } else if is_top_mask_name(lower, ext) {
        LayerKind::TopSoldermask
    } else if is_bottom_mask_name(lower, ext) {
        LayerKind::BottomSoldermask
    } else if is_top_silk_name(lower, ext) {
        LayerKind::TopSilkscreen
    } else if is_bottom_silk_name(lower, ext) {
        LayerKind::BottomSilkscreen
    } else if is_top_paste_name(lower, ext) {
        LayerKind::TopPaste
    } else if is_bottom_paste_name(lower, ext) {
        LayerKind::BottomPaste
    } else if is_outline_name(lower, ext) {
        LayerKind::Outline
    } else {
        LayerKind::Gerber
    }
}

/// A layer identity from its four parts.
pub fn identity(kind: &'static str, label: &'static str, color: &'static str, is_drill: bool) -> (r:
    LayerIdentity)
    ensures
        r.kind == kind,
        r.label == label,
        r.color == color,
        r.is_drill == is_drill,
{
    LayerIdentity { kind, label, color, is_drill }
}

/// The identity of layer kind `k`.
pub fn identity_of(k: LayerKind) -> (r: LayerIdentity)
    ensures
        describes(r, k),
{
    match k {
        LayerKind::Drill => identity("drill", "Drill", "#67a6ff", true),
        LayerKind::TopCopper => identity("top-copper", "Top copper", "#e7a33e", false),
        LayerKind::BottomCopper => identity("bottom-copper", "Bottom copper", "#cf7835", false),
        LayerKind::InnerCopper => identity("inner-copper", "Inner copper", "#c89d45", false),
        LayerKind::TopSoldermask => identity("top-soldermask", "Top soldermask", "#48a875", false),
        LayerKind::BottomSoldermask => identity(
            "bottom-soldermask",
            "Bottom soldermask",
            "#2f7d5c",
            false,
        ),
        LayerKind::TopSilkscreen => identity("top-silkscreen", "Top silkscreen", "#f1f1ed", false),
        LayerKind::BottomSilkscreen => identity(
            "bottom-silkscreen",
            "Bottom silkscreen",
            "#c9c9c5",
            false,
        ),
        LayerKind::TopPaste => identity("top-paste", "Top paste", "#aeb4bc", false),
        LayerKind::BottomPaste => identity("bottom-paste", "Bottom paste", "#8d949d", false),
        LayerKind::Outline => identity("outline", "Board outline", "#f5f5f7", false),
        LayerKind::Gerber => identity("gerber", "Gerber", "#9d8cff", false),
    }
}

/// What follows the last `.` of `v`.
fn extension_vec(v: &Vec<char>) -> (r: Vec<char>)
    ensures
        r@ == extension(v@),
{
    let mut start: usize = 0;
    let mut i: usize = 0;
    while i < v.len()
        invariant
            i <= v.len(),
            start <= i,
            extension(v@.take(i as int)) == v@.subrange(start as int, i as int),
        decreases v.len() - i,
    {
        assert(v@.take(i + 1).drop_last() =~= v@.take(i as int));
        if v[i] == '.' {
            start = i + 1;
            assert(v@.subrange(start as int, i + 1) =~= Seq::<char>::empty());
        } else {
            assert(v@.subrange(start as int, i + 1) =~= v@.subrange(start as int, i as int).push(
                v@[i as int],
            ));
        }
        i = i + 1;
    }
    assert(v@.take(v.len() as int) =~= v@);
    slice_vec(v, start, v.len())
}

fn is_tool_line_vec(line: &Vec<char>) -> (r: bool)
    ensures
        r == is_tool_line(line@),
{
    let t = trimmed(line);
    t.len() > 0 && t[0] == 'T' && has_char(&t, 'C')
}

/// Whether the text reads as an Excellon program.
pub fn looks_like_excellon(source: &str) -> (r: bool)
    ensures
        r == spec_looks_like_excellon(source@),
{
    let upper = upper_vec(&chars_of(source));
    if contains_vec(&upper, "M48") {
        return true;
    }
    
    let mut found = false;
    let mut line: Vec<char> = Vec::new();
    let mut i: usize = 0;
    assert(split_where(upper@.take(0), newline()) =~= seq![Seq::<char>::empty()]);
    while i < upper.len()
        invariant
            i <= upper.len(),
            split_where(upper@.take(i as int), newline()).len() >= 1,
            line@ == split_where(upper@.take(i as int), newline()).last(),
            found == has_tool_line(split_where(upper@.take(i as int), newline()).drop_last()),
        decreases upper.len() - i,
    {
        let ghost prev = split_where(upper@.take(i as int), newline());
        assert(upper@.take(i + 1).drop_last() =~= upper@.take(i as int));
        assert(upper@.take(i + 1).last() == upper@[i as int]);
        assert(upper@.take(i + 1).len() > 0);
        if upper[i] == '\n' {
            let t = is_tool_line_vec(&line);
            let ghost next = prev.push(Seq::<char>::empty());
            assert(next.drop_last() =~= prev);
            assert(split_where(upper@.take(i + 1), newline()) == next);
            assert(prev =~= prev.drop_last().push(prev.last()));
            proof {
                if t {
                    assert(is_tool_line(prev[prev.len() - 1]));
                } else if found {
                    let k = choose|k: int|
                        0 <= k < prev.drop_last().len() && is_tool_line(
                            #[trigger] prev.drop_last()[k],
                        );
                    assert(prev[k] == prev.drop_last()[k]);
                } else {
                    assert forall|k: int| 0 <= k < prev.len() implies !is_tool_line(
                        #[trigger] prev[k],
                    ) by {
                        if k < prev.len() - 1 {
                            assert(prev[k] == prev.drop_last()[k]);
                        }
                    }
                }
            }
            found = found || t;
            line = Vec::new();
        } else {
            let ghost next = prev.update(prev.len() - 1, prev.last().push(upper@[i as int]));
            assert(next.drop_last() =~= prev.drop_last());
            assert(split_where(upper@.take(i + 1), newline()) == next);
            line.push(upper[i]);
        }
        i = i + 1;
    }
    assert(upper@.take(upper.len() as int) =~= upper@);
    let ghost all = split_where(upper@, newline());
    let last = is_tool_line_vec(&line);
    proof {
        assert(all =~= all.drop_last().push(all.last()));
        if last {
            assert(is_tool_line(all[all.len() - 1]));
        } else if found {
            let k = choose|k: int|
                0 <= k < all.drop_last().len() && is_tool_line(#[trigger] all.drop_last()[k]);
            assert(all[k] == all.drop_last()[k]);
        } else {
            assert forall|k: int| 0 <= k < all.len() implies !is_tool_line(#[trigger] all[k]) by {
                if k < all.len() - 1 {
                    assert(all[k] == all.drop_last()[k]);
                }
            }
        }
    }
    found || last
}

fn top_copper(lower: &Vec<char>, ext: &Vec<char>) -> (r: bool)
    ensures
        r == is_top_copper_name(lower@, ext@),
{
    equals_str(ext, "gtl")
        || contains_vec(lower, "f_cu")
        || contains_vec(lower, "f.cu")
        || contains_vec(lower, "top_copper")
        || contains_vec(lower, "top-copper")
        || contains_vec(lower, ".front.gbr")
        || contains_vec(lower, "-front.gbr")
}

fn bottom_copper(lower: &Vec<char>, ext: &Vec<char>) -> (r: bool)
    ensures
        r == is_bottom_copper_name(lower@, ext@),
{
    equals_str(ext, "gbl")
        || contains_vec(lower, "b_cu")
        || contains_vec(lower, "b.cu")
        || contains_vec(lower, "bottom_copper")
        || contains_vec(lower, "bottom-copper")
        || contains_vec(lower, ".back.gbr")
        || contains_vec(lower, "-back.gbr")
}

fn inner_copper(lower: &Vec<char>, ext: &Vec<char>) -> (r: bool)
    ensures
        r == is_inner_copper_name(lower@, ext@),
{
    equals_str(ext, "g1")
        || equals_str(ext, "g2")
        || equals_str(ext, "g3")
        || equals_str(ext, "g4")
        || contains_vec(lower, "in1_cu")
        || contains_vec(lower, "in2_cu")
        || contains_vec(lower, "inner")
}

fn top_mask(lower: &Vec<char>, ext: &Vec<char>) -> (r: bool)
    ensures
        r == is_top_mask_name(lower@, ext@),
{
    equals_str(ext, "gts")
        || contains_vec(lower, "f_mask")
        || contains_vec(lower, "f.mask")
        || contains_vec(lower, "top_mask")
        || contains_vec(lower, "top-mask")
}

fn bottom_mask(lower: &Vec<char>, ext: &Vec<char>) -> (r: bool)
    ensures
        r == is_bottom_mask_name(lower@, ext@),
{
    equals_str(ext, "gbs")
        || contains_vec(lower, "b_mask")
        || contains_vec(lower, "b.mask")
        || contains_vec(lower, "bottom_mask")
        || contains_vec(lower, "bottom-mask")
}

fn top_silk(lower: &Vec<char>, ext: &Vec<char>) -> (r: bool)
    ensures
        r == is_top_silk_name(lower@, ext@),
{
    equals_str(ext, "gto")
        || contains_vec(lower, "f_silkscreen")
        || contains_vec(lower, "f_silk")
        || contains_vec(lower, "f.silk")
        || contains_vec(lower, "top_silk")
        || contains_vec(lower, "frontsilk")
}

fn bottom_silk(lower: &Vec<char>, ext: &Vec<char>) -> (r: bool)
    ensures
        r == is_bottom_silk_name(lower@, ext@),
{
    equals_str(ext, "gbo")
        || contains_vec(lower, "b_silkscreen")
        || contains_vec(lower, "b_silk")
        || contains_vec(lower, "b.silk")
        || contains_vec(lower, "bottom_silk")
        || contains_vec(lower, "backsilk")
}

fn top_paste(lower: &Vec<char>, ext: &Vec<char>) -> (r: bool)
    ensures
        r == is_top_paste_name(lower@, ext@),
{
    equals_str(ext, "gtp")
        || contains_vec(lower, "f_paste")
        || contains_vec(lower, "f.paste")
        || contains_vec(lower, "top_paste")
}

fn bottom_paste(lower: &Vec<char>, ext: &Vec<char>) -> (r: bool)
    ensures
        r == is_bottom_paste_name(lower@, ext@),
{
    equals_str(ext, "gbp")
        || contains_vec(lower, "b_paste")
        || contains_vec(lower, "b.paste")
        || contains_vec(lower, "bottom_paste")
}

fn outline(lower: &Vec<char>, ext: &Vec<char>) -> (r: bool)
    ensures
        r == is_outline_name(lower@, ext@),
{
    equals_str(ext, "gko")
        || equals_str(ext, "gm1")
        || equals_str(ext, "gml")
        || contains_vec(lower, "edge_cuts")
        || contains_vec(lower, "edge.cuts")
        || contains_vec(lower, "outline")
        || contains_vec(lower, "board_edge")
}

fn drill_name(lower: &Vec<char>, ext: &Vec<char>, source: &str) -> (r: bool)
    ensures
        r == is_drill_name(lower@, ext@, source@),
{
    equals_str(ext, "drl") || equals_str(ext, "xln") || equals_str(ext, "exc") || equals_str(
        ext,
        "ncd",
    ) || contains_vec(lower, "-pth") || contains_vec(lower, "_pth") || contains_vec(lower, "-npth")
        || contains_vec(lower, "_npth") || contains_vec(lower, "drill") || (equals_str(ext, "txt")
        && looks_like_excellon(source))
}

/// The layer kind of a file, from its name and, for `.txt` files, its contents.
pub fn layer_kind(file_name: &str, source: &str) -> (r: LayerKind)
    ensures
        r == spec_layer_kind(file_name@, source@),
{
    let lower = lower_vec(&chars_of(file_name));
    let ext = extension_vec(&lower);
    if drill_name(&lower, &ext, source) {
        LayerKind::Drill
    } else if top_copper(&lower, &ext) {
        LayerKind::TopCopper
    } else if bottom_copper(&lower, &ext) {
        LayerKind::BottomCopper
    } else if inner_copper(&lower, &ext) {
        LayerKind::InnerCopper
    } else if top_mask(&lower, &ext) {
        LayerKind::TopSoldermask
    } else if bottom_mask(&lower, &ext) {
        LayerKind::BottomSoldermask
    } else if top_silk(&lower, &ext) {
        LayerKind::TopSilkscreen
    } else if bottom_silk(&lower, &ext) {
        LayerKind::BottomSilkscreen
    } else if top_paste(&lower, &ext) {
        LayerKind::TopPaste
    } else if bottom_paste(&lower, &ext) {
        LayerKind::BottomPaste
    } else if outline(&lower, &ext) {
        LayerKind::Outline
    } else {
        LayerKind::Gerber
    }
}

/// Detects a layer's purpose from the file name and extension, and, for `.txt` files,
/// from whether the contents read as an Excellon program.
pub fn detect_layer(file_name: &str, source: &str) -> (r: LayerIdentity)
    ensures
        describes(r, spec_layer_kind(file_name@, source@)),
{
    identity_of(layer_kind(file_name, source))
}

/// Layer detection ignores the letter case of the file name: upper-casing the name
/// gives the same layer kind.
pub proof fn lemma_layer_kind_ignores_case(file_name: Seq<char>, source: Seq<char>)
    ensures
        spec_layer_kind(to_upper(file_name), source) == spec_layer_kind(file_name, source),
{
    assert forall|i: int| 0 <= i < file_name.len() implies lower_char(upper_char(file_name[i]))
        == lower_char(file_name[i]) by {
        let c = file_name[i];
        if 'a' <= c && c <= 'z' {
            assert(upper_char(c) as u32 == (c as u32) - 32);
        }
    }
    assert(to_lower(to_upper(file_name)) =~= to_lower(file_name));
}

/// A `.txt` file whose text holds `M48`, in any letter case, is a drill file.
pub proof fn lemma_txt_with_m48_is_drill(file_name: Seq<char>, source: Seq<char>)
    requires
        extension(to_lower(file_name)) == "txt"@,
        contains(to_upper(source), "M48"@),
    ensures
        spec_layer_kind(file_name, source) == LayerKind::Drill,
{
}

/// Each naming rule is honoured, in order: a file whose lower-cased name ends in one of a
/// kind's extensions or holds one of its keywords gets that kind unless an earlier rule claims
/// it, and a name that no rule claims is a plain Gerber layer.
pub proof fn lemma_layer_naming_rules(file_name: Seq<char>, source: Seq<char>)
    ensures
        ({
            let lower = to_lower(file_name);
            let ext = extension(lower);
            let k = spec_layer_kind(file_name, source);
            let drill = is_drill_name(lower, ext, source);
            let top_cu = is_top_copper_name(lower, ext);
            let bottom_cu = is_bottom_copper_name(lower, ext);
            let inner_cu = is_inner_copper_name(lower, ext);
            let top_mask = is_top_mask_name(lower, ext);
            let bottom_mask = is_bottom_mask_name(lower, ext);
            let top_silk = is_top_silk_name(lower, ext);
            let bottom_silk = is_bottom_silk_name(lower, ext);
            let top_paste = is_top_paste_name(lower, ext);
            let bottom_paste = is_bottom_paste_name(lower, ext);
            let outline = is_outline_name(lower, ext);
            &&& (
                ext == "drl"@
                || ext == "xln"@
                || ext == "exc"@
                || ext == "ncd"@
                || contains(lower, "-pth"@)
                || contains(lower, "_pth"@)
                || contains(lower, "-npth"@)
                || contains(lower, "_npth"@)
                || contains(lower, "drill"@)
                || ext == "txt"@ && spec_looks_like_excellon(source)
            ) ==> k == LayerKind::Drill
            &&& !drill && (
                ext == "gtl"@
                || contains(lower, "f_cu"@)
                || contains(lower, "f.cu"@)
                || contains(lower, "top_copper"@)
                || contains(lower, "top-copper"@)
                || contains(lower, ".front.gbr"@)
                || contains(lower, "-front.gbr"@)
            ) ==> k == LayerKind::TopCopper
            &&& !drill && !top_cu && (
                ext == "gbl"@
                || contains(lower, "b_cu"@)
                || contains(lower, "b.cu"@)
                || contains(lower, "bottom_copper"@)
                || contains(lower, "bottom-copper"@)
                || contains(lower, ".back.gbr"@)
                || contains(lower, "-back.gbr"@)
            ) ==> k == LayerKind::BottomCopper
            &&& !drill && !top_cu && !bottom_cu && (
                ext == "g1"@
                || ext == "g2"@
                || ext == "g3"@
                || ext == "g4"@
                || contains(lower, "in1_cu"@)
                || contains(lower, "in2_cu"@)
                || contains(lower, "inner"@)
            ) ==> k == LayerKind::InnerCopper
            &&& !drill && !top_cu && !bottom_cu && !inner_cu && (
                ext == "gts"@
                || contains(lower, "f_mask"@)
                || contains(lower, "f.mask"@)
                || contains(lower, "top_mask"@)
                || contains(lower, "top-mask"@)
            ) ==> k == LayerKind::TopSoldermask
            &&& !drill && !top_cu && !bottom_cu && !inner_cu && !top_mask && (
                ext == "gbs"@
                || contains(lower, "b_mask"@)
                || contains(lower, "b.mask"@)
                || contains(lower, "bottom_mask"@)
                || contains(lower, "bottom-mask"@)
            ) ==> k == LayerKind::BottomSoldermask
            &&& !drill && !top_cu && !bottom_cu && !inner_cu && !top_mask && !bottom_mask && (
                ext == "gto"@
                || contains(lower, "f_silkscreen"@)
                || contains(lower, "f_silk"@)
                || contains(lower, "f.silk"@)
                || contains(lower, "top_silk"@)
                || contains(lower, "frontsilk"@)
            ) ==> k == LayerKind::TopSilkscreen
            &&& !drill
                && !top_cu
                && !bottom_cu
                && !inner_cu
                && !top_mask
                && !bottom_mask
                && !top_silk
                && (
                ext == "gbo"@
                || contains(lower, "b_silkscreen"@)
                || contains(lower, "b_silk"@)
                || contains(lower, "b.silk"@)
                || contains(lower, "bottom_silk"@)
                || contains(lower, "backsilk"@)
            ) ==> k == LayerKind::BottomSilkscreen
            &&& !drill
                && !top_cu
                && !bottom_cu
                && !inner_cu
                && !top_mask
                && !bottom_mask
                && !top_silk
                && !bottom_silk
                && (
                ext == "gtp"@
                || contains(lower, "f_paste"@)
                || contains(lower, "f.paste"@)
                || contains(lower, "top_paste"@)
            ) ==> k == LayerKind::TopPaste
            &&& !drill
                && !top_cu
                && !bottom_cu
                && !inner_cu
                && !top_mask
                && !bottom_mask
                && !top_silk
                && !bottom_silk
                && !top_paste
                && (
                ext == "gbp"@
                || contains(lower, "b_paste"@)
                || contains(lower, "b.paste"@)
                || contains(lower, "bottom_paste"@)
            ) ==> k == LayerKind::BottomPaste
            &&& !drill
                && !top_cu
                && !bottom_cu
                && !inner_cu
                && !top_mask
                && !bottom_mask
                && !top_silk
                && !bottom_silk
                && !top_paste
                && !bottom_paste
                && (
                ext == "gko"@
                || ext == "gm1"@
                || ext == "gml"@
                || contains(lower, "edge_cuts"@)
                || contains(lower, "edge.cuts"@)
                || contains(lower, "outline"@)
                || contains(lower, "board_edge"@)
            ) ==> k == LayerKind::Outline
            &&& !drill
                && !top_cu
                && !bottom_cu
                && !inner_cu
                && !top_mask
                && !bottom_mask
                && !top_silk
                && !bottom_silk
                && !top_paste
                && !bottom_paste
                && !outline
                ==> k == LayerKind::Gerber
        }),
{
}

} // verus!
