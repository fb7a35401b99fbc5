//! Properties of whole Gerber plans: the warnings, aperture macros, clear polarity and letter
//! case.
use vstd::prelude::*;
use crate::gerber::{
    is_markup, nonempty_trimmed, spec_commands, spec_fields, star, strip_markup, values_named,
};
use crate::gerber_machine::{
    apply_g, apply_gs, clear_key, clear_message, finish_macro, finish_region, initial_model,
    macro_aperture_key, macro_aperture_message, macros_key, macros_message, spec_aperture,
    spec_command, spec_d_and_move, spec_operate, spec_plan, spec_process, spec_run, warn_once,
    ActionModel, GerberModel,
};
use crate::text::{
    contains, is_ws, lemma_split_where_nonempty, occurs_at, split_where, starts_with, to_upper,
    trim, trim_end, trim_start, upper_char,
};

verus! {

/// Some warning mentions `key`.
pub open spec fn mentions(warnings: Seq<Seq<char>>, key: Seq<char>) -> bool {
    exists|i: int| 0 <= i < warnings.len() && contains(#[trigger] warnings[i], key)
}

/// One command adds at most one warning, and only one whose key no earlier warning mentions;
/// the clear-polarity warning comes only from an `LPC` command.
pub open spec fn warning_step(before: Seq<Seq<char>>, after: Seq<Seq<char>>, token: Seq<char>) -> bool {
    ||| after == before
    ||| after == before.push(macros_message()) && !mentions(before, macros_key()) && starts_with(
        token,
        "AM"@,
    )
    ||| after == before.push(macro_aperture_message()) && !mentions(before, macro_aperture_key())
        && starts_with(token, "ADD"@)
    ||| after == before.push(clear_message()) && !mentions(before, clear_key()) && token == "LPC"@
}

proof fn lemma_messages_mention_keys()
    ensures
        contains(macros_message(), macros_key()),
        contains(macro_aperture_message(), macro_aperture_key()),
        contains(clear_message(), clear_key()),
{
    reveal_strlit("aperture macros");
    reveal_strlit("Gerber aperture macros are approximated from their primitive bounds.");
    reveal_strlit("clear polarity");
    reveal_strlit("Gerber clear polarity is currently omitted from the SVG preview.");
    reveal_strlit("macro aperture");
    reveal_strlit("A macro aperture was approximated as a circle.");
    assert(macros_message().subrange(7, 22) =~= macros_key());
    assert(occurs_at(macros_message(), macros_key(), 7));
    assert(macro_aperture_message().subrange(2, 16) =~= macro_aperture_key());
    assert(occurs_at(macro_aperture_message(), macro_aperture_key(), 2));
    assert(clear_message().subrange(7, 21) =~= clear_key());
    assert(occurs_at(clear_message(), clear_key(), 7));
}

proof fn lemma_messages_distinct()
    ensures
        macros_message() != clear_message(),
        macro_aperture_message() != clear_message(),
        macros_message() != macro_aperture_message(),
{
    reveal_strlit("Gerber aperture macros are approximated from their primitive bounds.");
    reveal_strlit("Gerber clear polarity is currently omitted from the SVG preview.");
    reveal_strlit("A macro aperture was approximated as a circle.");
    assert(macros_message().len() != clear_message().len());
    assert(macro_aperture_message().len() != clear_message().len());
    assert(macros_message().len() != macro_aperture_message().len());
}

proof fn lemma_gs_keep_warnings(m: GerberModel, values: Seq<Seq<char>>)
    ensures
        apply_gs(m, values).0.warnings == m.warnings,
        apply_gs(m, values).0.active_macro == m.active_macro,
    decreases values.len(),
{
    if values.len() > 0 {
        lemma_gs_keep_warnings(m, values.drop_last());
    }
}

proof fn lemma_operate_keeps_warnings(m: GerberModel, token: Seq<char>)
    ensures
        spec_operate(m, token).0.warnings == m.warnings,
        spec_operate(m, token).0.active_macro == m.active_macro,
{
    let fields = spec_fields(token);
    lemma_gs_keep_warnings(m, values_named(fields, 'G'));
}

proof fn lemma_warn_once_step(m: GerberModel, key: Seq<char>, message: Seq<char>)
    ensures
        warn_once(m, key, message).warnings == m.warnings || (warn_once(m, key, message).warnings
            == m.warnings.push(message) && !mentions(m.warnings, key)),
{
}

/// How one command changes the warnings.
pub proof fn lemma_process_warning_step(m: GerberModel, command: Seq<char>)
    ensures
        warning_step(m.warnings, spec_process(m, command).0.warnings, to_upper(trim(command))),
{
    let token = to_upper(trim(command));
    let m1 = finish_macro(m).0;
    assert(m1.warnings == m.warnings);
    reveal_strlit("AM");
    reveal_strlit("LPC");
    reveal_strlit("LPD");
    reveal_strlit("ADD");
    reveal_strlit("MOMM");
    reveal_strlit("MOIN");
    reveal_strlit("FS");
    lemma_operate_keeps_warnings(m1, token);
    lemma_warn_once_step(
        crate::gerber_machine::GerberModel { active_macro: Some(token.skip(2)), ..m1 },
        macros_key(),
        macros_message(),
    );
    lemma_warn_once_step(m1, macro_aperture_key(), macro_aperture_message());
    lemma_warn_once_step(
        crate::gerber_machine::GerberModel { dark_polarity: false, ..m1 },
        clear_key(),
        clear_message(),
    );
}

/// The warnings are distinct, each one of the three messages.
pub open spec fn warnings_well_formed(ws: Seq<Seq<char>>) -> bool {
    &&& ws.no_duplicates()
    &&& forall|i: int|
        0 <= i < ws.len() ==> #[trigger] ws[i] == macros_message() || ws[i]
            == macro_aperture_message() || ws[i] == clear_message()
}

proof fn lemma_step_keeps_well_formed(before: Seq<Seq<char>>, after: Seq<Seq<char>>, token: Seq<char>)
    requires
        warnings_well_formed(before),
        warning_step(before, after, token),
    ensures
        warnings_well_formed(after),
{
    lemma_messages_mention_keys();
    if after != before {
        let msg = after.last();
        assert(after == before.push(msg));
        assert(!before.contains(msg)) by {
            if before.contains(msg) {
                let i = choose|i: int| 0 <= i < before.len() && before[i] == msg;
                assert(contains(before[i], macros_key()) || contains(before[i], macro_aperture_key())
                    || contains(before[i], clear_key()));
            }
        }
        assert forall|i: int, j: int| 0 <= i < j < after.len() implies after[i] != after[j] by {
            if j == after.len() - 1 {
                assert(after[i] == before[i]);
            } else {
                assert(after[i] == before[i] && after[j] == before[j]);
            }
        }
        assert forall|i: int| 0 <= i < after.len() implies #[trigger] after[i] == macros_message()
            || after[i] == macro_aperture_message() || after[i] == clear_message() by {
            if i < before.len() {
                assert(after[i] == before[i]);
            }
        }
    }
}

pub proof fn lemma_run_warnings_well_formed(m: GerberModel, cmds: Seq<Seq<char>>)
    requires
        warnings_well_formed(m.warnings),
    ensures
        warnings_well_formed(spec_run(m, cmds).0.warnings),
    decreases cmds.len(),
{
    if cmds.len() > 0 {
        lemma_run_warnings_well_formed(m, cmds.drop_last());
        let m0 = spec_run(m, cmds.drop_last()).0;
        lemma_process_warning_step(m0, cmds.last());
        lemma_step_keeps_well_formed(
            m0.warnings,
            spec_process(m0, cmds.last()).0.warnings,
            to_upper(trim(cmds.last())),
        );
    }
}

/// No warning of a Gerber file is repeated, and each is one of the three preview warnings:
/// aperture macros approximated, clear polarity omitted, unknown aperture drawn as a circle.
pub proof fn lemma_plan_warnings_distinct(source: Seq<char>)
    ensures
        warnings_well_formed(spec_plan(source).0.warnings),
{
    assert(warnings_well_formed(initial_model().warnings));
    lemma_run_warnings_well_formed(initial_model(), spec_commands(source));
}

proof fn lemma_step_keeps_mention(before: Seq<Seq<char>>, after: Seq<Seq<char>>, token: Seq<char>, key: Seq<char>)
    requires
        warning_step(before, after, token),
        mentions(before, key),
    ensures
        mentions(after, key),
{
    let i = choose|i: int| 0 <= i < before.len() && contains(#[trigger] before[i], key);
    if after != before {
        assert(after[i] == before[i]);
    }
}

/// The text that the interpreter reads of a command: trimmed and upper-cased.
pub open spec fn token_of(command: Seq<char>) -> Seq<char> {
    to_upper(trim(command))
}

pub open spec fn has_token(cmds: Seq<Seq<char>>, token: Seq<char>) -> bool {
    exists|k: int| 0 <= k < cmds.len() && token_of(#[trigger] cmds[k]) == token
}

pub open spec fn has_token_prefix(cmds: Seq<Seq<char>>, prefix: Seq<char>) -> bool {
    exists|k: int| 0 <= k < cmds.len() && starts_with(token_of(#[trigger] cmds[k]), prefix)
}

proof fn lemma_lpc_warns(m: GerberModel, command: Seq<char>)
    requires
        token_of(command) == "LPC"@,
    ensures
        mentions(spec_process(m, command).0.warnings, clear_key()),
{
    lemma_messages_mention_keys();
    reveal_strlit("AM");
    reveal_strlit("LPC");
    reveal_strlit("LPD");
    reveal_strlit("ADD");
    reveal_strlit("MOMM");
    reveal_strlit("MOIN");
    reveal_strlit("FS");
    reveal_strlit("G04");
    reveal_strlit("TF");
    reveal_strlit("TA");
    reveal_strlit("TD");
    let token = token_of(command);
    assert(!token.contains(','));
    let m1 = finish_macro(m).0;
    let m2 = crate::gerber_machine::GerberModel { dark_polarity: false, ..m1 };
    let after = warn_once(m2, clear_key(), clear_message());
    assert(token.take(2) != "AM"@) by {
        assert(token.take(2)[0] != "AM"@[0]);
    }
    assert(!crate::gerber_machine::is_skipped(token)) by {
        assert(token.take(3) != "G04"@) by {
            assert(token.take(3)[0] != "G04"@[0]);
        }
        assert(token.take(2) != "TF"@) by {
            assert(token.take(2)[0] != "TF"@[0]);
        }
        assert(token.take(2) != "TA"@) by {
            assert(token.take(2)[1] != "TA"@[1]);
        }
        assert(token.take(2) != "TD"@) by {
            assert(token.take(2)[0] != "TD"@[0]);
        }
    }
    assert(token.take(2) != "FS"@) by {
        assert(token.take(2)[0] != "FS"@[0]);
    }
    assert(token.take(3) != "ADD"@) by {
        assert(token.take(3)[0] != "ADD"@[0]);
    }
    assert(token != "MOMM"@);
    assert(token != "MOIN"@);
    assert(token != "LPD"@) by {
        assert(token[2] != "LPD"@[2]);
    }
    assert(spec_command(m1, token).0 == after);
    assert(spec_process(m, command).0 == after);
    if !mentions(m2.warnings, clear_key()) {
        assert(after.warnings.last() == clear_message());
        assert(contains(after.warnings[after.warnings.len() - 1], clear_key()));
    }
}

proof fn lemma_am_warns(m: GerberModel, command: Seq<char>)
    requires
        starts_with(token_of(command), "AM"@),
    ensures
        mentions(spec_process(m, command).0.warnings, macros_key()),
{
    lemma_messages_mention_keys();
    reveal_strlit("AM");
    let token = token_of(command);
    assert(token.take(2)[0] == token[0]);
    assert(token[0] == 'A');
    assert(!crate::text::is_digit(token[0]) && token[0] != '$');
    let m1 = finish_macro(m).0;
    let m2 = crate::gerber_machine::GerberModel { active_macro: Some(token.skip(2)), ..m1 };
    let after = warn_once(m2, macros_key(), macros_message());
    if !mentions(m2.warnings, macros_key()) {
        assert(after.warnings.last() == macros_message());
        assert(contains(after.warnings[after.warnings.len() - 1], macros_key()));
    }
}

proof fn lemma_run_clear_warning(m: GerberModel, cmds: Seq<Seq<char>>)
    ensures
        has_token(cmds, "LPC"@) ==> mentions(spec_run(m, cmds).0.warnings, clear_key()),
        spec_run(m, cmds).0.warnings.contains(clear_message()) ==> m.warnings.contains(
            clear_message(),
        ) || has_token(cmds, "LPC"@),
    decreases cmds.len(),
{
    if cmds.len() > 0 {
        let prev = cmds.drop_last();
        let c = cmds.last();
        lemma_run_clear_warning(m, prev);
        let m0 = spec_run(m, prev).0;
        let m1 = spec_process(m0, c).0;
        lemma_process_warning_step(m0, c);
        lemma_messages_distinct();
        assert(c == cmds[cmds.len() - 1]);
        if has_token(cmds, "LPC"@) {
            let k = choose|k: int| 0 <= k < cmds.len() && token_of(#[trigger] cmds[k]) == "LPC"@;
            if k == cmds.len() - 1 {
                lemma_lpc_warns(m0, c);
            } else {
                assert(prev[k] == cmds[k]);
                lemma_step_keeps_mention(m0.warnings, m1.warnings, token_of(c), clear_key());
            }
        }
        if m1.warnings.contains(clear_message()) {
            let j = choose|j: int| 0 <= j < m1.warnings.len() && m1.warnings[j] == clear_message();
            if j < m0.warnings.len() {
                if m1.warnings != m0.warnings {
                    assert(m1.warnings[j] == m0.warnings[j]);
                }
                assert(m0.warnings[j] == clear_message());
                assert(m0.warnings.contains(clear_message()));
                if !m.warnings.contains(clear_message()) {
                    let k = choose|k: int|
                        0 <= k < prev.len() && token_of(#[trigger] prev[k]) == "LPC"@;
                    assert(cmds[k] == prev[k]);
                }
            } else {
                assert(m1.warnings != m0.warnings);
                assert(m1.warnings.last() == clear_message());
                assert(token_of(c) == "LPC"@);
            }
        }
    }
}

proof fn lemma_run_macro_warning(m: GerberModel, cmds: Seq<Seq<char>>)
    ensures
        has_token_prefix(cmds, "AM"@) ==> mentions(spec_run(m, cmds).0.warnings, macros_key()),
        spec_run(m, cmds).0.warnings.contains(macros_message()) ==> m.warnings.contains(
            macros_message(),
        ) || has_token_prefix(cmds, "AM"@),
    decreases cmds.len(),
{
    if cmds.len() > 0 {
        let prev = cmds.drop_last();
        let c = cmds.last();
        lemma_run_macro_warning(m, prev);
        let m0 = spec_run(m, prev).0;
        let m1 = spec_process(m0, c).0;
        lemma_process_warning_step(m0, c);
        lemma_messages_distinct();
        assert(c == cmds[cmds.len() - 1]);
        if has_token_prefix(cmds, "AM"@) {
            let k = choose|k: int| 0 <= k < cmds.len() && starts_with(token_of(#[trigger] cmds[k]), "AM"@);
            if k == cmds.len() - 1 {
                lemma_am_warns(m0, c);
            } else {
                assert(prev[k] == cmds[k]);
                lemma_step_keeps_mention(m0.warnings, m1.warnings, token_of(c), macros_key());
            }
        }
        if m1.warnings.contains(macros_message()) {
            let j = choose|j: int| 0 <= j < m1.warnings.len() && m1.warnings[j] == macros_message();
            if j < m0.warnings.len() {
                if m1.warnings != m0.warnings {
                    assert(m1.warnings[j] == m0.warnings[j]);
                }
                assert(m0.warnings[j] == macros_message());
                assert(m0.warnings.contains(macros_message()));
                if !m.warnings.contains(macros_message()) {
                    let k = choose|k: int|
                        0 <= k < prev.len() && starts_with(token_of(#[trigger] prev[k]), "AM"@);
                    assert(cmds[k] == prev[k]);
                }
            } else {
                assert(m1.warnings != m0.warnings);
                assert(m1.warnings.last() == macros_message());
                assert(starts_with(token_of(c), "AM"@));
            }
        }
    }
}

/// A file with a clear-polarity (`LPC`) command gets the warning that clear polarity is left out
/// of the preview; and that warning comes only from such a command.
pub proof fn lemma_clear_polarity_warning(source: Seq<char>)
    ensures
        has_token(spec_commands(source), "LPC"@) ==> mentions(
            spec_plan(source).0.warnings,
            clear_key(),
        ),
        spec_plan(source).0.warnings.contains(clear_message()) ==> has_token(
            spec_commands(source),
            "LPC"@,
        ),
{
    lemma_run_clear_warning(initial_model(), spec_commands(source));
}

/// A file with an aperture macro definition (`AM`) gets the warning that macros are
/// approximated; and that warning comes only from such a command.
pub proof fn lemma_macro_warning(source: Seq<char>)
    ensures
        has_token_prefix(spec_commands(source), "AM"@) ==> mentions(
            spec_plan(source).0.warnings,
            macros_key(),
        ),
        spec_plan(source).0.warnings.contains(macros_message()) ==> has_token_prefix(
            spec_commands(source),
            "AM"@,
        ),
{
    lemma_run_macro_warning(initial_model(), spec_commands(source));
}

/// Number of steps that open an aperture macro.
pub open spec fn count_begin_macro(a: Seq<ActionModel>) -> nat
    decreases a.len(),
{
    if a.len() == 0 {
        0
    } else {
        count_begin_macro(a.drop_last()) + if a.last() is BeginMacro {
            1nat
        } else {
            0nat
        }
    }
}

/// Number of steps that close an aperture macro.
pub open spec fn count_finish_macro(a: Seq<ActionModel>) -> nat
    decreases a.len(),
{
    if a.len() == 0 {
        0
    } else {
        count_finish_macro(a.drop_last()) + if a.last() is FinishMacro {
            1nat
        } else {
            0nat
        }
    }
}

pub proof fn lemma_counts_concat(a: Seq<ActionModel>, b: Seq<ActionModel>)
    ensures
        count_begin_macro(a + b) == count_begin_macro(a) + count_begin_macro(b),
        count_finish_macro(a + b) == count_finish_macro(a) + count_finish_macro(b),
    decreases b.len(),
{
    if b.len() == 0 {
        assert(a + b =~= a);
    } else {
        lemma_counts_concat(a, b.drop_last());
        assert((a + b).drop_last() =~= a + b.drop_last());
        assert((a + b).last() == b.last());
    }
}

proof fn lemma_counts_single(x: ActionModel)
    ensures
        count_begin_macro(seq![x]) == if x is BeginMacro {
            1nat
        } else {
            0nat
        },
        count_finish_macro(seq![x]) == if x is FinishMacro {
            1nat
        } else {
            0nat
        },
        count_begin_macro(Seq::empty()) == 0,
        count_finish_macro(Seq::empty()) == 0,
{
    let s = seq![x];
    assert(s.len() == 1);
    assert(s.drop_last() =~= Seq::<ActionModel>::empty());
    assert(s.last() == x);
    assert(count_begin_macro(s.drop_last()) == 0);
    assert(count_finish_macro(s.drop_last()) == 0);
}

/// Steps that neither open nor close a macro.
pub open spec fn macro_neutral(a: Seq<ActionModel>) -> bool {
    forall|i: int| 0 <= i < a.len() ==> !(#[trigger] a[i] is BeginMacro) && !(a[i] is FinishMacro)
}

proof fn lemma_neutral_counts(a: Seq<ActionModel>)
    requires
        macro_neutral(a),
    ensures
        count_begin_macro(a) == 0,
        count_finish_macro(a) == 0,
    decreases a.len(),
{
    if a.len() > 0 {
        assert(a.last() == a[a.len() - 1]);
        assert forall|i: int| 0 <= i < a.drop_last().len() implies !(#[trigger] a.drop_last()[i] is BeginMacro)
            && !(a.drop_last()[i] is FinishMacro) by {
            assert(a.drop_last()[i] == a[i]);
        }
        lemma_neutral_counts(a.drop_last());
    }
}

proof fn lemma_gs_neutral(m: GerberModel, values: Seq<Seq<char>>)
    ensures
        macro_neutral(apply_gs(m, values).1),
        apply_gs(m, values).0.active_macro == m.active_macro,
        apply_gs(m, values).0.dark_polarity == m.dark_polarity,
    decreases values.len(),
{
    if values.len() > 0 {
        lemma_gs_neutral(m, values.drop_last());
        let (m0, a0, c0) = apply_gs(m, values.drop_last());
        let a1 = apply_g(m0, crate::gerber_machine::g_code(values.last())).1;
        let a = a0 + a1;
        assert forall|i: int| 0 <= i < a.len() implies !(#[trigger] a[i] is BeginMacro) && !(a[i] is FinishMacro) by {
            if i >= a0.len() {
                assert(a[i] == a1[i - a0.len()]);
            } else {
                assert(a[i] == a0[i]);
            }
        }
    }
}

proof fn lemma_operate_neutral(m: GerberModel, token: Seq<char>)
    ensures
        macro_neutral(spec_operate(m, token).1),
        spec_operate(m, token).0.active_macro == m.active_macro,
{
    let fields = spec_fields(token);
    lemma_gs_neutral(m, values_named(fields, 'G'));
    let (m1, a1, close) = apply_gs(m, values_named(fields, 'G'));
    let (m2, a2) = if close {
        finish_region(m1)
    } else {
        (m1, Seq::empty())
    };
    let (m3, a3) = spec_d_and_move(m2, fields);
    let a = a1 + a2 + a3;
    assert forall|i: int| 0 <= i < a.len() implies !(#[trigger] a[i] is BeginMacro) && !(a[i] is FinishMacro) by {
        if i < a1.len() {
            assert(a[i] == a1[i]);
        } else if i < a1.len() + a2.len() {
            assert(a[i] == a2[i - a1.len()]);
        } else {
            assert(a[i] == a3[i - a1.len() - a2.len()]);
        }
    }
}

pub open spec fn open_count(m: GerberModel) -> nat {
    if m.active_macro is Some {
        1
    } else {
        0
    }
}

proof fn lemma_process_macro_balance(m: GerberModel, command: Seq<char>)
    ensures
        count_begin_macro(spec_process(m, command).1) + open_count(m) == count_finish_macro(
            spec_process(m, command).1,
        ) + open_count(spec_process(m, command).0),
{
    let token = token_of(command);
    if m.active_macro is Some && crate::gerber::spec_is_macro_primitive(token) {
        lemma_counts_single(ActionModel::MacroPrimitive { parameters: crate::gerber_machine::macro_parameters(token) });
    } else {
        let (m1, a1) = finish_macro(m);
        let (m2, a2) = spec_command(m1, token);
        lemma_counts_concat(a1, a2);
        lemma_counts_single(ActionModel::FinishMacro { units: m.units });
        assert(m1.active_macro is None);
        if starts_with(token, "AM"@) {
            lemma_counts_single(ActionModel::BeginMacro { name: token.skip(2) });
        } else {
            lemma_operate_neutral(m1, token);
            if starts_with(token, "ADD"@) && !crate::gerber_machine::is_skipped(token) {
                let r = spec_aperture(m1, token);
                assert(macro_neutral(r.1));
            }
            assert(macro_neutral(a2));
            lemma_neutral_counts(a2);
        }
    }
}

proof fn lemma_run_macro_balance(m: GerberModel, cmds: Seq<Seq<char>>)
    ensures
        count_begin_macro(spec_run(m, cmds).1) + open_count(m) == count_finish_macro(
            spec_run(m, cmds).1,
        ) + open_count(spec_run(m, cmds).0),
    decreases cmds.len(),
{
    if cmds.len() == 0 {
    } else {
        lemma_run_macro_balance(m, cmds.drop_last());
        let (m0, a0) = spec_run(m, cmds.drop_last());
        lemma_process_macro_balance(m0, cmds.last());
        lemma_counts_concat(a0, spec_process(m0, cmds.last()).1);
    }
}

/// Every aperture macro that a file opens is closed exactly once: a plan has as many steps that
/// close a macro as steps that open one, and at its end no macro and no region is left open.
pub proof fn lemma_macros_balanced(source: Seq<char>)
    ensures
        count_begin_macro(spec_plan(source).1) == count_finish_macro(spec_plan(source).1),
        spec_plan(source).0.active_macro is None,
        !spec_plan(source).0.region_active,
{
    let (m0, a0) = spec_run(initial_model(), spec_commands(source));
    lemma_run_macro_balance(initial_model(), spec_commands(source));
    let (m1, a1) = finish_macro(m0);
    let (m2, a2) = finish_region(m1);
    lemma_counts_concat(a0, a1);
    lemma_counts_concat(a0 + a1, a2);
    lemma_counts_single(ActionModel::FinishMacro { units: m0.units });
    lemma_counts_single(ActionModel::FinishRegion { keep: m1.dark_polarity });
}

/// A step that puts something on the preview: a track, an arc, a flash or a kept region.
pub open spec fn draws(a: ActionModel) -> bool {
    match a {
        ActionModel::Operate { op, .. } => op is Line || op is Arc || op is Flash,
        ActionModel::FinishRegion { keep } => keep,
        _ => false,
    }
}

pub open spec fn draws_nothing(a: Seq<ActionModel>) -> bool {
    forall|i: int| 0 <= i < a.len() ==> !draws(#[trigger] a[i])
}

proof fn lemma_draws_nothing_concat(a: Seq<ActionModel>, b: Seq<ActionModel>)
    requires
        draws_nothing(a),
        draws_nothing(b),
    ensures
        draws_nothing(a + b),
{
    assert forall|i: int| 0 <= i < (a + b).len() implies !draws(#[trigger] (a + b)[i]) by {
        if i < a.len() {
            assert((a + b)[i] == a[i]);
        } else {
            assert((a + b)[i] == b[i - a.len()]);
        }
    }
}

proof fn lemma_gs_draw_nothing(m: GerberModel, values: Seq<Seq<char>>)
    ensures
        draws_nothing(apply_gs(m, values).1),
    decreases values.len(),
{
    if values.len() > 0 {
        lemma_gs_draw_nothing(m, values.drop_last());
        let (m0, a0, c0) = apply_gs(m, values.drop_last());
        let a1 = apply_g(m0, crate::gerber_machine::g_code(values.last())).1;
        lemma_draws_nothing_concat(a0, a1);
    }
}

/// Under clear polarity no single command draws: whatever the command (`LPD` among them), the
/// steps it gives put nothing on the preview, and only `LPD` makes the polarity dark again.
pub proof fn lemma_clear_polarity_command_draws_nothing(m: GerberModel, command: Seq<char>)
    requires
        !m.dark_polarity,
    ensures
        draws_nothing(spec_process(m, command).1),
        token_of(command) != "LPD"@ ==> !spec_process(m, command).0.dark_polarity,
{
    let token = token_of(command);
    if m.active_macro is Some && crate::gerber::spec_is_macro_primitive(token) {
    } else {
        let (m1, a1) = finish_macro(m);
        let (m2, a2) = spec_command(m1, token);
        if !starts_with(token, "AM"@) && !crate::gerber_machine::is_skipped(token) && !starts_with(
            token,
            "FS"@,
        ) && token != "MOMM"@ && token != "MOIN"@ && !starts_with(token, "ADD"@) && token
            != "LPD"@ && token != "LPC"@ {
            let fields = spec_fields(token);
            lemma_gs_neutral(m1, values_named(fields, 'G'));
            lemma_gs_draw_nothing(m1, values_named(fields, 'G'));
            let (g1, ga, close) = apply_gs(m1, values_named(fields, 'G'));
            let (g2, gb) = if close {
                finish_region(g1)
            } else {
                (g1, Seq::empty())
            };
            let (g3, gc) = spec_d_and_move(g2, fields);
            lemma_draws_nothing_concat(ga, gb);
            lemma_draws_nothing_concat(ga + gb, gc);
        }
        lemma_draws_nothing_concat(a1, a2);
    }
}

pub proof fn lemma_run_split(m: GerberModel, a: Seq<Seq<char>>, b: Seq<Seq<char>>)
    ensures
        spec_run(m, a + b).0 == spec_run(spec_run(m, a).0, b).0,
        spec_run(m, a + b).1 == spec_run(m, a).1 + spec_run(spec_run(m, a).0, b).1,
    decreases b.len(),
{
    if b.len() == 0 {
        assert(a + b =~= a);
        assert(spec_run(m, a).1 + Seq::<ActionModel>::empty() =~= spec_run(m, a).1);
    } else {
        lemma_run_split(m, a, b.drop_last());
        assert((a + b).drop_last() =~= a + b.drop_last());
        assert((a + b).last() == b.last());
        let m0 = spec_run(m, a).0;
        let x = spec_run(m, a).1;
        let y = spec_run(m0, b.drop_last()).1;
        let z = spec_process(spec_run(m0, b.drop_last()).0, b.last()).1;
        assert(x + y + z =~= x + (y + z));
    }
}

proof fn lemma_run_clear(m: GerberModel, cmds: Seq<Seq<char>>)
    requires
        !m.dark_polarity,
        forall|k: int| 0 <= k < cmds.len() ==> token_of(#[trigger] cmds[k]) != "LPD"@,
    ensures
        !spec_run(m, cmds).0.dark_polarity,
        draws_nothing(spec_run(m, cmds).1),
    decreases cmds.len(),
{
    if cmds.len() > 0 {
        assert forall|k: int| 0 <= k < cmds.drop_last().len() implies token_of(
            #[trigger] cmds.drop_last()[k],
        ) != "LPD"@ by {
            assert(cmds.drop_last()[k] == cmds[k]);
        }
        lemma_run_clear(m, cmds.drop_last());
        let (m0, a0) = spec_run(m, cmds.drop_last());
        assert(cmds.last() == cmds[cmds.len() - 1]);
        lemma_clear_polarity_command_draws_nothing(m0, cmds.last());
        lemma_draws_nothing_concat(a0, spec_process(m0, cmds.last()).1);
    }
}

/// Clear polarity is left out of the preview: a file that starts with `LPC` and never returns
/// to dark polarity (`LPD`) draws nothing.
pub proof fn lemma_clear_polarity_draws_nothing(source: Seq<char>)
    requires
        spec_commands(source).len() > 0,
        token_of(spec_commands(source)[0]) == "LPC"@,
        forall|k: int|
            0 <= k < spec_commands(source).len() ==> token_of(#[trigger] spec_commands(source)[k])
                != "LPD"@,
    ensures
        draws_nothing(spec_plan(source).1),
{
    let cmds = spec_commands(source);
    let first = cmds.take(1);
    let rest = cmds.skip(1);
    assert(first + rest =~= cmds);
    lemma_run_split(initial_model(), first, rest);
    assert(first.drop_last() =~= Seq::<Seq<char>>::empty());
    assert(first.last() == cmds[0]);
    lemma_process_clear_start(initial_model(), cmds[0]);
    assert(spec_run(initial_model(), first.drop_last()).0 == initial_model());
    assert(spec_run(initial_model(), first.drop_last()).1 =~= Seq::<ActionModel>::empty());
    let p = spec_process(initial_model(), cmds[0]);
    assert(spec_run(initial_model(), first).0 == p.0);
    assert(spec_run(initial_model(), first).1 =~= Seq::<ActionModel>::empty() + p.1);
    assert(Seq::<ActionModel>::empty() + p.1 =~= p.1);
    let m1 = spec_run(initial_model(), first).0;
    assert forall|k: int| 0 <= k < rest.len() implies token_of(#[trigger] rest[k]) != "LPD"@ by {
        assert(rest[k] == cmds[k + 1]);
    }
    lemma_run_clear(m1, rest);
    let (m2, a2) = spec_run(initial_model(), cmds);
    let (m3, a3) = finish_macro(m2);
    let (m4, a4) = finish_region(m3);
    lemma_draws_nothing_concat(spec_run(initial_model(), first).1, spec_run(m1, rest).1);
    lemma_draws_nothing_concat(a2, a3);
    lemma_draws_nothing_concat(a2 + a3, a4);
}

proof fn lemma_process_clear_start(m: GerberModel, command: Seq<char>)
    requires
        token_of(command) == "LPC"@,
    ensures
        !spec_process(m, command).0.dark_polarity,
        draws_nothing(spec_process(m, command).1),
{
    reveal_strlit("AM");
    reveal_strlit("LPC");
    reveal_strlit("LPD");
    reveal_strlit("ADD");
    reveal_strlit("MOMM");
    reveal_strlit("MOIN");
    reveal_strlit("FS");
    reveal_strlit("G04");
    reveal_strlit("TF");
    reveal_strlit("TA");
    reveal_strlit("TD");
    let token = token_of(command);
    assert(!token.contains(','));
    assert(token.take(2) != "AM"@) by {
        assert(token.take(2)[0] != "AM"@[0]);
    }
    assert(!crate::gerber_machine::is_skipped(token)) by {
        assert(token.take(3) != "G04"@) by {
            assert(token.take(3)[0] != "G04"@[0]);
        }
        assert(token.take(2) != "TF"@) by {
            assert(token.take(2)[0] != "TF"@[0]);
        }
        assert(token.take(2) != "TA"@) by {
            assert(token.take(2)[1] != "TA"@[1]);
        }
        assert(token.take(2) != "TD"@) by {
            assert(token.take(2)[0] != "TD"@[0]);
        }
    }
    assert(token.take(2) != "FS"@) by {
        assert(token.take(2)[0] != "FS"@[0]);
    }
    assert(token.take(3) != "ADD"@) by {
        assert(token.take(3)[0] != "ADD"@[0]);
    }
    assert(token != "MOMM"@);
    assert(token != "MOIN"@);
    assert(token != "LPD"@) by {
        assert(token[2] != "LPD"@[2]);
    }
    let (m1, a1) = finish_macro(m);
    lemma_draws_nothing_concat(a1, Seq::empty());
}

proof fn lemma_upper_char_facts(c: char)
    ensures
        is_ws(upper_char(c)) == is_ws(c),
        is_markup(upper_char(c)) == is_markup(c),
        (upper_char(c) == '*') == (c == '*'),
        upper_char(upper_char(c)) == upper_char(c),
{
    if 'a' <= c && c <= 'z' {
        assert(upper_char(c) as u32 == (c as u32) - 32);
    }
}

proof fn lemma_upper_drop_last(s: Seq<char>)
    requires
        s.len() > 0,
    ensures
        to_upper(s).drop_last() == to_upper(s.drop_last()),
        to_upper(s).last() == upper_char(s.last()),
{
    assert(to_upper(s).drop_last() =~= to_upper(s.drop_last()));
}

proof fn lemma_strip_markup_upper(s: Seq<char>)
    ensures
        strip_markup(to_upper(s)) == to_upper(strip_markup(s)),
    decreases s.len(),
{
    if s.len() == 0 {
        assert(to_upper(s) =~= s);
    } else {
        lemma_strip_markup_upper(s.drop_last());
        lemma_upper_drop_last(s);
        lemma_upper_char_facts(s.last());
        assert(to_upper(strip_markup(s.drop_last()).push(s.last())) =~= to_upper(
            strip_markup(s.drop_last()),
        ).push(upper_char(s.last())));
    }
}

pub open spec fn upper_all(ps: Seq<Seq<char>>) -> Seq<Seq<char>> {
    ps.map_values(|p: Seq<char>| to_upper(p))
}

proof fn lemma_split_upper(s: Seq<char>)
    ensures
        split_where(to_upper(s), star()) == upper_all(split_where(s, star())),
    decreases s.len(),
{
    lemma_split_where_nonempty(s, star());
    if s.len() == 0 {
        assert(to_upper(s) =~= s);
        assert(to_upper(Seq::<char>::empty()) =~= Seq::<char>::empty());
        assert(upper_all(seq![Seq::<char>::empty()])[0] == to_upper(Seq::<char>::empty()));
        assert(upper_all(seq![Seq::<char>::empty()]) =~= seq![Seq::<char>::empty()]);
    } else {
        lemma_split_upper(s.drop_last());
        lemma_split_where_nonempty(s.drop_last(), star());
        lemma_upper_drop_last(s);
        lemma_upper_char_facts(s.last());
        let prev = split_where(s.drop_last(), star());
        if s.last() == '*' {
            assert(upper_all(prev.push(Seq::<char>::empty())) =~= upper_all(prev).push(
                Seq::<char>::empty(),
            )) by {
                assert(to_upper(Seq::<char>::empty()) =~= Seq::<char>::empty());
            }
        } else {
            let up = upper_all(prev);
            assert(to_upper(prev.last().push(s.last())) =~= up.last().push(upper_char(s.last())));
            assert(upper_all(prev.update(prev.len() - 1, prev.last().push(s.last()))) =~= up.update(
                up.len() - 1,
                up.last().push(upper_char(s.last())),
            ));
        }
    }
}

proof fn lemma_trim_start_upper(s: Seq<char>)
    ensures
        trim_start(to_upper(s)) == to_upper(trim_start(s)),
    decreases s.len(),
{
    if s.len() > 0 {
        lemma_upper_char_facts(s[0]);
        assert(to_upper(s)[0] == upper_char(s[0]));
        if is_ws(s[0]) {
            assert(to_upper(s).drop_first() =~= to_upper(s.drop_first()));
            lemma_trim_start_upper(s.drop_first());
        }
    }
}

proof fn lemma_trim_end_upper(s: Seq<char>)
    ensures
        trim_end(to_upper(s)) == to_upper(trim_end(s)),
    decreases s.len(),
{
    if s.len() > 0 {
        lemma_upper_char_facts(s.last());
        lemma_upper_drop_last(s);
        if is_ws(s.last()) {
            lemma_trim_end_upper(s.drop_last());
        }
    }
}

proof fn lemma_trim_upper(s: Seq<char>)
    ensures
        trim(to_upper(s)) == to_upper(trim(s)),
{
    lemma_trim_start_upper(s);
    lemma_trim_end_upper(trim_start(s));
}

proof fn lemma_nonempty_trimmed_upper(ps: Seq<Seq<char>>)
    ensures
        nonempty_trimmed(upper_all(ps)) == upper_all(nonempty_trimmed(ps)),
    decreases ps.len(),
{
    if ps.len() == 0 {
        assert(upper_all(ps) =~= ps);
        assert(upper_all(Seq::<Seq<char>>::empty()) =~= Seq::<Seq<char>>::empty());
    } else {
        lemma_nonempty_trimmed_upper(ps.drop_last());
        assert(upper_all(ps).drop_last() =~= upper_all(ps.drop_last()));
        assert(upper_all(ps).last() == to_upper(ps.last()));
        lemma_trim_upper(ps.last());
        let rest = nonempty_trimmed(ps.drop_last());
        assert(upper_all(rest.push(trim(ps.last()))) =~= upper_all(rest).push(
            to_upper(trim(ps.last())),
        ));
    }
}

proof fn lemma_commands_upper(source: Seq<char>)
    ensures
        spec_commands(to_upper(source)) == upper_all(spec_commands(source)),
{
    lemma_strip_markup_upper(source);
    lemma_split_upper(strip_markup(source));
    lemma_nonempty_trimmed_upper(split_where(strip_markup(source), star()));
}

proof fn lemma_token_upper(c: Seq<char>)
    ensures
        token_of(to_upper(c)) == token_of(c),
{
    lemma_trim_upper(c);
    assert forall|i: int| 0 <= i < trim(c).len() implies upper_char(upper_char(trim(c)[i]))
        == upper_char(trim(c)[i]) by {
        lemma_upper_char_facts(trim(c)[i]);
    }
    assert(to_upper(to_upper(trim(c))) =~= to_upper(trim(c)));
}

proof fn lemma_run_upper(m: GerberModel, cmds: Seq<Seq<char>>)
    ensures
        spec_run(m, upper_all(cmds)) == spec_run(m, cmds),
    decreases cmds.len(),
{
    if cmds.len() > 0 {
        lemma_run_upper(m, cmds.drop_last());
        assert(upper_all(cmds).drop_last() =~= upper_all(cmds.drop_last()));
        assert(upper_all(cmds).last() == to_upper(cmds.last()));
        lemma_token_upper(cmds.last());
    } else {
        assert(upper_all(cmds) =~= cmds);
    }
}

/// Gerber files are read without regard to letter case: upper-casing the whole file gives the
/// same steps and the same warnings.
pub proof fn lemma_plan_ignores_case(source: Seq<char>)
    ensures
        spec_plan(to_upper(source)) == spec_plan(source),
{
    lemma_commands_upper(source);
    lemma_run_upper(initial_model(), spec_commands(source));
}

} // verus!
