//! RS-274X Gerber: splitting a file into commands, and the fields of one command.
use vstd::prelude::*;
use crate::number::{
    digits_or_zero, integer_parts, sat_add_usize, sat_sub, strip_signs, utf8_len, NumberModel,
    ParsedNumber,
};
use crate::text::{
    chars_of, find_char, first_index, has_char, is_alpha, is_ascii_alphabetic, is_ascii_digit,
    is_digit, is_ws, lemma_split_where_concat, lemma_split_where_nonempty, lemma_trim_ends,
    lemma_trim_is_subrange, split_where, string_from, trim, trim_bounds, trim_end, trim_start,
};

verus! {

/// Characters that carry no command content: the `%` extended-command delimiters and line breaks.
pub open spec fn is_markup(c: char) -> bool {
    c == '%' || c == '\r' || c == '\n'
}

/// `s` without its markup characters.
pub open spec fn strip_markup(s: Seq<char>) -> Seq<char>
    decreases s.len(),
{
    if s.len() == 0 {
        s
    } else if is_markup(s.last()) {
        strip_markup(s.drop_last())
    } else {
        strip_markup(s.drop_last()).push(s.last())
    }
}

/// The `*` that ends each Gerber command.
pub open spec fn star() -> spec_fn(char) -> bool {
    |c: char| c == '*'
}

/// The trimmed pieces that are not empty, in order.
pub open spec fn nonempty_trimmed(pieces: Seq<Seq<char>>) -> Seq<Seq<char>>
    decreases pieces.len(),
{
    if pieces.len() == 0 {
        Seq::empty()
    } else if trim(pieces.last()).len() > 0 {
        nonempty_trimmed(pieces.drop_last()).push(trim(pieces.last()))
    } else {
        nonempty_trimmed(pieces.drop_last())
    }
}

/// The commands of a Gerber file: with `%`, CR and LF removed, the text between `*`
/// terminators, trimmed, with empty ones left out.
pub open spec fn spec_commands(source: Seq<char>) -> Seq<Seq<char>> {
    nonempty_trimmed(split_where(strip_markup(source), star()))
}

pub open spec fn strings_view(v: Seq<String>) -> Seq<Seq<char>> {
    v.map_values(|s: String| s@)
}

/// A command as `commands` hands it out: not empty, with no white space at either end,
/// and holding neither the `*` terminator nor markup.
pub open spec fn is_clean_command(c: Seq<char>) -> bool {
    &&& c.len() > 0
    &&& !is_ws(c[0])
    &&& !is_ws(c.last())
    &&& forall|j: int| 0 <= j < c.len() ==> #[trigger] c[j] != '*' && !is_markup(c[j])
}

pub open spec fn free_of_markup(s: Seq<char>) -> bool {
    forall|j: int| 0 <= j < s.len() ==> !is_markup(#[trigger] s[j])
}

proof fn lemma_strip_markup_free(s: Seq<char>)
    ensures
        free_of_markup(strip_markup(s)),
    decreases s.len(),
{
    if s.len() > 0 {
        lemma_strip_markup_free(s.drop_last());
    }
}

proof fn lemma_pieces_free(s: Seq<char>)
    requires
        free_of_markup(s),
    ensures
        forall|k: int|
            0 <= k < split_where(s, star()).len() ==> {
                let p = #[trigger] split_where(s, star())[k];
                free_of_markup(p) && forall|j: int| 0 <= j < p.len() ==> #[trigger] p[j] != '*'
            },
    decreases s.len(),
{
    if s.len() > 0 {
        assert(free_of_markup(s.drop_last()));
        lemma_pieces_free(s.drop_last());
        lemma_split_where_nonempty(s.drop_last(), star());
        let prev = split_where(s.drop_last(), star());
        if s.last() != '*' {
            let last = prev.last().push(s.last());
            assert(last.drop_last() =~= prev[prev.len() - 1]);
            assert forall|j: int| 0 <= j < last.len() implies #[trigger] last[j] != '*'
                && !is_markup(last[j]) by {
                if j < last.len() - 1 {
                    assert(last[j] == prev[prev.len() - 1][j]);
                }
            }
        }
    }
}

proof fn lemma_nonempty_trimmed_clean(pieces: Seq<Seq<char>>)
    requires
        forall|k: int|
            0 <= k < pieces.len() ==> {
                let p = #[trigger] pieces[k];
                free_of_markup(p) && forall|j: int| 0 <= j < p.len() ==> #[trigger] p[j] != '*'
            },
    ensures
        forall|k: int|
            0 <= k < nonempty_trimmed(pieces).len() ==> is_clean_command(
                #[trigger] nonempty_trimmed(pieces)[k],
            ),
    decreases pieces.len(),
{
    if pieces.len() > 0 {
        let p = pieces.last();
        assert(p == pieces[pieces.len() - 1]);
        assert forall|k: int| 0 <= k < pieces.drop_last().len() implies {
            let q = #[trigger] pieces.drop_last()[k];
            free_of_markup(q) && forall|j: int| 0 <= j < q.len() ==> #[trigger] q[j] != '*'
        } by {
            assert(pieces.drop_last()[k] == pieces[k]);
        }
        lemma_nonempty_trimmed_clean(pieces.drop_last());
        lemma_trim_ends(p);
        lemma_trim_is_subrange(p);
        let (a, b) = choose|a: int, b: int| 0 <= a <= b <= p.len() && trim(p) == p.subrange(a, b);
        let t = trim(p);
        assert forall|j: int| 0 <= j < t.len() implies #[trigger] t[j] != '*' && !is_markup(t[j]) by {
            assert(t[j] == p[a + j]);
        }
        let prev = nonempty_trimmed(pieces.drop_last());
        if t.len() > 0 {
            assert(is_clean_command(t));
            assert forall|k: int| 0 <= k < prev.push(t).len() implies is_clean_command(
                #[trigger] prev.push(t)[k],
            ) by {
                if k < prev.len() {
                    assert(prev.push(t)[k] == prev[k]);
                }
            }
        }
    }
}

/// Every command of a file is clean.
pub proof fn lemma_commands_clean(source: Seq<char>)
    ensures
        forall|k: int|
            0 <= k < spec_commands(source).len() ==> is_clean_command(
                #[trigger] spec_commands(source)[k],
            ),
{
    lemma_strip_markup_free(source);
    lemma_pieces_free(strip_markup(source));
    lemma_nonempty_trimmed_clean(split_where(strip_markup(source), star()));
}

/// The commands written out as a Gerber file: each followed by its `*` terminator.
pub open spec fn join_commands(cmds: Seq<Seq<char>>) -> Seq<char>
    decreases cmds.len(),
{
    if cmds.len() == 0 {
        Seq::empty()
    } else {
        join_commands(cmds.drop_last()) + cmds.last().push('*')
    }
}

proof fn lemma_strip_markup_free_id(s: Seq<char>)
    requires
        free_of_markup(s),
    ensures
        strip_markup(s) == s,
    decreases s.len(),
{
    if s.len() > 0 {
        assert(free_of_markup(s.drop_last()));
        lemma_strip_markup_free_id(s.drop_last());
        assert(s.last() == s[s.len() - 1]);
        assert(s.drop_last().push(s.last()) =~= s);
    }
}

proof fn lemma_split_without_star(s: Seq<char>)
    requires
        forall|j: int| 0 <= j < s.len() ==> #[trigger] s[j] != '*',
    ensures
        split_where(s, star()) == seq![s],
    decreases s.len(),
{
    if s.len() == 0 {
        assert(s =~= Seq::<char>::empty());
    } else {
        assert(forall|j: int| 0 <= j < s.drop_last().len() ==> #[trigger] s.drop_last()[j] == s[j]);
        lemma_split_without_star(s.drop_last());
        assert(s.last() == s[s.len() - 1]);
        assert(!(star())(s.last()));
        assert(s.drop_last().push(s.last()) =~= s);
        assert(seq![s.drop_last()].update(0, s.drop_last().push(s.last())) =~= seq![s]);
    }
}

proof fn lemma_join_split(cmds: Seq<Seq<char>>)
    requires
        forall|k: int| 0 <= k < cmds.len() ==> is_clean_command(#[trigger] cmds[k]),
    ensures
        split_where(join_commands(cmds), star()) == cmds.push(Seq::<char>::empty()),
        free_of_markup(join_commands(cmds)),
    decreases cmds.len(),
{
    if cmds.len() == 0 {
        assert(split_where(Seq::<char>::empty(), star()) =~= seq![Seq::<char>::empty()]);
        assert(cmds.push(Seq::<char>::empty()) =~= seq![Seq::<char>::empty()]);
    } else {
        let prev = cmds.drop_last();
        let c = cmds.last();
        assert(c == cmds[cmds.len() - 1]);
        assert forall|k: int| 0 <= k < prev.len() implies is_clean_command(#[trigger] prev[k]) by {
            assert(prev[k] == cmds[k]);
        }
        lemma_join_split(prev);
        let jp = join_commands(prev);
        let tail = c.push('*');
        lemma_split_without_star(c);
        assert(tail.drop_last() =~= c);
        assert(split_where(tail, star()) == seq![c].push(Seq::<char>::empty()));
        lemma_split_where_concat(jp, tail, star());
        let sp = split_where(jp, star());
        assert(sp.drop_last() =~= prev);
        assert(sp.last() == Seq::<char>::empty());
        assert(Seq::<char>::empty() + c =~= c);
        assert(seq![c].push(Seq::<char>::empty()).skip(1) =~= seq![Seq::<char>::empty()]);
        assert(prev + seq![c] + seq![Seq::<char>::empty()] =~= cmds.push(Seq::<char>::empty()));
        assert forall|j: int| 0 <= j < (jp + tail).len() implies !is_markup(#[trigger] (jp + tail)[j]) by {
            if j < jp.len() {
                assert((jp + tail)[j] == jp[j]);
            } else if j < jp.len() + c.len() {
                assert((jp + tail)[j] == c[j - jp.len()]);
            } else {
                assert((jp + tail)[j] == '*');
            }
        }
    }
}

proof fn lemma_trim_clean(c: Seq<char>)
    requires
        is_clean_command(c),
    ensures
        trim(c) == c,
{
    assert(trim_start(c) == c);
    assert(trim_end(c) == c);
}

proof fn lemma_nonempty_trimmed_clean_id(cmds: Seq<Seq<char>>)
    requires
        forall|k: int| 0 <= k < cmds.len() ==> is_clean_command(#[trigger] cmds[k]),
    ensures
        nonempty_trimmed(cmds) == cmds,
        nonempty_trimmed(cmds.push(Seq::<char>::empty())) == cmds,
    decreases cmds.len(),
{
    if cmds.len() > 0 {
        assert forall|k: int| 0 <= k < cmds.drop_last().len() implies is_clean_command(
            #[trigger] cmds.drop_last()[k],
        ) by {
            assert(cmds.drop_last()[k] == cmds[k]);
        }
        lemma_nonempty_trimmed_clean_id(cmds.drop_last());
        assert(cmds.last() == cmds[cmds.len() - 1]);
        lemma_trim_clean(cmds.last());
        assert(cmds.drop_last().push(cmds.last()) =~= cmds);
    }
    let e = Seq::<char>::empty();
    assert(cmds.push(e).drop_last() =~= cmds);
    assert(trim_start(e) == e);
    assert(trim(e).len() == 0);
}

/// Splitting undoes writing out: clean commands, each followed by `*`, split back into the same
/// commands.
pub proof fn lemma_commands_of_joined(cmds: Seq<Seq<char>>)
    requires
        forall|k: int| 0 <= k < cmds.len() ==> is_clean_command(#[trigger] cmds[k]),
    ensures
        spec_commands(join_commands(cmds)) == cmds,
{
    lemma_join_split(cmds);
    lemma_strip_markup_free_id(join_commands(cmds));
    lemma_nonempty_trimmed_clean_id(cmds);
}

/// Splits a Gerber file into its commands.
pub fn commands(source: &str) -> (r: Vec<String>)
    ensures
        strings_view(r@) == spec_commands(source@),
        forall|k: int| 0 <= k < r.len() ==> is_clean_command(#[trigger] r@[k]@),
{
    proof {
        lemma_commands_clean(source@);
    }
    let s = chars_of(source);
    let mut out: Vec<String> = Vec::new();
    let mut current: Vec<char> = Vec::new();
    let mut i: usize = 0;
    assert(split_where(strip_markup(s@.take(0)), star()) =~= seq![Seq::<char>::empty()]);
    while i < s.len()
        invariant
            i <= s.len(),
            split_where(strip_markup(s@.take(i as int)), star()).len() >= 1,
            current@ == split_where(strip_markup(s@.take(i as int)), star()).last(),
            strings_view(out@) == nonempty_trimmed(
                split_where(strip_markup(s@.take(i as int)), star()).drop_last(),
            ),
        decreases s.len() - i,
    {
        let ghost t = strip_markup(s@.take(i as int));
        let ghost prev = split_where(t, star());
        let c = s[i];
        assert(s@.take(i + 1).drop_last() =~= s@.take(i as int));
        assert(s@.take(i + 1).last() == c);
        if c == '*' {
            assert(strip_markup(s@.take(i + 1)) == t.push(c));
            assert(t.push(c).drop_last() =~= t);
            let ghost next = prev.push(Seq::<char>::empty());
            assert(split_where(t.push(c), star()) == next);
            assert(next.drop_last() =~= prev);
            assert(prev =~= prev.drop_last().push(prev.last()));
            let (a, b) = trim_bounds(&current);
            if a < b {
                let cmd = string_from(&current, a, b);
                out.push(cmd);
                assert(strings_view(out@) =~= strings_view(out@.drop_last()).push(cmd@));
            }
            current = Vec::new();
        } else if c == '%' || c == '\r' || c == '\n' {
            assert(strip_markup(s@.take(i + 1)) == t);
        } else {
            assert(strip_markup(s@.take(i + 1)) == t.push(c));
            assert(t.push(c).drop_last() =~= t);
            let ghost next = prev.update(prev.len() - 1, prev.last().push(c));
            assert(split_where(t.push(c), star()) == next);
            assert(next.drop_last() =~= prev.drop_last());
            current.push(c);
        }
        i = i + 1;
    }
    assert(s@.take(s.len() as int) =~= s@);
    let ghost all = split_where(strip_markup(s@), star());
    assert(all =~= all.drop_last().push(all.last()));
    let (a, b) = trim_bounds(&current);
    if a < b {
        let cmd = string_from(&current, a, b);
        out.push(cmd);
        assert(strings_view(out@) =~= strings_view(out@.drop_last()).push(cmd@));
    }
    assert forall|k: int| 0 <= k < out.len() implies is_clean_command(#[trigger] out@[k]@) by {
        assert(out@[k]@ == strings_view(out@)[k]);
        assert(spec_commands(source@)[k] == strings_view(out@)[k]);
    }
    out
}

/// A character that continues a numeric field value.
pub open spec fn is_number_char(c: char) -> bool {
    is_digit(c) || c == '.'
}

/// End of the run of digits and dots that starts at `j`.
pub open spec fn run_end(s: Seq<char>, j: int) -> int
    decreases s.len() - j,
{
    if 0 <= j < s.len() && is_number_char(s[j]) {
        run_end(s, j + 1)
    } else {
        j
    }
}

/// End of a field value that starts at `start`: an optional sign, then digits and dots.
pub open spec fn value_end(s: Seq<char>, start: int) -> int {
    let j = if 0 <= start < s.len() && (s[start] == '+' || s[start] == '-') {
        start + 1
    } else {
        start
    };
    run_end(s, j)
}

pub proof fn lemma_run_end_bounds(s: Seq<char>, j: int)
    requires
        0 <= j <= s.len(),
    ensures
        j <= run_end(s, j) <= s.len(),
        forall|k: int| j <= k < run_end(s, j) ==> is_number_char(#[trigger] s[k]),
    decreases s.len() - j,
{
    if 0 <= j < s.len() && is_number_char(s[j]) {
        lemma_run_end_bounds(s, j + 1);
    }
}

/// The letter-and-value fields of a command, scanning from index `i`: each ASCII letter
/// followed by a non-empty value gives one field; every other character is skipped.
pub open spec fn fields_from(s: Seq<char>, i: int) -> Seq<(char, Seq<char>)>
    decreases s.len() - i,
{
    if i < 0 || i >= s.len() {
        Seq::empty()
    } else if is_alpha(s[i]) {
        let e = value_end(s, i + 1);
        proof {
            lemma_run_end_bounds(
                s,
                if 0 <= i + 1 < s.len() && (s[i + 1] == '+' || s[i + 1] == '-') {
                    i + 2
                } else {
                    i + 1
                },
            );
        }
        if e > i + 1 {
            seq![(s[i], s.subrange(i + 1, e))] + fields_from(s, e)
        } else {
            fields_from(s, e)
        }
    } else {
        fields_from(s, i + 1)
    }
}

pub open spec fn spec_fields(token: Seq<char>) -> Seq<(char, Seq<char>)> {
    fields_from(token, 0)
}

pub open spec fn fields_view(v: Seq<(char, String)>) -> Seq<(char, Seq<char>)> {
    v.map_values(|f: (char, String)| (f.0, f.1@))
}

/// A field as `parse_fields` gives it: an ASCII letter, then a non-empty value made of an
/// optional sign followed by digits and dots.
pub open spec fn is_field(f: (char, Seq<char>)) -> bool {
    &&& is_alpha(f.0)
    &&& f.1.len() > 0
    &&& (is_number_char(f.1[0]) || f.1[0] == '+' || f.1[0] == '-')
    &&& forall|j: int| 1 <= j < f.1.len() ==> is_number_char(#[trigger] f.1[j])
}

pub proof fn lemma_fields_from_shape(s: Seq<char>, i: int)
    ensures
        forall|k: int| 0 <= k < fields_from(s, i).len() ==> is_field(#[trigger] fields_from(s, i)[k]),
    decreases s.len() - i,
{
    if i < 0 || i >= s.len() {
    } else if is_alpha(s[i]) {
        let j = if 0 <= i + 1 < s.len() && (s[i + 1] == '+' || s[i + 1] == '-') {
            i + 2
        } else {
            i + 1
        };
        lemma_run_end_bounds(s, j);
        let e = value_end(s, i + 1);
        lemma_fields_from_shape(s, e);
        let rest = fields_from(s, e);
        if e > i + 1 {
            let f = (s[i], s.subrange(i + 1, e));
            assert forall|jj: int| 1 <= jj < f.1.len() implies is_number_char(#[trigger] f.1[jj]) by {
                assert(f.1[jj] == s[i + 1 + jj]);
            }
            assert(f.1[0] == s[i + 1]);
            assert(is_field(f));
            let all = seq![f] + rest;
            assert(fields_from(s, i) == all);
            assert forall|k: int| 0 <= k < all.len() implies is_field(#[trigger] all[k]) by {
                if k > 0 {
                    assert(all[k] == rest[k - 1]);
                } else {
                    assert(all[0] == f);
                }
            }
            assert forall|k: int| 0 <= k < fields_from(s, i).len() implies is_field(
                #[trigger] fields_from(s, i)[k],
            ) by {
                assert(fields_from(s, i)[k] == all[k]);
            }
        } else {
            assert(fields_from(s, i) == rest);
        }
    } else {
        lemma_fields_from_shape(s, i + 1);
        assert(fields_from(s, i) == fields_from(s, i + 1));
    }
}

/// Splits one command into its letter-and-value fields (`X100`, `D01`, `I-5.2`, ...).
pub fn parse_fields(token: &str) -> (r: Vec<(char, String)>)
    ensures
        fields_view(r@) == spec_fields(token@),
        forall|k: int| 0 <= k < r.len() ==> is_field(#[trigger] fields_view(r@)[k]),
{
    proof {
        lemma_fields_from_shape(token@, 0);
    }
    parse_fields_chars(&chars_of(token))
}

/// `parse_fields` on the characters of a command.
pub fn parse_fields_chars(s: &Vec<char>) -> (r: Vec<(char, String)>)
    ensures
        fields_view(r@) == spec_fields(s@),
{
    let mut fields: Vec<(char, String)> = Vec::new();
    let mut index: usize = 0;
    while index < s.len()
        invariant
            index <= s.len(),
            fields_view(fields@) + fields_from(s@, index as int) == spec_fields(s@),
        decreases s.len() - index,
    {
        if is_ascii_alphabetic(s[index]) {
            let letter = s[index];
            let ghost i = index as int;
            index = index + 1;
            let start = index;
            if index < s.len() && (s[index] == '+' || s[index] == '-') {
                index = index + 1;
            }
            proof {
                lemma_run_end_bounds(s@, index as int);
            }
            while index < s.len() && (is_ascii_digit(s[index]) || s[index] == '.')
                invariant
                    start <= index <= s.len(),
                    run_end(s@, index as int) == value_end(s@, start as int),
                decreases s.len() - index,
            {
                index = index + 1;
            }
            assert(index as int == value_end(s@, start as int));
            if index > start {
                let value = string_from(s, start, index);
                let ghost before = fields_view(fields@);
                fields.push((letter, value));
                assert(fields_view(fields@) =~= before.push((letter, value@)));
                assert(fields_view(fields@) + fields_from(s@, index as int) =~= before + (seq![
                    (s@[i], s@.subrange(i + 1, index as int)),
                ] + fields_from(s@, index as int)));
            }
        } else {
            index = index + 1;
        }
    }
    assert(fields_view(fields@) + fields_from(s@, index as int) =~= fields_view(fields@));
    fields
}

/// The values of the fields named `letter`, in order.
pub open spec fn values_named(fields: Seq<(char, Seq<char>)>, letter: char) -> Seq<Seq<char>>
    decreases fields.len(),
{
    if fields.len() == 0 {
        Seq::empty()
    } else if fields.last().0 == letter {
        values_named(fields.drop_last(), letter).push(fields.last().1)
    } else {
        values_named(fields.drop_last(), letter)
    }
}

/// The value of the last field named `letter`.
pub open spec fn spec_last_field(fields: Seq<(char, Seq<char>)>, letter: char) -> Option<
    Seq<char>,
> {
    let vs = values_named(fields, letter);
    if vs.len() == 0 {
        None
    } else {
        Some(vs.last())
    }
}

pub open spec fn strs_view(v: Seq<&str>) -> Seq<Seq<char>> {
    v.map_values(|s: &str| s@)
}

/// The values of the fields named `letter`, in order.
pub fn field_values<'a>(fields: &'a [(char, String)], letter: char) -> (r: Vec<&'a str>)
    ensures
        strs_view(r@) == values_named(fields_view(fields@), letter),
{
    let mut out: Vec<&'a str> = Vec::new();
    let mut i: usize = 0;
    while i < fields.len()
        invariant
            i <= fields.len(),
            strs_view(out@) == values_named(fields_view(fields@.take(i as int)), letter),
        decreases fields.len() - i,
    {
        assert(fields_view(fields@.take(i + 1)).drop_last() =~= fields_view(fields@.take(i as int)));
        assert(fields_view(fields@.take(i + 1)).last() == (fields@[i as int].0, fields@[i as int].1@));
        if fields[i].0 == letter {
            let v = fields[i].1.as_str();
            out.push(v);
            assert(strs_view(out@) =~= strs_view(out@.drop_last()).push(v@));
        }
        i = i + 1;
    }
    assert(fields@.take(fields.len() as int) =~= fields@);
    out
}

/// The value of the last field named `letter`.
pub fn last_field<'a>(fields: &'a [(char, String)], letter: char) -> (r: Option<&'a str>)
    ensures
        r matches Some(v) ==> spec_last_field(fields_view(fields@), letter) == Some(v@),
        r is None ==> spec_last_field(fields_view(fields@), letter) is None,
{
    let values = field_values(fields, letter);
    if values.len() == 0 {
        None
    } else {
        let v = values[values.len() - 1];
        assert(strs_view(values@)[values.len() - 1] == v@);
        Some(v)
    }
}

/// A primitive line of an aperture macro body: it holds a comma and starts with a digit or `$`.
pub open spec fn spec_is_macro_primitive(token: Seq<char>) -> bool {
    token.contains(',') && token.len() > 0 && (is_digit(token[0]) || token[0] == '$')
}

/// Whether a command is one primitive line of an aperture macro body.
pub fn is_macro_primitive(token: &str) -> (r: bool)
    ensures
        r == spec_is_macro_primitive(token@),
{
    let s = chars_of(token);
    has_char(&s, ',') && s.len() > 0 && (is_ascii_digit(s[0]) || s[0] == '$')
}

/// The digit pair after the first `axis` of a format command: `X24` gives `(2, 4)`.
pub open spec fn spec_format_pair(token: Seq<char>, axis: char) -> Option<(usize, usize)> {
    if (axis as u32) < 128 {
        match first_index(token, axis) {
            Some(k) => if k + 2 < token.len() && is_digit(token[k + 1]) && is_digit(
                token[k + 2],
            ) {
                Some((((token[k + 1] as u32) - 48) as usize, ((token[k + 2] as u32) - 48) as usize))
            } else {
                None
            },
            None => None,
        }
    } else {
        None
    }
}

/// Reads the integer and decimal digit counts that follow `axis` in a format command.
pub fn format_pair(token: &str, axis: char) -> (r: Option<(usize, usize)>)
    ensures
        r == spec_format_pair(token@, axis),
{
    if (axis as u32) >= 128 {
        return None;
    }
    let s = chars_of(token);
    match find_char(&s, axis) {
        Some(k) => {
            if k < s.len() && s.len() - k > 2 && is_ascii_digit(s[k + 1]) && is_ascii_digit(
                s[k + 2],
            ) {
                let integer = ((s[k + 1] as u32) - 48) as usize;
                let decimal = ((s[k + 2] as u32) - 48) as usize;
                Some((integer, decimal))
            } else {
                None
            }
        },
        None => None,
    }
}

/// A Gerber coordinate value: with a decimal point it is read as written; otherwise the sign,
/// then the digits, scaled by the format: `decimal` digits follow the implied point, and with
/// trailing-zero omission the omitted zeros up to `integer + decimal` digits are restored.
pub open spec fn spec_parse_number(value: Seq<char>, integer: usize, decimal: usize, trailing: bool)
    -> NumberModel {
    if value.contains('.') {
        NumberModel::Literal(value)
    } else {
        let unsigned = strip_signs(value);
        NumberModel::Scaled {
            negative: value.len() > 0 && value[0] == '-',
            mantissa: digits_or_zero(unsigned),
            shift: if trailing {
                (sat_sub(sat_add_usize(integer, decimal) as nat, utf8_len(unsigned)) as usize) as i32
            } else {
                0
            },
            divisor_exp: decimal as i32,
        }
    }
}

pub fn parse_number_chars(v: &Vec<char>, integer: usize, decimal: usize, trailing: bool) -> (r:
    ParsedNumber)
    ensures
        r@ == spec_parse_number(v@, integer, decimal, trailing),
{
    assert(v@.subrange(0, v.len() as int) =~= v@);
    if has_char(v, '.') {
        return ParsedNumber::Literal(string_from(v, 0, v.len()));
    }
    let parts = integer_parts(v);
    let shift: i32 = if trailing {
        let total: usize = if integer > usize::MAX - decimal {
            usize::MAX
        } else {
            integer + decimal
        };
        let omitted: usize = if total >= parts.unsigned_len {
            total - parts.unsigned_len
        } else {
            0
        };
        #[verifier::truncate]
        (omitted as i32)
    } else {
        0
    };
    assert(v@.subrange(0, v.len() as int) =~= v@);
    ParsedNumber::Scaled {
        negative: parts.negative,
        mantissa: parts.mantissa,
        shift,
        divisor_exp: #[verifier::truncate]
        (decimal as i32),
    }
}

/// Reads a Gerber coordinate value under a coordinate format.
pub fn parse_number(value: &str, integer: usize, decimal: usize, trailing: bool) -> (r:
    ParsedNumber)
    ensures
        r@ == spec_parse_number(value@, integer, decimal, trailing),
{
    parse_number_chars(&chars_of(value), integer, decimal, trailing)
}

} // verus!
